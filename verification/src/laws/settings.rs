//! Settings: which modules stand where, where secrets come from, and how credentials are
//! kept and shown.
use crate::auth::AuthSession;
use crate::config::{
    module_added, module_removed, pipeline_config, resolved_pin, resolved_secret, secret_entries,
    stage_entries, without_module, Config, ConfigView, ModuleEntryView,
};
use crate::credentials::{
    complete, credential_values, field_value, field_values, list_entries, public_settings,
    secrets_of, settings_of, stored_secret,
    stored_setting,
};
use crate::env_file::env_map;
use crate::json::{member, JsonView};
use crate::laws::moderation::{counted, said};
use crate::module_list::{
    blank_entry, field_json, found_entry, module_entries, with_kept, with_session, ListedModuleView,
};
use crate::module_manager::{
    env_name_of, loaded, with_find, CredentialFieldView, DiscoveredModuleView, FoundView,
    ManifestReadView, Search,
};
use crate::module_registry::RegisteredModuleView;
use crate::pipeline::PipelineConfig;
use crate::strmap::has_key;
use crate::text::{decimal, trim};
use vstd::prelude::*;

verus! {

/// A module that is added takes its place at the position that it is for, with its
/// priority, and stands nowhere else that it did not stand before; nothing but that list
/// changes.
pub proof fn law_added_modules_stand_at_their_position(
    c: ConfigView,
    name: Seq<char>,
    priority: i32,
    position: Seq<char>,
)
    ensures
        ({
            let e = ModuleEntryView { name, priority };
            let pre = module_added(c, name, "preprocess"@, priority);
            let inner = module_added(c, name, "inprocess"@, priority);
            let post = module_added(c, name, "postprocess"@, priority);
            let input = module_added(c, name, "input"@, priority);
            &&& pre.preprocess_modules.contains(e) && pre.inprocess_modules == c.inprocess_modules
                && pre.postprocess_modules == c.postprocess_modules && pre.inputs == c.inputs
            &&& inner.inprocess_modules.contains(e) && inner.preprocess_modules
                == c.preprocess_modules && inner.postprocess_modules == c.postprocess_modules
                && inner.inputs == c.inputs
            &&& post.postprocess_modules.contains(e) && post.preprocess_modules
                == c.preprocess_modules && post.inprocess_modules == c.inprocess_modules
                && post.inputs == c.inputs
            &&& input.inputs.contains(e) && input.preprocess_modules == c.preprocess_modules
                && input.inprocess_modules == c.inprocess_modules && input.postprocess_modules
                == c.postprocess_modules
        }),
        ({
            let r = module_added(c, name, position, priority);
            &&& r.port == c.port
            &&& r.timeline_database_location == c.timeline_database_location
            &&& r.timeline_database_backup_location == c.timeline_database_backup_location
            &&& r.timeline_database_target_mb == c.timeline_database_target_mb
            &&& r.module_probe_interval_secs == c.module_probe_interval_secs
            &&& r.module_probe_response_secs == c.module_probe_response_secs
            &&& r.module_approval_policy == c.module_approval_policy
        }),
{
    reveal_strlit("input");
    reveal_strlit("preprocess");
    reveal_strlit("inprocess");
    reveal_strlit("postprocess");
    assert("input"@.len() == 5 && "preprocess"@.len() == 10 && "inprocess"@.len() == 9
        && "postprocess"@.len() == 11);
    let e = ModuleEntryView { name, priority };
    crate::config::law_added_module_is_listed(c.preprocess_modules, name, priority, e);
    crate::config::law_added_module_is_listed(c.inprocess_modules, name, priority, e);
    crate::config::law_added_module_is_listed(c.postprocess_modules, name, priority, e);
    crate::config::law_added_module_is_listed(c.inputs, name, priority, e);
}

proof fn lemma_without(list: Seq<ModuleEntryView>, name: Seq<char>, e: ModuleEntryView)
    ensures
        without_module(list, name).contains(e) <==> list.contains(e) && e.name != name,
    decreases list.len(),
{
    if list.len() > 0 {
        let front = list.drop_last();
        lemma_without(front, name, e);
        assert(list =~= front.push(list.last()));
        let kept = without_module(front, name);
        if list.contains(e) {
            let j = choose|j: int| 0 <= j < list.len() && list[j] == e;
            if j < front.len() {
                assert(front[j] == e);
            }
        }
        if front.contains(e) {
            let j = choose|j: int| 0 <= j < front.len() && front[j] == e;
            assert(list[j] == e);
        }
        if list.last() == e {
            assert(list[list.len() - 1] == e);
        }
        if list.last().name != name {
            let all = kept.push(list.last());
            if kept.contains(e) {
                let j = choose|j: int| 0 <= j < kept.len() && kept[j] == e;
                assert(all[j] == e);
            }
            if all.contains(e) {
                let j = choose|j: int| 0 <= j < all.len() && all[j] == e;
                if j < kept.len() {
                    assert(kept[j] == e);
                }
            }
            if list.last() == e {
                assert(all[kept.len() as int] == e);
            }
        }
    }
}

/// A module that is taken out stands nowhere any more, and every other module stands where it
/// stood.
pub proof fn law_removed_modules_stand_nowhere(c: ConfigView, name: Seq<char>, e: ModuleEntryView)
    ensures
        ({
            let r = module_removed(c, name);
            &&& r.inputs.contains(e) <==> c.inputs.contains(e) && e.name != name
            &&& r.preprocess_modules.contains(e) <==> c.preprocess_modules.contains(e) && e.name
                != name
            &&& r.inprocess_modules.contains(e) <==> c.inprocess_modules.contains(e) && e.name
                != name
            &&& r.postprocess_modules.contains(e) <==> c.postprocess_modules.contains(e) && e.name
                != name
            &&& r.port == c.port
        }),
{
    lemma_without(c.inputs, name, e);
    lemma_without(c.preprocess_modules, name, e);
    lemma_without(c.inprocess_modules, name, e);
    lemma_without(c.postprocess_modules, name, e);
}

/// Each position has its own list of modules; there is no other position.
pub proof fn law_positions_have_their_lists(c: ConfigView, position: Seq<char>)
    ensures
        stage_entries(c, "input"@) == c.inputs,
        stage_entries(c, "connections"@) == c.inputs,
        stage_entries(c, "preprocess"@) == c.preprocess_modules,
        stage_entries(c, "inprocess"@) == c.inprocess_modules,
        stage_entries(c, "postprocess"@) == c.postprocess_modules,
        position != "input"@ && position != "connections"@ && position != "preprocess"@ && position
            != "inprocess"@ && position != "postprocess"@ ==> stage_entries(c, position).len() == 0,
{
    reveal_strlit("input");
    reveal_strlit("connections");
    reveal_strlit("preprocess");
    reveal_strlit("inprocess");
    reveal_strlit("postprocess");
    assert("input"@.len() == 5 && "preprocess"@.len() == 10 && "inprocess"@.len() == 9
        && "postprocess"@.len() == 11 && "connections"@.len() == 11);
    assert("postprocess"@[0] == 'p' && "connections"@[0] == 'c');
}

/// The pipeline's stages are the lists of the settings, in their order; a module has three
/// seconds to answer and none is critical.
pub proof fn law_the_pipeline_follows_the_settings(config: &Config, r: PipelineConfig, i: int)
    requires
        call_ensures(pipeline_config, (config,), r),
    ensures
        r@.pre_process_modules.len() == config@.preprocess_modules.len(),
        r@.in_process_modules.len() == config@.inprocess_modules.len(),
        r@.post_process_modules.len() == config@.postprocess_modules.len(),
        0 <= i < config@.preprocess_modules.len() ==> r@.pre_process_modules[i]
            == config@.preprocess_modules[i].name,
        0 <= i < config@.inprocess_modules.len() ==> r@.in_process_modules[i]
            == config@.inprocess_modules[i].name,
        0 <= i < config@.postprocess_modules.len() ==> r@.post_process_modules[i]
            == config@.postprocess_modules[i].name,
        r@.ack_timeout_ms == 3000,
        r@.critical_modules.len() == 0,
{
}

/// The PIN comes from the environment where that holds a number, else from the old
/// settings, and is made up only where neither has one. The secret likewise.
pub proof fn law_where_secrets_come_from(
    env: Seq<char>,
    settings: JsonView,
    old_pin: u64,
    old_secret: Seq<char>,
    random: u128,
    fresh: Seq<char>,
)
    ensures
        crate::text::u32_of(env) matches Some(n) ==> resolved_pin(Some(env), Some(settings), random)
            == n,
        crate::text::u32_of(env) is None && member(settings, "paring_pin"@) == Some(
            JsonView::Pos(old_pin),
        ) && old_pin <= u32::MAX ==> resolved_pin(Some(env), Some(settings), random) == old_pin
            && resolved_pin(None, Some(settings), random) == old_pin,
        !(member(settings, "paring_pin"@) matches Some(JsonView::Pos(_))) ==> resolved_pin(
            None,
            Some(settings),
            random,
        ) == 100000 + random % 900000,
        resolved_pin(None, None, random) == 100000 + random % 900000,
        trim(env).len() > 0 ==> resolved_secret(Some(env), Some(settings), fresh) == env,
        trim(env).len() == 0 && member(settings, "jwt_secret"@) == Some(JsonView::Text(old_secret))
            && old_secret.len() > 0 ==> resolved_secret(Some(env), Some(settings), fresh)
            == old_secret && resolved_secret(None, Some(settings), fresh) == old_secret,
        said(settings, "jwt_secret"@, ""@).len() == 0 ==> resolved_secret(
            None,
            Some(settings),
            fresh,
        ) == fresh,
        resolved_secret(None, None, fresh) == fresh,
{
    reveal_strlit("");
    assert(random % 900000 < 900000);
}

/// The PIN is kept under `COCKATIEL_PIN` and the secret under `COCKATIEL_JWT_SECRET`.
pub proof fn law_secrets_are_kept_under_their_names(pin: u32, secret: Seq<char>)
    ensures
        secret_entries(pin, secret).len() == 2,
        secret_entries(pin, secret).contains(("COCKATIEL_PIN"@, decimal(pin as nat))),
        secret_entries(pin, secret).contains(("COCKATIEL_JWT_SECRET"@, secret)),
{
    let s = secret_entries(pin, secret);
    assert(s[0] == ("COCKATIEL_PIN"@, decimal(pin as nat)));
    assert(s[1] == ("COCKATIEL_JWT_SECRET"@, secret));
}

/// Where the value of a credential is found: in the module's settings, else in its
/// environment file under the name given for it, else there under its key.
pub proof fn law_where_credentials_are_found(
    f: CredentialFieldView,
    settings: Map<Seq<char>, JsonView>,
    env: Map<Seq<char>, Seq<char>>,
)
    ensures
        settings.dom().contains(f.key) ==> (settings[f.key] matches JsonView::Text(t)
            ==> field_value(f, settings, env) == Some(t)),
        !settings.dom().contains(f.key) && !f.list && f.env.len() > 0 && env.dom().contains(f.env)
            ==> field_value(f, settings, env) == Some(env[f.env]),
        !settings.dom().contains(f.key) && !f.list && (f.env.len() == 0 || !env.dom().contains(
            f.env,
        )) && env.dom().contains(f.key) ==> field_value(f, settings, env) == Some(env[f.key]),
        !settings.dom().contains(f.key) && !env.dom().contains(f.key) && (f.env.len() == 0
            || !env.dom().contains(f.env)) ==> field_value(f, settings, env) is None,
        f.env.len() > 0 ==> env_name_of(f) == f.env,
        f.env.len() == 0 ==> env_name_of(f) == f.key,
{
}

/// A module is complete exactly where every credential that it cannot do without has a value
/// that is not blank.
pub proof fn law_complete_modules_have_what_they_need(
    fields: Seq<CredentialFieldView>,
    values: Map<Seq<char>, Seq<char>>,
    i: int,
)
    ensures
        complete(fields, values) && 0 <= i < fields.len() && !fields[i].optional
            ==> values.dom().contains(fields[i].key) && trim(values[fields[i].key]).len() > 0,
        (forall|j: int|
            0 <= j < fields.len() ==> (#[trigger] fields[j]).optional || (values.dom().contains(
                fields[j].key,
            ) && trim(values[fields[j].key]).len() > 0)) ==> complete(fields, values),
{
}

/// What was submitted for a secret goes to the environment file under the secret's name,
/// and for anything else to the settings under its key; neither goes where the other does.
pub proof fn law_submitted_values_go_where_they_belong(
    fields: Seq<CredentialFieldView>,
    values: Map<Seq<char>, Seq<char>>,
    f: CredentialFieldView,
)
    requires
        values.dom().contains(f.key),
    ensures
        f.sensitive ==> secrets_of(fields.push(f), values) == secrets_of(fields, values).push(
            (env_name_of(f), stored_secret(f, values[f.key])),
        ) && settings_of(fields.push(f), values) == settings_of(fields, values),
        !f.sensitive ==> secrets_of(fields.push(f), values) == secrets_of(fields, values)
            && settings_of(fields.push(f), values) == settings_of(fields, values).insert(
            f.key,
            stored_setting(f, values[f.key]),
        ),
        !f.list ==> stored_secret(f, values[f.key]) == trim(values[f.key]) && stored_setting(
            f,
            values[f.key],
        ) == JsonView::Text(trim(values[f.key])),
{
    assert(fields.push(f).drop_last() =~= fields);
}

/// What was not submitted is not touched.
pub proof fn law_unsubmitted_values_are_not_touched(
    fields: Seq<CredentialFieldView>,
    values: Map<Seq<char>, Seq<char>>,
    f: CredentialFieldView,
)
    requires
        !values.dom().contains(f.key),
    ensures
        secrets_of(fields.push(f), values) == secrets_of(fields, values),
        settings_of(fields.push(f), values) == settings_of(fields, values),
{
    assert(fields.push(f).drop_last() =~= fields);
}

/// The entries of a list are its lines without the white space around them, blank ones left
/// out, in order.
pub proof fn law_list_entries_are_lines(lines: Seq<Seq<char>>, line: Seq<char>)
    ensures
        trim(line).len() > 0 ==> list_entries(lines.push(line)) == list_entries(lines).push(
            trim(line),
        ),
        trim(line).len() == 0 ==> list_entries(lines.push(line)) == list_entries(lines),
        list_entries(Seq::empty()).len() == 0,
{
    assert(lines.push(line).drop_last() =~= lines);
}

/// What a module finds: its directory and its manifest where that can be read and has a
/// name; nothing where there is no manifest; and why not otherwise.
pub proof fn law_what_is_found_in_a_directory(
    directory: Seq<char>,
    m: crate::module_manager::ModuleManifestView,
    e: Seq<char>,
)
    ensures
        loaded(directory, ManifestReadView::Missing) == Ok::<
            Option<DiscoveredModuleView>,
            Seq<char>,
        >(None),
        trim(m.name).len() > 0 ==> {
            &&& loaded(directory, ManifestReadView::Manifest(m)) matches Ok(Some(found))
            &&& found.manifest == m
            &&& found.directory == directory
        },
        trim(m.name).len() == 0 ==> loaded(directory, ManifestReadView::Manifest(m)) is Err,
        loaded(directory, ManifestReadView::Unreadable(e)) is Err,
        loaded(directory, ManifestReadView::Invalid(e)) is Err,
{
}

/// A search takes up a module where no other of its name was found, and otherwise leaves
/// what was found and says so; a fault is noted and ends nothing.
pub proof fn law_searching(s: Search, path: Seq<char>, manifest: ManifestReadView, f: FoundView)
    ensures
        loaded(path, manifest) matches Ok(Some(m)) ==> (!has_key(s.0, m.manifest.name) ==> with_find(
            s,
            FoundView::Candidate { path, manifest },
        ) == (s.0.push((m.manifest.name, m)), s.1)),
        loaded(path, manifest) matches Ok(Some(m)) ==> (has_key(s.0, m.manifest.name) ==> with_find(
            s,
            FoundView::Candidate { path, manifest },
        ).0 == s.0 && with_find(s, FoundView::Candidate { path, manifest }).1.len() == s.1.len()
            + 1),
        loaded(path, manifest) matches Ok(None) ==> with_find(
            s,
            FoundView::Candidate { path, manifest },
        ) == s,
        loaded(path, manifest) matches Err(e) ==> with_find(
            s,
            FoundView::Candidate { path, manifest },
        ) == (s.0, s.1.push(e)),
        !(f is Candidate) ==> with_find(s, f).0 == s.0 && with_find(s, f).1.len() == s.1.len() + 1,
{
}

pub(crate) proof fn lemma_entry_keys()
    ensures
        "name"@.len() == 4 && "name"@[0] == 'n',
        "description"@.len() == 11 && "description"@[0] == 'd',
        "uuid7"@.len() == 5 && "uuid7"@[0] == 'u',
        "position"@.len() == 8 && "position"@[1] == 'o',
        "priority"@.len() == 8 && "priority"@[1] == 'r',
        "autostart"@.len() == 9 && "autostart"@[0] == 'a',
        "connected_at"@.len() == 12,
        "shutdown_at"@.len() == 11 && "shutdown_at"@[0] == 's',
        "credentials"@.len() == 11 && "credentials"@[0] == 'c',
        "directory"@.len() == 9 && "directory"@[0] == 'd',
        "credential_values"@.len() == 17,
        "config_complete"@.len() == 15,
        "alive"@.len() == 5 && "alive"@[0] == 'a',
        "last_seen"@.len() == 9 && "last_seen"@[0] == 'l',
{
    reveal_strlit("name");
    reveal_strlit("description");
    reveal_strlit("uuid7");
    reveal_strlit("position");
    reveal_strlit("priority");
    reveal_strlit("autostart");
    reveal_strlit("connected_at");
    reveal_strlit("shutdown_at");
    reveal_strlit("credentials");
    reveal_strlit("directory");
    reveal_strlit("credential_values");
    reveal_strlit("config_complete");
    reveal_strlit("alive");
    reveal_strlit("last_seen");
}

/// A module that was found is listed with its name, description and directory, whether it
/// starts by itself, what credentials it asks for and whether it has them, and with their
/// values only for who may see them.
pub proof fn law_found_modules_are_listed(m: ListedModuleView, expose: bool)
    ensures
        ({
            let j = JsonView::Object(found_entry(m, expose));
            let man = m.module.manifest;
            let values = credential_values(man.credentials, m.env, m.config);
            &&& member(j, "name"@) == Some(JsonView::Text(man.name))
            &&& member(j, "description"@) == Some(JsonView::Text(man.description))
            &&& member(j, "directory"@) == Some(JsonView::Text(m.module.directory))
            &&& member(j, "autostart"@) == Some(JsonView::Bool(man.autostart))
            &&& member(j, "config_complete"@) == Some(
                JsonView::Bool(complete(man.credentials, values)),
            )
            &&& member(j, "position"@) == Some(JsonView::Text("unknown"@))
            &&& member(j, "connected_at"@) == Some(JsonView::Null)
            &&& member(j, "credentials"@) matches Some(JsonView::List(l))
            &&& l.len() == man.credentials.len()
            &&& member(j, "credential_values"@) matches Some(JsonView::Object(shown))
            &&& !expose ==> shown.dom() == Set::<Seq<char>>::empty()
            &&& expose ==> shown.dom() == values.dom() && forall|k: Seq<char>|
                #[trigger] values.dom().contains(k) ==> shown[k] == JsonView::Text(values[k])
        }),
{
    lemma_entry_keys();
}

/// A credential is listed with everything that its module says of it.
pub proof fn law_credential_fields_are_listed(f: CredentialFieldView)
    ensures
        member(field_json(f), "key"@) == Some(JsonView::Text(f.key)),
        member(field_json(f), "label"@) == Some(JsonView::Text(f.label)),
        member(field_json(f), "sensitive"@) == Some(JsonView::Bool(f.sensitive)),
        member(field_json(f), "list"@) == Some(JsonView::Bool(f.list)),
        member(field_json(f), "optional"@) == Some(JsonView::Bool(f.optional)),
        member(field_json(f), "env"@) == Some(JsonView::Text(f.env)),
{
    reveal_strlit("key");
    reveal_strlit("label");
    reveal_strlit("sensitive");
    reveal_strlit("list");
    reveal_strlit("optional");
    reveal_strlit("env");
    assert("key"@.len() == 3 && "env"@.len() == 3 && "key"@[0] == 'k' && "env"@[0] == 'e');
    assert("label"@.len() == 5 && "sensitive"@.len() == 9 && "list"@.len() == 4
        && "optional"@.len() == 8);
}

/// A module that was approved before is listed with its id, position and priority, and one
/// that is connected also with when it connected, whether it is alive and when it was last
/// heard of. What else is listed of it stays.
pub proof fn law_known_and_connected_modules_are_listed(
    entry: Map<Seq<char>, JsonView>,
    m: RegisteredModuleView,
    s: AuthSession,
    key: Seq<char>,
)
    ensures
        ({
            let j = JsonView::Object(with_kept(entry, m));
            &&& member(j, "uuid7"@) == Some(JsonView::Text(m.instance_uuid7))
            &&& member(j, "position"@) == Some(JsonView::Text(m.position))
            &&& counted(j, "priority"@, m.priority + 1) == m.priority
            &&& key != "uuid7"@ && key != "position"@ && key != "priority"@ ==> member(j, key)
                == member(JsonView::Object(entry), key)
        }),
        ({
            let j = JsonView::Object(with_session(entry, s));
            &&& member(j, "uuid7"@) == Some(JsonView::Text(s.instance_uuid7@))
            &&& member(j, "position"@) == Some(JsonView::Text(s.position@))
            &&& counted(j, "priority"@, s.priority + 1) == s.priority
            &&& member(j, "alive"@) == Some(JsonView::Bool(!s.unresponsive))
            &&& counted(j, "last_seen"@, s.last_activity_ms + 1) == s.last_activity_ms
            &&& s.connected_at matches Some(t) ==> counted(j, "connected_at"@, t + 1) == t
            &&& s.connected_at is None ==> member(j, "connected_at"@) == Some(JsonView::Null)
            &&& s.shutdown_at matches Some(t) ==> counted(j, "shutdown_at"@, t + 1) == t
            &&& s.shutdown_at is None ==> member(j, "shutdown_at"@) == Some(JsonView::Null)
            &&& key != "uuid7"@ && key != "position"@ && key != "priority"@ && key != "alive"@ && key
                != "last_seen"@ && key != "connected_at"@ && key != "shutdown_at"@ ==> member(j, key)
                == member(JsonView::Object(entry), key)
        }),
        member(JsonView::Object(blank_entry(key)), "name"@) == Some(JsonView::Text(key)),
{
    lemma_entry_keys();
}

/// Each credential of a module that is found has its value, and one that is not found has
/// none.
pub proof fn law_values_are_gathered(
    fields: Seq<CredentialFieldView>,
    f: CredentialFieldView,
    settings: Map<Seq<char>, JsonView>,
    env: Map<Seq<char>, Seq<char>>,
)
    ensures
        field_value(f, settings, env) matches Some(v) ==> field_values(fields.push(f), settings, env)
            == field_values(fields, settings, env).insert(f.key, v),
        field_value(f, settings, env) is None ==> field_values(fields.push(f), settings, env)
            == field_values(fields, settings, env),
        field_values(Seq::empty(), settings, env) == Map::<Seq<char>, Seq<char>>::empty(),
{
    assert(fields.push(f).drop_last() =~= fields);
}

/// A module with an environment file has the values of its credentials and no others; one
/// without has them too, and only where none is found all of its settings.
pub proof fn law_which_values_a_module_has(
    fields: Seq<CredentialFieldView>,
    env: Seq<char>,
    config: Option<Seq<char>>,
    key: Seq<char>,
)
    ensures
        credential_values(fields, Some(env), config) == field_values(
            fields,
            public_settings(config),
            env_map(env),
        ),
        ({
            let values = field_values(fields, public_settings(config), Map::empty());
            &&& !values.dom().is_empty() ==> credential_values(fields, None, config) == values
            &&& values.dom().is_empty() ==> credential_values(fields, None, config).dom()
                == public_settings(config).dom()
        }),
{
}

/// A module that is connected is listed as what its connection says, whatever was found or
/// kept of it before.
pub proof fn law_connections_come_last(
    found: Seq<ListedModuleView>,
    kept: Seq<RegisteredModuleView>,
    sessions: Seq<AuthSession>,
    s: AuthSession,
    expose: bool,
)
    ensures
        ({
            let entries = module_entries(found, kept, sessions.push(s), expose);
            let j = JsonView::Object(entries[s.module_name@]);
            &&& entries.dom().contains(s.module_name@)
            &&& member(j, "uuid7"@) == Some(JsonView::Text(s.instance_uuid7@))
            &&& member(j, "position"@) == Some(JsonView::Text(s.position@))
            &&& member(j, "alive"@) == Some(JsonView::Bool(!s.unresponsive))
        }),
        ({
            let entries = module_entries(found, kept, sessions, expose);
            forall|k: Seq<char>|
                k != s.module_name@ && #[trigger] entries.dom().contains(k) ==> module_entries(
                    found,
                    kept,
                    sessions.push(s),
                    expose,
                )[k] == entries[k]
        }),
{
    lemma_entry_keys();
    assert(sessions.push(s).drop_last() =~= sessions);
}

} // verus!
