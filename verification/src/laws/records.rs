//! What is kept, asked of the database and read back: values, ids, numbers and defaults.
use crate::auth::{
    authenticated, changed, claims_grant, released, shut_down, AuthSession, AuthStore,
};
use crate::chat_commands::apology_text;
use crate::command_registry::{
    catch_all_names, distinct_commands, given_flag, key_of, listed_commands, read_words,
    ModuleCommandRegView,
};
use crate::config::{
    by_priority, default_approval_policy, default_probe_interval_secs,
    default_probe_response_secs, default_timeline_target_mb, ModuleEntryView,
};
use crate::connection::{payload_taken, token_granted};
use crate::credentials::public_settings;
use crate::database::{
    audio_type_of, with_audio_type, DatabaseManager, SqlValueView, Statement,
};
use crate::env_file::{defined, defines, to_set};
use crate::json::{alike, int_json, json_read, member, Json, JsonView};
use crate::module_list::{blank_entry, found_entry, ListedModuleView};
use crate::module_client::request_of;
use crate::module_manager::{loaded, with_find, FoundView, ManifestReadView, Search};
use crate::module_registry::{ModuleRegistryPersistence, RegisteredModule};
use crate::orchestrator::{DbOp, DbOpView, OpView, PipelineOrchestrator, Task};
use crate::proto::{
    ChatMessageView, CommandView, ContainerView, FlagView, PayloadView, ProcessPosition,
};
use crate::queries::{archived, results_in};
use crate::random::uuid_text;
use crate::text::{count, decimal, split_on, u32_of, unquote, utf8_len};
use crate::tui::App;
use crate::user_database::ConfigManager;
use crate::user_queries::looks_like_uuid;
use crate::user_store::{get_user_data, new_user, remove_user};
use crate::writes::flags_needed;
use vstd::prelude::*;

verus! {

/// Who uses an unknown command is addressed by name, by id where the name is not known, and
/// as a user where neither is.
pub proof fn law_apologies_address_the_author(chat: ChatMessageView)
    ensures
        ({
            let rest =
                ", that command isn't valid, try '!help' to see all available commands"@;
            let named = chat.user_data matches Some(u) && u.username.len() > 0;
            &&& named ==> apology_text(chat) == "sorry "@ + (chat.user_data.unwrap().username + rest)
            &&& !named && chat.user_uuid7.len() > 0 ==> apology_text(chat) == "sorry "@ + (
            chat.user_uuid7 + rest)
            &&& !named && chat.user_uuid7.len() == 0 ==> apology_text(chat) == "sorry "@ + ("user"@
                + rest)
        }),
{
    let rest = ", that command isn't valid, try '!help' to see all available commands"@;
    let who = crate::chat_commands::author(chat);
    assert("sorry "@ + who + rest =~= "sorry "@ + (who + rest));
}

/// Where the settings say nothing, modules are probed twice a minute and have half of that
/// to answer, the timeline may grow to fifty megabytes, and unknown modules are not let in.
pub proof fn law_defaults(every: u64, within: u64, target: u32, policy: String)
    requires
        call_ensures(default_probe_interval_secs, (), every),
        call_ensures(default_probe_response_secs, (), within),
        call_ensures(default_timeline_target_mb, (), target),
        call_ensures(default_approval_policy, (), policy),
    ensures
        2 * every == 60,
        2 * within == every,
        target == 50,
        policy@ == "auto-deny"@,
{
}

/// What is asked of a message is asked of the message with the id that is given; its bytes
/// are kept under its id.
pub proof fn law_messages_are_asked_about_by_id(
    db: &DatabaseManager,
    id: &Vec<u8>,
    data: &Vec<u8>,
    flags: Statement,
    audio: Statement,
    event: Statement,
    audit: Statement,
    kept: Statement,
    merged: Statement,
)
    requires
        call_ensures(DatabaseManager::flags_query, (db, id), flags),
        call_ensures(DatabaseManager::audio_query, (db, id), audio),
        call_ensures(DatabaseManager::event_query, (db, id), event),
        call_ensures(DatabaseManager::audit_entry_query, (db, id), audit),
        call_ensures(DatabaseManager::set_data_blob, (db, id, data), kept),
        call_ensures(DatabaseManager::checkpoint_wal, (db,), merged),
    ensures
        ({
            let by_id = seq![SqlValueView::Blob(id@)];
            &&& flags@.params == by_id && audio@.params == by_id && event@.params == by_id
                && audit@.params == by_id
            &&& kept@.params == seq![SqlValueView::Blob(data@), SqlValueView::Blob(id@)]
            &&& merged@.params.len() == 0
        }),
        flags@.sql == "SELECT flags FROM timeline_events WHERE uuid7 = ?1"@,
        audio@.sql == "SELECT data_blob, flags FROM timeline_events WHERE uuid7 = ?1"@,
        audit@.sql
            == "SELECT platform, raw_message, user_uuid7, flags FROM timeline_events WHERE uuid7 = ?1"@,
        event@.sql
            == "SELECT schema_version, event_type, platform, raw_message, command, flags, user_uuid7, processed_message, error_message, pre_process_completed_at, in_process_completed_at, post_process_completed_at, persisted_at, pipeline_status, synced_at FROM timeline_events WHERE uuid7 = ?1"@,
        kept@.sql == "UPDATE timeline_events SET data_blob = ?1 WHERE uuid7 = ?2"@,
        merged@.sql == "PRAGMA wal_checkpoint(TRUNCATE)"@,
{
}

/// A new event is inserted whole, as queued, each value in the column of its name.
pub proof fn law_events_are_inserted_whole(
    db: &DatabaseManager,
    id: &Vec<u8>,
    event_type: i32,
    platform: &str,
    raw_data: &Vec<u8>,
    raw_message: &str,
    command: &str,
    flags: &str,
    r: Statement,
)
    requires
        call_ensures(
            DatabaseManager::insert_event,
            (db, id, event_type, platform, raw_data, raw_message, command, flags),
            r,
        ),
    ensures
        r@.sql
            == "INSERT INTO timeline_events (uuid7, schema_version, event_type, platform, raw_data, raw_message, command, flags, pipeline_status) VALUES (?1, ?2, ?3, ?4, ?5, ?6, ?7, ?8, 'queued')"@,
        r@.params.len() == 8,
        r@.params[0] == SqlValueView::Blob(id@),
        r@.params[1] == SqlValueView::Integer(1),
        r@.params[2] == SqlValueView::Integer(event_type as i64),
        r@.params[3] == SqlValueView::Text(platform@),
        r@.params[4] == SqlValueView::Blob(raw_data@),
        r@.params[5] == SqlValueView::Text(raw_message@),
        r@.params[6] == SqlValueView::Text(command@),
        r@.params[7] == SqlValueView::Text(flags@),
{
}

/// The flags of a message are needed only to add to them the type of its audio.
pub proof fn law_when_flags_are_needed(op: &DbOp, r: Option<String>)
    requires
        call_ensures(flags_needed, (op,), r),
    ensures
        r is Some <==> op@ is SetAudio,
        op@ matches DbOpView::SetAudio { uuid7, .. } ==> r.unwrap()@ == uuid7,
{
}

/// A user was removed where a row went, and their document is what was stored of them, or
/// an empty one where that cannot be read.
pub proof fn law_users_are_read_and_removed(
    rows: u64,
    gone: bool,
    text: &str,
    r: Option<Json>,
    none: Option<Json>,
)
    requires
        call_ensures(remove_user, (rows,), gone),
        call_ensures(get_user_data, (Some(text),), r),
        call_ensures(get_user_data, (None::<&str>,), none),
    ensures
        gone <==> rows >= 1,
        none is None,
        r is Some,
        json_read(text@) matches Ok(v) ==> r.unwrap()@ == v,
        json_read(text@) is Err ==> r.unwrap()@ == JsonView::Object(Map::empty()),
{
}

/// A module's settings are those under its own name in the file, and none where the file is
/// missing or cannot be read.
pub proof fn law_settings_are_read_by_module(
    m: &ConfigManager,
    text: &str,
    name: &str,
    r: Option<Json>,
    none: Option<Json>,
)
    requires
        call_ensures(ConfigManager::get_config, (m, Some(text), name), r),
        call_ensures(ConfigManager::get_config, (m, None::<&str>, name), none),
    ensures
        none is None,
        json_read(text@) is Err ==> r is None,
        json_read(text@) matches Ok(v) ==> crate::proto::opt_view(r) == member(v, name@),
{
}

/// The modules that are known at the start are those that were kept, in their order, and
/// none where nothing was kept.
pub proof fn law_kept_modules_are_known_again(
    path: String,
    stored: Vec<RegisteredModule>,
    i: int,
    r: ModuleRegistryPersistence,
    fresh: ModuleRegistryPersistence,
)
    requires
        call_ensures(ModuleRegistryPersistence::load, (path, Some(stored)), r),
        call_ensures(ModuleRegistryPersistence::load, (path, None), fresh),
    ensures
        r@.len() == stored@.len(),
        0 <= i < stored@.len() ==> r@[i] == stored@[i]@,
        fresh@.len() == 0,
{
}

/// An answer that arrives is noted for the message that it is about.
pub proof fn law_answers_are_noted(o: &PipelineOrchestrator, id: &str, r: Task)
    requires
        call_ensures(PipelineOrchestrator::handle_ack, (o, id), r),
    ensures
        r@ == seq![OpView::Ack { uuid7: id@ }],
{
}

/// The panes beside each other, and those above each other, share the whole screen.
pub proof fn law_panes_share_the_screen(app: &App, r: [u16; 6])
    requires
        app@.split_y <= 100,
        app@.top_split_x <= 100,
        app@.bottom_split_x <= 100,
        call_ensures(App::shares, (app,), r),
    ensures
        r@[0] + r@[1] == 100 && r@[0] == app@.split_y,
        r@[2] + r@[3] == 100 && r@[2] == app@.top_split_x,
        r@[4] + r@[5] == 100 && r@[4] == app@.bottom_split_x,
{
}

/// Integers keep their sign as values.
pub proof fn law_integers_as_values(n: i64)
    ensures
        n >= 0 ==> int_json(n) == JsonView::Pos(n as u64),
        n < 0 ==> int_json(n) == JsonView::Neg(n),
{
}

/// Which values say the same: a value and itself, the zeros among the fractions, and no two
/// texts, numbers or flags that differ; lists only where they are equally long and each
/// place says the same.
pub proof fn law_which_values_are_alike(a: JsonView, b: JsonView)
    ensures
        alike(a, a),
        alike(a, b) <==> alike(b, a),
        !(a is Float) && !(a is List) && !(a is Object) ==> (alike(a, b) <==> a == b),
        a is List && alike(a, b) ==> b is List && a->List_0.len() == b->List_0.len(),
        a is Object && alike(a, b) ==> b is Object && a->Object_0.dom() == b->Object_0.dom(),
        a matches JsonView::Float(x) ==> (b matches JsonView::Float(y) ==> (x == "0.0"@ && y
            == "-0.0"@ ==> alike(a, b))),
        a matches JsonView::Float(x) ==> (b matches JsonView::Float(y) ==> (x != "0.0"@ && x
            != "-0.0"@ ==> (alike(a, b) <==> x == y))),
{
    crate::json::lemma_alike(a, b, b);
}

/// Quotation marks around a text are taken off, and a text without them stays.
pub proof fn law_quotation_marks_are_taken_off(s: Seq<char>)
    ensures
        s.len() > 0 && s[0] != '"' && s.last() != '"' ==> unquote(s) == s && unquote(
            seq!['"'] + s + seq!['"'],
        ) == s,
        unquote(Seq::empty()).len() == 0,
{
    if s.len() > 0 && s[0] != '"' && s.last() != '"' {
        let q = seq!['"'] + s + seq!['"'];
        let half = s + seq!['"'];
        assert(q.drop_first() =~= half);
        assert(half[0] == s[0]);
        assert(crate::text::unquote_start(half) == half);
        assert(crate::text::unquote_start(q) == half);
        assert(half.drop_last() =~= s);
        assert(crate::text::unquote_end(s) == s);
        assert(crate::text::unquote_end(half) == s);
        assert(crate::text::unquote_start(s) == s);
    }
}

/// What reads as a number is digits, perhaps behind a plus sign, and a number that is too
/// large is none.
pub proof fn law_only_digits_are_numbers(s: Seq<char>, n: nat, i: int)
    ensures
        u32_of(s) is Some ==> s.len() > 0,
        u32_of(s) is Some && 0 <= i < s.len() ==> ('0' <= s[i] <= '9') || (i == 0 && s[0] == '+'),
        n > u32::MAX ==> u32_of(decimal(n)) is None,
        u32_of(seq!['+']) is None,
        u32_of(Seq::empty()) is None,
{
    crate::text::lemma_decimal(n);
    assert(crate::text::is_digit(decimal(n)[0]));
    if u32_of(s) is Some && 0 <= i < s.len() {
        let d = crate::text::unsigned(s);
        if s[0] == '+' {
            if i > 0 {
                assert(d[i - 1] == s[i]);
                assert(crate::text::is_digit(d[i - 1]));
            }
        } else {
            assert(crate::text::is_digit(d[i]));
        }
    }
    assert(seq!['+'].skip(1) =~= Seq::<char>::empty());
}

proof fn lemma_uuid_prefix(n: u128, k: int)
    requires
        0 <= k <= 36,
    ensures
        utf8_len(uuid_text(n).take(k)) == k,
        count(uuid_text(n).take(k), '-') == (if k > 8 {
            1int
        } else {
            0
        }) + (if k > 13 {
            1int
        } else {
            0
        }) + (if k > 18 {
            1int
        } else {
            0
        }) + (if k > 23 {
            1int
        } else {
            0
        }),
    decreases k,
{
    if k > 0 {
        lemma_uuid_prefix(n, k - 1);
        let s = uuid_text(n);
        assert(s.take(k).drop_last() =~= s.take(k - 1));
        let i = k - 1;
        assert(s.take(k).last() == s[i]);
        if !(i == 8 || i == 13 || i == 18 || i == 23) {
            let v: u128 = n >> ((4 * (31 - (i - crate::random::hyphens_before(i)))) as u128);
            assert((v & 0xf) < 16) by (bit_vector);
        }
    }
}

/// Every id that the engine writes looks like one; a text of another length does not, nor
/// one without hyphens.
pub proof fn law_ids_look_like_ids(n: u128, s: Seq<char>)
    ensures
        looks_like_uuid(uuid_text(n)),
        utf8_len(s) != 36 ==> !looks_like_uuid(s),
        !s.contains('-') ==> !looks_like_uuid(s),
{
    lemma_uuid_prefix(n, 36);
    assert(uuid_text(n).take(36) =~= uuid_text(n));
    if !s.contains('-') {
        lemma_no_count(s, '-');
    }
}

proof fn lemma_no_count(s: Seq<char>, c: char)
    requires
        !s.contains(c),
    ensures
        count(s, c) == 0,
    decreases s.len(),
{
    if s.len() > 0 {
        assert(s.contains(s[s.len() - 1]));
        assert forall|x: char| s.drop_last().contains(x) implies s.contains(x) by {
            let j = choose|j: int| 0 <= j < s.drop_last().len() && s.drop_last()[j] == x;
            assert(s[j] == x);
        }
        lemma_no_count(s.drop_last(), c);
    }
}

/// The results that are kept are those in the payload's list of entries, and none where it
/// has no such list.
pub proof fn law_results_come_from_the_entries(payload: JsonView)
    ensures
        member(payload, "entries"@) matches Some(JsonView::List(l)) ==> archived(payload)
            == results_in(l),
        !(member(payload, "entries"@) matches Some(JsonView::List(_))) ==> archived(payload).len()
            == 0,
{
}

/// A module's open settings are the members of its file's own section.
pub proof fn law_open_settings_have_a_section(text: Seq<char>)
    ensures
        public_settings(None).dom() == Set::<Seq<char>>::empty(),
        json_read(text) is Err ==> public_settings(Some(text)).dom() == Set::<Seq<char>>::empty(),
        json_read(text) matches Ok(v) ==> (member(v, "module_specific"@) matches Some(
            JsonView::Object(m),
        ) ==> public_settings(Some(text)) == m),
{
}

/// A manifest that cannot be taken is named by its file.
pub proof fn law_faulty_manifests_are_named(directory: Seq<char>, e: Seq<char>)
    requires
        directory.len() > 0,
        directory.last() != '/',
    ensures
        ({
            let file = directory + "/cockatiel_module_info.json"@;
            &&& loaded(directory, ManifestReadView::Unreadable(e)) == Err::<
                Option<crate::module_manager::DiscoveredModuleView>,
                Seq<char>,
            >("Could not read "@ + (file + (": "@ + e)))
            &&& loaded(directory, ManifestReadView::Invalid(e)) == Err::<
                Option<crate::module_manager::DiscoveredModuleView>,
                Seq<char>,
            >("Invalid module manifest "@ + (file + (": "@ + e)))
        }),
{
    reveal_strlit("/");
    reveal_strlit("cockatiel_module_info.json");
    reveal_strlit("/cockatiel_module_info.json");
    let file = directory + "/cockatiel_module_info.json"@;
    let path = crate::module_manager::manifest_path(directory);
    assert("/cockatiel_module_info.json"@ =~= "/"@ + "cockatiel_module_info.json"@);
    assert(path =~= file);
    assert("Could not read "@ + path + ": "@ + e =~= "Could not read "@ + (file + (": "@ + e)));
    assert("Invalid module manifest "@ + path + ": "@ + e =~= "Invalid module manifest "@ + (file
        + (": "@ + e)));
}

/// Of a module of which only the name is known the list says that its place is unknown, and
/// nothing else.
pub proof fn law_unknown_things_are_listed_as_unknown(
    name: Seq<char>,
    key: Seq<char>,
    m: ListedModuleView,
    expose: bool,
)
    ensures
        ({
            let j = JsonView::Object(blank_entry(name));
            &&& member(j, "name"@) == Some(JsonView::Text(name))
            &&& member(j, "position"@) == Some(JsonView::Text("unknown"@))
            &&& key != "name"@ && key != "position"@ ==> member(j, key) is None || member(j, key)
                == Some(JsonView::Null)
            &&& member(j, "uuid7"@) == Some(JsonView::Null)
            &&& member(j, "priority"@) == Some(JsonView::Null)
            &&& member(j, "connected_at"@) == Some(JsonView::Null)
            &&& member(j, "shutdown_at"@) == Some(JsonView::Null)
            &&& member(j, "autostart"@) == Some(JsonView::Null)
        }),
        ({
            let j = JsonView::Object(found_entry(m, expose));
            &&& member(j, "uuid7"@) == Some(JsonView::Null)
            &&& member(j, "priority"@) == Some(JsonView::Null)
            &&& member(j, "shutdown_at"@) == Some(JsonView::Null)
        }),
{
    crate::laws::settings::lemma_entry_keys();
}

/// A container is taken only from a session that was approved, with a token that was made
/// for this instance and name and has not run out.
pub proof fn law_what_is_taken(
    secret: Seq<char>,
    sessions: Map<Seq<char>, AuthSession>,
    c: ContainerView,
    now_secs: i64,
)
    ensures
        payload_taken(secret, sessions, c, now_secs) ==> {
            &&& sessions.dom().contains(c.module_instance_uuid7)
            &&& sessions[c.module_instance_uuid7].authenticated
            &&& crate::auth::signed_claims(secret, c.auth_token) matches Some(
                (Some(sub), Some(bound), Some(iat), Some(exp)),
            )
            &&& sub == c.module_instance_uuid7
            &&& bound == c.module_name
            &&& exp > now_secs
        },
        token_granted(secret, c, now_secs) && authenticated(sessions, c.module_instance_uuid7)
            ==> payload_taken(secret, sessions, c, now_secs),
{
}

/// Claims grant exactly the instance and the name that they hold, until they run out, and
/// claims that are not all there grant nothing.
pub proof fn law_what_claims_grant(
    sub: Seq<char>,
    bound: Seq<char>,
    iat: i64,
    exp: i64,
    id: Seq<char>,
    name: Seq<char>,
    now: int,
)
    ensures
        claims_grant(Some((Some(sub), Some(bound), Some(iat), Some(exp))), id, name, now) <==> sub
            == id && bound == name && now < exp,
        !claims_grant(None, id, name, now),
        !claims_grant(Some((None, Some(bound), Some(iat), Some(exp))), id, name, now),
        !claims_grant(Some((Some(sub), None, Some(iat), Some(exp))), id, name, now),
        !claims_grant(Some((Some(sub), Some(bound), None, Some(exp))), id, name, now),
        !claims_grant(Some((Some(sub), Some(bound), Some(iat), None)), id, name, now),
{
}

/// A word that starts with a dash is an option: its value stands behind its colon, or is
/// the next word where that is no option, and is `true` where there is neither.
pub proof fn law_options_have_values(
    name: Seq<char>,
    value: Seq<char>,
    definitions: Seq<FlagView>,
)
    requires
        name.len() > 0,
        !name.contains(':'),
    ensures
        read_words(seq![seq!['-'] + name], definitions) == (
            seq![given_flag(definitions, name, "true"@)],
            Seq::<Seq<char>>::empty(),
        ),
        value.len() > 0 && value[0] != '-' ==> read_words(
            seq![seq!['-'] + name, value],
            definitions,
        ) == (seq![given_flag(definitions, name, value)], Seq::<Seq<char>>::empty()),
        read_words(seq![seq!['-'] + (name + (seq![':'] + value))], definitions) == (
            seq![given_flag(definitions, name, value)],
            Seq::<Seq<char>>::empty(),
        ),
{
    let one = seq!['-'] + name;
    let none = Seq::<Seq<char>>::empty();
    let no_flags = Seq::<FlagView>::empty();
    assert(one.skip(1) =~= name);
    assert(seq![one].skip(1) =~= none);
    assert(read_words(none, definitions) == (no_flags, none));
    assert(seq![given_flag(definitions, name, "true"@)] + no_flags =~= seq![
        given_flag(definitions, name, "true"@),
    ]);
    assert(seq![given_flag(definitions, name, value)] + no_flags =~= seq![
        given_flag(definitions, name, value),
    ]);
    assert(seq![one, value].skip(2) =~= none);
    let with = seq!['-'] + (name + (seq![':'] + value));
    assert(with.skip(1) =~= name + seq![':'] + value);
    crate::laws::ground::law_cutting_in_two(name, value, ':');
    assert(seq![with].skip(1) =~= none);
}

/// A new user's praise and misconduct are empty, each kind of them.
pub proof fn law_new_users_have_no_record(
    id: Seq<char>,
    username: Seq<char>,
    platform: Seq<char>,
    platform_id: Seq<char>,
    now_millis: i64,
)
    ensures
        ({
            let j = new_user(id, username, platform, platform_id, now_millis);
            let none = Some(JsonView::List(Seq::<JsonView>::empty()));
            &&& member(j, "version"@) == Some(JsonView::Pos(1))
            &&& member(j, "icon"@) == Some(JsonView::Null)
            &&& member(j, "styling"@) == Some(JsonView::Object(Map::empty()))
            &&& member(j, "commendments"@) matches Some(good)
            &&& member(good, "community"@) == none && member(good, "engagement"@) == none && member(
                good,
                "support"@,
            ) == none && member(good, "rep"@) == none
            &&& member(j, "misconduct"@) matches Some(bad)
            &&& member(bad, "discrimination"@) == none && member(bad, "harassment"@) == none
                && member(bad, "spam"@) == none && member(bad, "integrity"@) == none
        }),
{
    crate::laws::storage::lemma_person_keys();
    reveal_strlit("version");
    reveal_strlit("icon");
    reveal_strlit("styling");
    reveal_strlit("commendments");
    reveal_strlit("misconduct");
    reveal_strlit("community");
    reveal_strlit("engagement");
    reveal_strlit("support");
    reveal_strlit("rep");
    reveal_strlit("discrimination");
    reveal_strlit("harassment");
    reveal_strlit("spam");
    reveal_strlit("integrity");
    assert("version"@.len() == 7 && "icon"@.len() == 4 && "styling"@.len() == 7
        && "commendments"@.len() == 12 && "misconduct"@.len() == 10);
    assert("version"@[0] == 'v' && "styling"@[0] == 's' && "misconduct"@[0] == 'm');
    assert("community"@.len() == 9 && "engagement"@.len() == 10 && "support"@.len() == 7
        && "rep"@.len() == 3 && "discrimination"@.len() == 14 && "harassment"@.len() == 10
        && "spam"@.len() == 4 && "integrity"@.len() == 9);
}

/// A change to one session leaves the others as they are, and makes none.
pub proof fn law_sessions_are_changed_one_by_one(
    sessions: Map<Seq<char>, AuthSession>,
    key: Seq<char>,
    other: Seq<char>,
    change: spec_fn(AuthSession) -> AuthSession,
    socket: u64,
    timestamp: i64,
)
    ensures
        changed(sessions, key, change).dom() == sessions.dom(),
        sessions.dom().contains(key) ==> changed(sessions, key, change)[key] == change(
            sessions[key],
        ),
        other != key && sessions.dom().contains(other) ==> {
            &&& changed(sessions, key, change)[other] == sessions[other]
            &&& released(sessions, key, socket).dom().contains(other)
            &&& released(sessions, key, socket)[other] == sessions[other]
            &&& shut_down(sessions, key, timestamp, socket)[other] == sessions[other]
        },
        sessions.dom().contains(key) && sessions[key].socket_token == socket ==> {
            &&& !released(sessions, key, socket).dom().contains(key)
            &&& shut_down(sessions, key, timestamp, socket)[key].shutdown_at == Some(timestamp)
        },
        sessions.dom().contains(key) && sessions[key].socket_token != socket ==> {
            &&& released(sessions, key, socket) == sessions
            &&& shut_down(sessions, key, timestamp, socket) == sessions
        },
        shut_down(sessions, key, timestamp, socket).dom() == sessions.dom(),
{
    assert(changed(sessions, key, change).dom() =~= sessions.dom());
    assert(shut_down(sessions, key, timestamp, socket).dom() =~= sessions.dom());
}

/// A probe is noted with when it was sent and when its answer is due, and one that goes
/// unanswered with that; whether the peer is local is noted as it is. Nothing else about the
/// session changes.
pub proof fn law_probes_are_noted(
    store: &mut AuthStore,
    id: &str,
    now_ms: i64,
    deadline_ms: i64,
    before: AuthSession,
)
    requires
        old(store).sessions().dom().contains(id@),
        before == old(store).sessions()[id@],
        call_ensures(AuthStore::mark_probed, (store, id, now_ms, deadline_ms), ()),
    ensures
        final(store).sessions()[id@] == (AuthSession {
            last_probe_at_ms: now_ms,
            probe_deadline_ms: deadline_ms,
            ..before
        }),
{
}

/// How a module asks to be let in: under its name and id, with the PIN and the position that
/// it is for, and without a token.
pub proof fn law_how_modules_ask(
    name: Seq<char>,
    position: ProcessPosition,
    id: Seq<char>,
    pin: i32,
)
    ensures
        ({
            let c = request_of(name, position, id, pin);
            &&& c.version == 1
            &&& c.auth_token.len() == 0
            &&& c.module_name == name
            &&& c.module_instance_uuid7 == id
            &&& c.payload matches Some(PayloadView::ConnectionRequest(q))
            &&& q.pin == pin
            &&& q.process_position == position
            &&& q.priority == 1
        }),
{
}

proof fn lemma_nothing_noted(pieces: Seq<Seq<char>>)
    requires
        forall|i: int|
            0 <= i < pieces.len() ==> !"audio_type="@.is_prefix_of(#[trigger] pieces[i]),
    ensures
        crate::database::noted_type(pieces) is None,
    decreases pieces.len(),
{
    if pieces.len() > 0 {
        assert(!"audio_type="@.is_prefix_of(pieces[0]));
        assert forall|i: int| 0 <= i < pieces.drop_first().len() implies !"audio_type="@.is_prefix_of(
            #[trigger] pieces.drop_first()[i],
        ) by {
            assert(pieces.drop_first()[i] == pieces[i + 1]);
        }
        lemma_nothing_noted(pieces.drop_first());
    }
}

/// Audio of which no type is noted is MPEG audio; a type that is noted stands behind the
/// other flags.
pub proof fn law_types_of_audio(flags: Seq<char>, audio_type: Seq<char>)
    ensures
        (forall|i: int|
            0 <= i < split_on(flags, ',').len() ==> !"audio_type="@.is_prefix_of(
                #[trigger] split_on(flags, ',')[i],
            )) ==> {
            &&& audio_type_of(flags) == "audio/mpeg"@
            &&& flags.len() > 0 ==> with_audio_type(flags, audio_type) == flags + (","@ + (
            "audio_type="@ + audio_type))
        },
{
    if forall|i: int|
        0 <= i < split_on(flags, ',').len() ==> !"audio_type="@.is_prefix_of(
            #[trigger] split_on(flags, ',')[i],
        ) {
        lemma_nothing_noted(split_on(flags, ','));
        let marker = "audio_type="@ + audio_type;
        assert("audio_type="@.is_prefix_of(marker));
        if split_on(flags, ',').contains(marker) {
            let i = choose|i: int|
                0 <= i < split_on(flags, ',').len() && split_on(flags, ',')[i] == marker;
            assert("audio_type="@.is_prefix_of(split_on(flags, ',')[i]));
        }
        assert(flags + ","@ + marker =~= flags + (","@ + marker));
    }
}

/// A fault of a search says what it is and where.
pub proof fn law_search_faults_say_where(
    s: Search,
    path: Seq<char>,
    e: Seq<char>,
    manifest: ManifestReadView,
)
    ensures
        with_find(s, FoundView::NotADirectory { path }).1.last()
            == "Module search path is not a directory: "@ + path,
        with_find(s, FoundView::Unreadable { path, error: e }).1.last()
            == "Could not read module directory "@ + (path + (": "@ + e)),
        with_find(s, FoundView::BadEntry { error: e }).1.last()
            == "Could not read module directory entry: "@ + e,
        loaded(path, manifest) matches Ok(Some(m)) ==> (crate::strmap::has_key(
            s.0,
            m.manifest.name,
        ) ==> with_find(s, FoundView::Candidate { path, manifest }).1.last()
            == "Duplicate module manifest for '"@ + (m.manifest.name + ("': "@ + path))),
{
    assert("Could not read module directory "@ + path + ": "@ + e
        =~= "Could not read module directory "@ + (path + (": "@ + e)));
    if let Ok(Some(m)) = loaded(path, manifest) {
        assert("Duplicate module manifest for '"@ + m.manifest.name + "': "@ + path
            =~= "Duplicate module manifest for '"@ + (m.manifest.name + ("': "@ + path)));
    }
}

/// Commands are listed in the order in which they were registered; of two of one name the
/// first stands, and the catch-alls stand in the order of their registration too.
pub proof fn law_commands_are_listed_in_order(
    commands: Seq<CommandView>,
    c: CommandView,
    registrations: Seq<(Seq<char>, ModuleCommandRegView)>,
    r: (Seq<char>, ModuleCommandRegView),
)
    ensures
        (exists|i: int|
            0 <= i < commands.len() && key_of(#[trigger] commands[i]) == key_of(c))
            ==> distinct_commands(commands.push(c)) == distinct_commands(commands),
        (forall|i: int| 0 <= i < commands.len() ==> key_of(#[trigger] commands[i]) != key_of(c))
            ==> distinct_commands(commands.push(c)) == distinct_commands(commands).push(c),
        listed_commands(registrations.push(r)) == listed_commands(registrations) + r.1.commands,
        r.1.catch_all ==> catch_all_names(registrations.push(r)) == catch_all_names(
            registrations,
        ).push(r.0),
        !r.1.catch_all ==> catch_all_names(registrations.push(r)) == catch_all_names(registrations),
        listed_commands(Seq::empty()).len() == 0,
        catch_all_names(Seq::empty()).len() == 0,
        distinct_commands(Seq::empty()).len() == 0,
{
    assert(commands.push(c).drop_last() =~= commands);
    assert(registrations.push(r).drop_last() =~= registrations);
    crate::command_registry::law_all_commands_once(commands, key_of(c));
}

/// A module that comes after all others by its priority stands behind them, also behind
/// those of the same priority that were there before.
pub proof fn law_equal_priorities_keep_their_order(
    list: Seq<ModuleEntryView>,
    e: ModuleEntryView,
)
    requires
        forall|i: int| 0 <= i < list.len() ==> (#[trigger] list[i]).priority <= e.priority,
    ensures
        by_priority(list.push(e)) == by_priority(list).push(e),
{
    broadcast use vstd::seq_lib::group_to_multiset_ensures;

    assert(list.push(e).drop_last() =~= list);
    let sorted = by_priority(list);
    crate::config::law_stage_is_in_order(list);
    if sorted.len() > 0 {
        let last = sorted.last();
        assert(sorted.contains(last));
        assert(sorted.to_multiset().count(last) > 0);
        assert(list.to_multiset().count(last) > 0);
        assert(list.contains(last));
    }
}

/// What is set from a file is what it defines, each name once and as it is first defined,
/// but nothing that is set already.
pub proof fn law_what_is_set_stays(
    entries: Seq<(Seq<char>, Seq<char>)>,
    present: Seq<Seq<char>>,
    key: Seq<char>,
    value: Seq<char>,
)
    ensures
        defines(to_set(entries, present), key) <==> !present.contains(key) && exists|i: int|
            0 <= i < entries.len() && (#[trigger] entries[i]).0 == key,
        to_set(Seq::empty(), present).len() == 0,
        present.contains(key) ==> to_set(entries.push((key, value)), present) == to_set(
            entries,
            present,
        ),
        !present.contains(key) && (forall|i: int|
            0 <= i < entries.len() ==> (#[trigger] entries[i]).0 != key) ==> to_set(
            entries.push((key, value)),
            present,
        ) == to_set(entries, present).push((key, value)),
    decreases entries.len(),
{
    assert(entries.push((key, value)).drop_last() =~= entries);
    if entries.len() > 0 {
        let front = entries.drop_last();
        let e = entries.last();
        law_what_is_set_stays(front, present, key, value);
        let x = to_set(front, present);
        let all = to_set(entries, present);
        if defines(x, key) {
            let i = choose|i: int| 0 <= i < x.len() && (#[trigger] x[i]).0 == key;
            assert(all[i].0 == key);
            let j = choose|j: int| 0 <= j < front.len() && (#[trigger] front[j]).0 == key;
            assert(entries[j].0 == key);
        }
        if defines(all, key) {
            let i = choose|i: int| 0 <= i < all.len() && (#[trigger] all[i]).0 == key;
            if i < x.len() {
                assert(x[i].0 == key);
            } else {
                assert(entries[entries.len() - 1].0 == key);
            }
        }
        if !present.contains(key) && exists|i: int|
            0 <= i < entries.len() && (#[trigger] entries[i]).0 == key {
            let i = choose|i: int| 0 <= i < entries.len() && (#[trigger] entries[i]).0 == key;
            if i < front.len() {
                assert(front[i].0 == key);
            } else if !defines(x, key) {
                assert(all[x.len() as int].0 == key);
            }
        }
    }
}

/// Of two definitions of one name the later counts, and others stay.
pub proof fn law_later_definitions_count(
    entries: Seq<(Seq<char>, Seq<char>)>,
    key: Seq<char>,
    value: Seq<char>,
    other: Seq<char>,
)
    ensures
        ({
            let after = defined(entries.push((key, value)));
            &&& after.dom().contains(key) && after[key] == value
            &&& other != key ==> after.dom().contains(other) == defined(entries).dom().contains(other)
            &&& other != key && defined(entries).dom().contains(other) ==> after[other] == defined(
                entries,
            )[other]
        }),
        defined(Seq::empty()).dom() == Set::<Seq<char>>::empty(),
{
    assert(entries.push((key, value)).drop_last() =~= entries);
    assert(defined(Seq::empty()) =~= Map::<Seq<char>, Seq<char>>::empty());
    assert(defined(Seq::empty()).dom() =~= Set::<Seq<char>>::empty());
}

} // verus!
