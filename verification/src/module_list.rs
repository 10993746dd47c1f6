//! The list of modules: what was found on disk, what was approved before and what is
//! connected, as one list.
use crate::auth::AuthSession;
use crate::credentials::{complete, credential_values, credential_values_map, is_config_complete};
use crate::env_file::text_values;
use crate::json::{
    int_json, items, json_int, json_opt_int, json_str, json_text, list, members, no_members,
    object, opt_int_json, put, write_json, Json, JsonView,
};
use crate::module_manager::{
    CredentialField, CredentialFieldView, DiscoveredModule, DiscoveredModuleView,
};
use crate::module_registry::{RegisteredModule, RegisteredModuleView};
use crate::proto::{clone_opt, opt_view, views};
use crate::strmap::{lemma_position_at, StrMap};
use crate::text::{before, in_order, lemma_before_total, place_of, texts};
use vstd::prelude::*;

verus! {

/// A module found on disk, with what its files hold.
#[derive(Debug)]
pub struct ListedModule {
    pub module: DiscoveredModule,
    /// The text of its `.env`.
    pub env: Option<String>,
    /// The text of its settings.
    pub config: Option<String>,
}

/// What a [`ListedModule`] says.
#[verifier::ext_equal]
pub struct ListedModuleView {
    pub module: DiscoveredModuleView,
    pub env: Option<Seq<char>>,
    pub config: Option<Seq<char>>,
}

impl View for ListedModule {
    type V = ListedModuleView;

    open spec fn view(&self) -> ListedModuleView {
        ListedModuleView {
            module: self.module@,
            env: opt_view(self.env),
            config: opt_view(self.config),
        }
    }
}

impl Clone for ListedModule {
    fn clone(&self) -> (r: Self)
        ensures
            r@ == self@,
    {
        ListedModule {
            module: self.module.clone(),
            env: clone_opt(&self.env),
            config: clone_opt(&self.config),
        }
    }
}

/// A credential that a module asks for, as a value.
pub open spec fn field_json(f: CredentialFieldView) -> JsonView {
    JsonView::Object(
        Map::<Seq<char>, JsonView>::empty()
            .insert("key"@, JsonView::Text(f.key))
            .insert("label"@, JsonView::Text(f.label))
            .insert("sensitive"@, JsonView::Bool(f.sensitive))
            .insert("list"@, JsonView::Bool(f.list))
            .insert("optional"@, JsonView::Bool(f.optional))
            .insert("env"@, JsonView::Text(f.env)),
    )
}

fn field_value(f: &CredentialField) -> (r: Json)
    ensures
        r@ == field_json(f@),
{
    let mut m = no_members();
    put(&mut m, "key", json_str(f.key.as_str()));
    put(&mut m, "label", json_str(f.label.as_str()));
    put(&mut m, "sensitive", Json::Bool(f.sensitive));
    put(&mut m, "list", Json::Bool(f.list));
    put(&mut m, "optional", Json::Bool(f.optional));
    put(&mut m, "env", json_str(f.env.as_str()));
    object(m)
}

fn field_list(fields: &Vec<CredentialField>) -> (r: Json)
    ensures
        r@ == JsonView::List(
            views(fields@).map_values(|f: CredentialFieldView| field_json(f)),
        ),
{
    let mut out: Vec<Json> = Vec::new();
    for i in 0..fields.len()
        invariant
            out@.len() == i,
            forall|j: int| 0 <= j < i ==> (#[trigger] out@[j])@ == field_json(fields@[j]@),
    {
        out.push(field_value(&fields[i]));
    }
    assert(items(out@) =~= views(fields@).map_values(|f: CredentialFieldView| field_json(f)));
    list(out)
}

/// Texts by their keys, as values.
pub open spec fn json_texts_of(m: Map<Seq<char>, Seq<char>>) -> Map<Seq<char>, JsonView> {
    m.map_values(|t: Seq<char>| JsonView::Text(t))
}

fn text_members(values: &StrMap<String>) -> (r: Vec<(String, Json)>)
    requires
        values.wf(),
    ensures
        members(r@) == json_texts_of(text_values(values@)),
{
    let ghost pairs = values.pairs();
    let mut m = no_members();
    let mut i: usize = 0;
    while i < values.len()
        invariant
            i <= pairs.len(),
            pairs == values.pairs(),
            values.wf(),
            forall|k: Seq<char>| #[trigger]
                members(m@).dom().contains(k) <==> exists|j: int|
                    0 <= j < i && (#[trigger] pairs[j]).0 == k,
            forall|j: int|
                0 <= j < i ==> members(m@)[(#[trigger] pairs[j]).0] == JsonView::Text(
                    pairs[j].1@,
                ),
        decreases pairs.len() - i,
    {
        let ghost old_m = members(m@);
        let v = json_str(values.value_at(i).as_str());
        put(&mut m, values.key_at(i).as_str(), v);
        proof {
            let k = pairs[i as int].0;
            assert(members(m@) == old_m.insert(k, JsonView::Text(pairs[i as int].1@)));
            assert forall|j: int| 0 <= j < i + 1 implies members(m@)[(#[trigger] pairs[j]).0]
                == JsonView::Text(pairs[j].1@) by {
                if j < i {
                    assert(pairs[j].0 != k);
                }
            }
            assert forall|q: Seq<char>| #[trigger]
                members(m@).dom().contains(q) implies exists|j: int|
                0 <= j < i + 1 && (#[trigger] pairs[j]).0 == q by {
                if q == k {
                    assert(pairs[i as int].0 == q);
                } else {
                    assert(old_m.dom().contains(q));
                    let j = choose|j: int| 0 <= j < i && (#[trigger] pairs[j]).0 == q;
                    assert(pairs[j].0 == q);
                }
            }
        }
        i = i + 1;
    }
    proof {
        let want = json_texts_of(text_values(values@));
        assert forall|k: Seq<char>| #[trigger]
            members(m@).dom().contains(k) <==> want.dom().contains(k) by {
            if values@.dom().contains(k) {
                crate::strmap::lemma_position(pairs, k);
                let p = crate::strmap::position(pairs, k) as int;
                assert(pairs[p].0 == k);
            }
            if members(m@).dom().contains(k) {
                let j = choose|j: int| 0 <= j < i && (#[trigger] pairs[j]).0 == k;
                lemma_position_at(pairs, j);
            }
        }
        assert forall|k: Seq<char>| #[trigger] members(m@).dom().contains(k) implies members(
            m@,
        )[k] == want[k] by {
            let j = choose|j: int| 0 <= j < i && (#[trigger] pairs[j]).0 == k;
            lemma_position_at(pairs, j);
            assert(values@[k] == pairs[j].1);
        }
        assert(members(m@) =~= want);
    }
    m
}

/// What the list says of a module that was found on disk. The values of its credentials
/// are there only for who may see them.
pub open spec fn found_entry(m: ListedModuleView, expose: bool) -> Map<Seq<char>, JsonView> {
    let values = credential_values(m.module.manifest.credentials, m.env, m.config);
    Map::<Seq<char>, JsonView>::empty()
        .insert("name"@, JsonView::Text(m.module.manifest.name))
        .insert("description"@, JsonView::Text(m.module.manifest.description))
        .insert("uuid7"@, JsonView::Null)
        .insert("position"@, JsonView::Text("unknown"@))
        .insert("priority"@, JsonView::Null)
        .insert("autostart"@, JsonView::Bool(m.module.manifest.autostart))
        .insert("connected_at"@, JsonView::Null)
        .insert("shutdown_at"@, JsonView::Null)
        .insert("credentials"@, JsonView::List(m.module.manifest.credentials.map_values(|f: CredentialFieldView| field_json(f))))
        .insert("directory"@, JsonView::Text(m.module.directory))
        .insert("credential_values"@, JsonView::Object(if expose { json_texts_of(values) } else { Map::empty() }))
        .insert("config_complete"@, JsonView::Bool(complete(m.module.manifest.credentials, values)))
}

fn found_members(m: &ListedModule, expose: bool) -> (r: Vec<(String, Json)>)
    ensures
        members(r@) == found_entry(m@, expose),
{
    let fields = &m.module.manifest.credentials;
    let env: Option<&str> = match &m.env {
        Some(t) => Some(t.as_str()),
        None => None,
    };
    let config: Option<&str> = match &m.config {
        Some(t) => Some(t.as_str()),
        None => None,
    };
    let values = credential_values_map(fields, env, config);
    let done = is_config_complete(fields, &values);
    let shown = if expose {
        text_members(&values)
    } else {
        no_members()
    };
    let mut r = no_members();
    put(&mut r, "name", json_str(m.module.manifest.name.as_str()));
    put(&mut r, "description", json_str(m.module.manifest.description.as_str()));
    put(&mut r, "uuid7", Json::Null);
    put(&mut r, "position", json_str("unknown"));
    put(&mut r, "priority", Json::Null);
    put(&mut r, "autostart", Json::Bool(m.module.manifest.autostart));
    put(&mut r, "connected_at", Json::Null);
    put(&mut r, "shutdown_at", Json::Null);
    put(&mut r, "credentials", field_list(fields));
    put(&mut r, "directory", json_str(m.module.directory.as_str()));
    put(&mut r, "credential_values", object(shown));
    put(&mut r, "config_complete", Json::Bool(done));
    r
}

/// What the list says of a module of which nothing is known but its name.
pub open spec fn blank_entry(name: Seq<char>) -> Map<Seq<char>, JsonView> {
    Map::<Seq<char>, JsonView>::empty()
        .insert("name"@, JsonView::Text(name))
        .insert("uuid7"@, JsonView::Null)
        .insert("position"@, JsonView::Text("unknown"@))
        .insert("priority"@, JsonView::Null)
        .insert("autostart"@, JsonView::Null)
        .insert("connected_at"@, JsonView::Null)
        .insert("shutdown_at"@, JsonView::Null)
}

/// The entries of the list, by name.
pub type Entries = Map<Seq<char>, Map<Seq<char>, JsonView>>;

/// The entry of a module, or a blank one.
pub open spec fn entry_of(entries: Entries, name: Seq<char>) -> Map<Seq<char>, JsonView> {
    if entries.dom().contains(name) {
        entries[name]
    } else {
        blank_entry(name)
    }
}

/// The entries of the modules found on disk; of two with one name the later counts.
pub open spec fn entries_found(found: Seq<ListedModuleView>, expose: bool) -> Entries
    decreases found.len(),
{
    if found.len() == 0 {
        Map::empty()
    } else {
        entries_found(found.drop_last(), expose).insert(
            found.last().module.manifest.name,
            found_entry(found.last(), expose),
        )
    }
}

/// An entry with what is kept of a module that was approved before.
pub open spec fn with_kept(
    entry: Map<Seq<char>, JsonView>,
    m: RegisteredModuleView,
) -> Map<Seq<char>, JsonView> {
    entry.insert("uuid7"@, JsonView::Text(m.instance_uuid7)).insert(
        "position"@,
        JsonView::Text(m.position),
    ).insert("priority"@, int_json(m.priority as i64))
}

/// The entries with the modules that were approved before.
pub open spec fn entries_kept(entries: Entries, kept: Seq<RegisteredModuleView>) -> Entries
    decreases kept.len(),
{
    if kept.len() == 0 {
        entries
    } else {
        let front = entries_kept(entries, kept.drop_last());
        let m = kept.last();
        front.insert(m.name, with_kept(entry_of(front, m.name), m))
    }
}

/// An entry with the state of a connected module.
pub open spec fn with_session(
    entry: Map<Seq<char>, JsonView>,
    s: AuthSession,
) -> Map<Seq<char>, JsonView> {
    entry.insert("uuid7"@, JsonView::Text(s.instance_uuid7@)).insert(
        "position"@,
        JsonView::Text(s.position@),
    ).insert("priority"@, int_json(s.priority as i64)).insert(
        "connected_at"@,
        opt_int_json(s.connected_at),
    ).insert("shutdown_at"@, opt_int_json(s.shutdown_at)).insert(
        "alive"@,
        JsonView::Bool(!s.unresponsive),
    ).insert("last_seen"@, int_json(s.last_activity_ms))
}

/// The entries with the modules that are connected.
pub open spec fn entries_connected(entries: Entries, sessions: Seq<AuthSession>) -> Entries
    decreases sessions.len(),
{
    if sessions.len() == 0 {
        entries
    } else {
        let front = entries_connected(entries, sessions.drop_last());
        let s = sessions.last();
        front.insert(s.module_name@, with_session(entry_of(front, s.module_name@), s))
    }
}

/// The entries of the list.
pub open spec fn module_entries(
    found: Seq<ListedModuleView>,
    kept: Seq<RegisteredModuleView>,
    sessions: Seq<AuthSession>,
    expose: bool,
) -> Entries {
    entries_connected(entries_kept(entries_found(found, expose), kept), sessions)
}

/// What a map of members says.
pub open spec fn entries_in(m: Map<Seq<char>, Vec<(String, Json)>>) -> Entries {
    m.map_values(|v: Vec<(String, Json)>| members(v@))
}

fn blank_members(name: &str) -> (r: Vec<(String, Json)>)
    ensures
        members(r@) == blank_entry(name@),
{
    let mut r = no_members();
    put(&mut r, "name", json_str(name));
    put(&mut r, "uuid7", Json::Null);
    put(&mut r, "position", json_str("unknown"));
    put(&mut r, "priority", Json::Null);
    put(&mut r, "autostart", Json::Null);
    put(&mut r, "connected_at", Json::Null);
    put(&mut r, "shutdown_at", Json::Null);
    r
}

/// Takes an entry out to change it, or makes a blank one.
fn take_entry(entries: &mut StrMap<Vec<(String, Json)>>, name: &str) -> (r: Vec<(String, Json)>)
    requires
        old(entries).wf(),
    ensures
        final(entries).wf(),
        final(entries)@ == old(entries)@.remove(name@),
        members(r@) == entry_of(entries_in(old(entries)@), name@),
{
    match entries.remove(name) {
        Some(v) => v,
        None => blank_members(name),
    }
}

/// Puts an entry in or back.
fn store_entry(
    entries: &mut StrMap<Vec<(String, Json)>>,
    name: &str,
    entry: Vec<(String, Json)>,
)
    requires
        old(entries).wf(),
    ensures
        final(entries).wf(),
        entries_in(final(entries)@) == entries_in(old(entries)@).insert(name@, members(entry@)),
{
    entries.insert(name.to_owned(), entry);
    assert(entries_in(entries@) =~= entries_in(old(entries)@).insert(name@, members(entry@)));
}

fn gather(
    found: &Vec<ListedModule>,
    kept: &Vec<RegisteredModule>,
    sessions: &Vec<AuthSession>,
    expose: bool,
) -> (r: StrMap<Vec<(String, Json)>>)
    ensures
        r.wf(),
        entries_in(r@) == module_entries(views(found@), views(kept@), sessions@, expose),
{
    let mut entries: StrMap<Vec<(String, Json)>> = StrMap::new();
    let ghost all_found = views(found@);
    let ghost all_kept = views(kept@);
    let ghost all_sessions = sessions@;
    let mut i: usize = 0;
    assert(entries_in(entries@) =~= entries_found(all_found.take(0), expose));
    while i < found.len()
        invariant
            i <= found@.len(),
            all_found == views(found@),
            entries.wf(),
            entries_in(entries@) == entries_found(all_found.take(i as int), expose),
        decreases found@.len() - i,
    {
        assert(all_found.take(i + 1).drop_last() =~= all_found.take(i as int));
        let m = found_members(&found[i], expose);
        store_entry(&mut entries, found[i].module.manifest.name.as_str(), m);
        i = i + 1;
    }
    assert(all_found.take(i as int) =~= all_found);
    let ghost step1 = entries_in(entries@);
    i = 0;
    assert(all_kept.take(0) =~= Seq::<RegisteredModuleView>::empty());
    while i < kept.len()
        invariant
            i <= kept@.len(),
            all_kept == views(kept@),
            entries.wf(),
            entries_in(entries@) == entries_kept(step1, all_kept.take(i as int)),
        decreases kept@.len() - i,
    {
        assert(all_kept.take(i + 1).drop_last() =~= all_kept.take(i as int));
        let name = kept[i].name.as_str();
        let ghost front = entries_in(entries@);
        let mut m = take_entry(&mut entries, name);
        put(&mut m, "uuid7", json_str(kept[i].instance_uuid7.as_str()));
        put(&mut m, "position", json_str(kept[i].position.as_str()));
        put(&mut m, "priority", json_int(kept[i].priority as i64));
        let ghost removed = entries_in(entries@);
        assert(removed =~= front.remove(name@));
        store_entry(&mut entries, name, m);
        assert(removed.insert(name@, members(m@)) =~= front.insert(name@, members(m@)));
        i = i + 1;
    }
    assert(all_kept.take(i as int) =~= all_kept);
    let ghost step2 = entries_in(entries@);
    i = 0;
    assert(all_sessions.take(0) =~= Seq::<AuthSession>::empty());
    while i < sessions.len()
        invariant
            i <= sessions@.len(),
            all_sessions == sessions@,
            entries.wf(),
            entries_in(entries@) == entries_connected(step2, all_sessions.take(i as int)),
        decreases sessions@.len() - i,
    {
        assert(all_sessions.take(i + 1).drop_last() =~= all_sessions.take(i as int));
        let s = &sessions[i];
        let name = s.module_name.as_str();
        let ghost front = entries_in(entries@);
        let mut m = take_entry(&mut entries, name);
        put(&mut m, "uuid7", json_str(s.instance_uuid7.as_str()));
        put(&mut m, "position", json_str(s.position.as_str()));
        put(&mut m, "priority", json_int(s.priority as i64));
        put(&mut m, "connected_at", json_opt_int(s.connected_at));
        put(&mut m, "shutdown_at", json_opt_int(s.shutdown_at));
        put(&mut m, "alive", Json::Bool(!s.unresponsive));
        put(&mut m, "last_seen", json_int(s.last_activity_ms));
        let ghost removed = entries_in(entries@);
        assert(removed =~= front.remove(name@));
        store_entry(&mut entries, name, m);
        assert(removed.insert(name@, members(m@)) =~= front.insert(name@, members(m@)));
        i = i + 1;
    }
    assert(all_sessions.take(i as int) =~= all_sessions);
    entries
}

/// The entries of some names, as a list of objects.
pub open spec fn listed_entries(entries: Entries, names: Seq<Seq<char>>) -> JsonView {
    JsonView::List(names.map_values(|k: Seq<char>| JsonView::Object(entries[k])))
}

/// Whether names are those of all entries, in order.
pub open spec fn all_in_order(entries: Entries, names: Seq<Seq<char>>) -> bool {
    &&& in_order(names)
    &&& forall|k: Seq<char>| #[trigger] entries.dom().contains(k) <==> names.contains(k)
}

/// Whether a text is the list of all entries, in order of their names.
pub open spec fn lists_all(entries: Entries, text: Seq<char>) -> bool {
    exists|names: Seq<Seq<char>>| #[trigger]
        all_in_order(entries, names) && text == json_text(listed_entries(entries, names))
}

/// The names of the entries in order.
fn names_in_order(entries: &StrMap<Vec<(String, Json)>>) -> (r: Vec<String>)
    requires
        entries.wf(),
    ensures
        all_in_order(entries_in(entries@), texts(r@)),
{
    let ghost pairs = entries.pairs();
    let mut out: Vec<String> = Vec::new();
    let mut i: usize = 0;
    while i < entries.len()
        invariant
            i <= pairs.len(),
            pairs == entries.pairs(),
            entries.wf(),
            in_order(texts(out@)),
            forall|k: Seq<char>| #[trigger]
                texts(out@).contains(k) <==> exists|j: int|
                    0 <= j < i && (#[trigger] pairs[j]).0 == k,
        decreases pairs.len() - i,
    {
        let name = entries.key_at(i).clone();
        let ghost all = texts(out@);
        proof {
            if all.contains(name@) {
                let j = choose|j: int| 0 <= j < i && (#[trigger] pairs[j]).0 == name@;
                assert(pairs[j].0 == pairs[i as int].0);
            }
        }
        let at = place_of(&out, name.as_str());
        let ghost held = name@;
        out.insert(at, name);
        proof {
            let now = texts(out@);
            assert(now =~= all.insert(at as int, held));
            assert forall|k: Seq<char>| #[trigger] now.contains(k) <==> exists|j: int|
                0 <= j < i + 1 && (#[trigger] pairs[j]).0 == k by {
                if now.contains(k) {
                    let q = choose|q: int| 0 <= q < now.len() && now[q] == k;
                    if q < at {
                        assert(all[q] == k);
                        assert(all.contains(k));
                        let j = choose|j: int| 0 <= j < i && (#[trigger] pairs[j]).0 == k;
                        assert(pairs[j].0 == k);
                    } else if q == at {
                        assert(pairs[i as int].0 == k);
                    } else {
                        assert(all[q - 1] == k);
                        assert(all.contains(k));
                        let j = choose|j: int| 0 <= j < i && (#[trigger] pairs[j]).0 == k;
                        assert(pairs[j].0 == k);
                    }
                }
                if exists|j: int| 0 <= j < i + 1 && (#[trigger] pairs[j]).0 == k {
                    let j = choose|j: int| 0 <= j < i + 1 && (#[trigger] pairs[j]).0 == k;
                    if j < i {
                        assert(all.contains(k));
                        let q = choose|q: int| 0 <= q < all.len() && all[q] == k;
                        if q < at {
                            assert(now[q] == k);
                        } else {
                            assert(now[q + 1] == k);
                        }
                    } else {
                        assert(now[at as int] == k);
                    }
                }
            }
        }
        i = i + 1;
    }
    proof {
        let es = entries_in(entries@);
        assert forall|k: Seq<char>| #[trigger] es.dom().contains(k) <==> texts(out@).contains(
            k,
        ) by {
            if es.dom().contains(k) {
                crate::strmap::lemma_position(pairs, k);
                let p = crate::strmap::position(pairs, k) as int;
                assert(pairs[p].0 == k);
            }
            if texts(out@).contains(k) {
                let j = choose|j: int| 0 <= j < i && (#[trigger] pairs[j]).0 == k;
                lemma_position_at(pairs, j);
            }
        }
    }
    out
}

/// The list of modules as text: one entry a module, in order of their names.
pub fn module_list(
    found: &Vec<ListedModule>,
    kept: &Vec<RegisteredModule>,
    sessions: &Vec<AuthSession>,
    expose: bool,
) -> (r: String)
    ensures
        lists_all(module_entries(views(found@), views(kept@), sessions@, expose), r@),
{
    let mut gathered = gather(found, kept, sessions, expose);
    let ghost entries = entries_in(gathered@);
    let names = names_in_order(&gathered);
    let ghost all = texts(names@);
    let mut out: Vec<Json> = Vec::new();
    let mut i: usize = 0;
    assert forall|j: int| 0 <= j < all.len() implies gathered@.dom().contains(#[trigger] all[j])
        && members(gathered@[all[j]]@) == entries[all[j]] by {
        assert(all.contains(all[j]));
        assert(entries.dom().contains(all[j]));
    }
    while i < names.len()
        invariant
            i <= names@.len(),
            all == texts(names@),
            all_in_order(entries, all),
            gathered.wf(),
            out@.len() == i,
            forall|j: int| 0 <= j < i ==> (#[trigger] out@[j])@ == JsonView::Object(entries[all[j]]),
            forall|j: int|
                i <= j < all.len() ==> gathered@.dom().contains(#[trigger] all[j]) && members(
                    gathered@[all[j]]@,
                ) == entries[all[j]],
        decreases names@.len() - i,
    {
        assert(all[i as int] == names@[i as int]@);
        match gathered.remove(names[i].as_str()) {
            Some(m) => {
                out.push(object(m));
            },
            None => {
                assert(false);
            },
        }
        proof {
            assert forall|j: int| i + 1 <= j < all.len() implies gathered@.dom().contains(
                #[trigger] all[j],
            ) && members(gathered@[all[j]]@) == entries[all[j]] by {
                assert(before(all[i as int], all[j]));
                lemma_before_total(all[i as int], all[j]);
            }
        }
        i = i + 1;
    }
    assert(items(out@) =~= all.map_values(|k: Seq<char>| JsonView::Object(entries[k])));
    assert(all_in_order(entries, all));
    write_json(&list(out))
}

proof fn lemma_found_hidden(found: Seq<ListedModuleView>, name: Seq<char>)
    requires
        entries_found(found, false).dom().contains(name),
    ensures
        entries_found(found, false)[name]["credential_values"@] == JsonView::Object(Map::empty()),
    decreases found.len(),
{
    if found.len() > 0 {
        let last = found.last();
        if last.module.manifest.name == name {
            lemma_literals();
        } else {
            lemma_found_hidden(found.drop_last(), name);
        }
    }
}

proof fn lemma_literals()
    ensures
        "credential_values"@ != "config_complete"@,
        "credential_values"@ != "uuid7"@,
        "credential_values"@ != "position"@,
        "credential_values"@ != "priority"@,
        "credential_values"@ != "connected_at"@,
        "credential_values"@ != "shutdown_at"@,
        "credential_values"@ != "alive"@,
        "credential_values"@ != "last_seen"@,
        "credential_values"@ != "name"@,
        "credential_values"@ != "autostart"@,
{
    reveal_strlit("credential_values");
    reveal_strlit("config_complete");
    reveal_strlit("uuid7");
    reveal_strlit("position");
    reveal_strlit("priority");
    reveal_strlit("connected_at");
    reveal_strlit("shutdown_at");
    reveal_strlit("alive");
    reveal_strlit("last_seen");
    reveal_strlit("name");
    reveal_strlit("autostart");
    assert("credential_values"@.len() == 17);
    assert("config_complete"@.len() == 15);
    assert("connected_at"@.len() == 12);
    assert("shutdown_at"@.len() == 11);
    assert("last_seen"@.len() == 9);
    assert("autostart"@.len() == 9);
}

/// An entry says nothing of the values of credentials.
pub open spec fn hides_values(entry: Map<Seq<char>, JsonView>) -> bool {
    entry.dom().contains("credential_values"@) ==> entry["credential_values"@] == JsonView::Object(
        Map::empty(),
    )
}

proof fn lemma_kept_hidden(entries: Entries, kept: Seq<RegisteredModuleView>, name: Seq<char>)
    requires
        forall|k: Seq<char>| #[trigger] entries.dom().contains(k) ==> hides_values(entries[k]),
        entries_kept(entries, kept).dom().contains(name),
    ensures
        hides_values(entries_kept(entries, kept)[name]),
    decreases kept.len(),
{
    if kept.len() > 0 {
        lemma_literals();
        let front = entries_kept(entries, kept.drop_last());
        if front.dom().contains(name) {
            lemma_kept_hidden(entries, kept.drop_last(), name);
        }
    }
}

proof fn lemma_connected_hidden(entries: Entries, sessions: Seq<AuthSession>, name: Seq<char>)
    requires
        forall|k: Seq<char>| #[trigger] entries.dom().contains(k) ==> hides_values(entries[k]),
        entries_connected(entries, sessions).dom().contains(name),
    ensures
        hides_values(entries_connected(entries, sessions)[name]),
    decreases sessions.len(),
{
    if sessions.len() > 0 {
        lemma_literals();
        let front = entries_connected(entries, sessions.drop_last());
        if front.dom().contains(name) {
            lemma_connected_hidden(entries, sessions.drop_last(), name);
        }
    }
}

/// Who may not see the credentials of others finds no value of one in the list, whatever
/// the modules' files hold.
pub proof fn law_credentials_are_hidden(
    found: Seq<ListedModuleView>,
    kept: Seq<RegisteredModuleView>,
    sessions: Seq<AuthSession>,
    name: Seq<char>,
)
    requires
        module_entries(found, kept, sessions, false).dom().contains(name),
    ensures
        hides_values(module_entries(found, kept, sessions, false)[name]),
{
    let a = entries_found(found, false);
    assert forall|k: Seq<char>| #[trigger] a.dom().contains(k) implies hides_values(a[k]) by {
        lemma_found_hidden(found, k);
    }
    let b = entries_kept(a, kept);
    assert forall|k: Seq<char>| #[trigger] b.dom().contains(k) implies hides_values(b[k]) by {
        lemma_kept_hidden(a, kept, k);
    }
    lemma_connected_hidden(b, sessions, name);
}

proof fn lemma_kept_dom(entries: Entries, kept: Seq<RegisteredModuleView>, name: Seq<char>)
    ensures
        entries_kept(entries, kept).dom().contains(name) == (entries.dom().contains(name)
            || exists|i: int| 0 <= i < kept.len() && (#[trigger] kept[i]).name == name),
    decreases kept.len(),
{
    if kept.len() > 0 {
        let t = kept.drop_last();
        lemma_kept_dom(entries, t, name);
        if exists|i: int| 0 <= i < t.len() && (#[trigger] t[i]).name == name {
            let i = choose|i: int| 0 <= i < t.len() && (#[trigger] t[i]).name == name;
            assert(kept[i].name == name);
        }
        if exists|i: int| 0 <= i < kept.len() && (#[trigger] kept[i]).name == name {
            let i = choose|i: int| 0 <= i < kept.len() && (#[trigger] kept[i]).name == name;
            if i < t.len() {
                assert(t[i].name == name);
            }
        }
    }
}

proof fn lemma_connected_dom(entries: Entries, sessions: Seq<AuthSession>, name: Seq<char>)
    ensures
        entries_connected(entries, sessions).dom().contains(name) == (entries.dom().contains(name)
            || exists|i: int|
            0 <= i < sessions.len() && (#[trigger] sessions[i]).module_name@ == name),
    decreases sessions.len(),
{
    if sessions.len() > 0 {
        let t = sessions.drop_last();
        lemma_connected_dom(entries, t, name);
        if exists|i: int| 0 <= i < t.len() && (#[trigger] t[i]).module_name@ == name {
            let i = choose|i: int| 0 <= i < t.len() && (#[trigger] t[i]).module_name@ == name;
            assert(sessions[i].module_name@ == name);
        }
        if exists|i: int| 0 <= i < sessions.len() && (#[trigger] sessions[i]).module_name@ == name {
            let i = choose|i: int|
                0 <= i < sessions.len() && (#[trigger] sessions[i]).module_name@ == name;
            if i < t.len() {
                assert(t[i].module_name@ == name);
            }
        }
    }
}

proof fn lemma_found_dom(found: Seq<ListedModuleView>, expose: bool, name: Seq<char>)
    ensures
        entries_found(found, expose).dom().contains(name) == exists|i: int|
            0 <= i < found.len() && (#[trigger] found[i]).module.manifest.name == name,
    decreases found.len(),
{
    if found.len() > 0 {
        let t = found.drop_last();
        lemma_found_dom(t, expose, name);
        if exists|i: int| 0 <= i < t.len() && (#[trigger] t[i]).module.manifest.name == name {
            let i = choose|i: int|
                0 <= i < t.len() && (#[trigger] t[i]).module.manifest.name == name;
            assert(found[i].module.manifest.name == name);
        }
        if exists|i: int|
            0 <= i < found.len() && (#[trigger] found[i]).module.manifest.name == name {
            let i = choose|i: int|
                0 <= i < found.len() && (#[trigger] found[i]).module.manifest.name == name;
            if i < t.len() {
                assert(t[i].module.manifest.name == name);
            }
        }
    }
}

/// The list names exactly the modules that were found, approved before or are connected.
pub proof fn law_every_module_is_listed(
    found: Seq<ListedModuleView>,
    kept: Seq<RegisteredModuleView>,
    sessions: Seq<AuthSession>,
    expose: bool,
    name: Seq<char>,
)
    ensures
        module_entries(found, kept, sessions, expose).dom().contains(name) == ({
            ||| exists|i: int|
                0 <= i < found.len() && (#[trigger] found[i]).module.manifest.name == name
            ||| exists|i: int| 0 <= i < kept.len() && (#[trigger] kept[i]).name == name
            ||| exists|i: int|
                0 <= i < sessions.len() && (#[trigger] sessions[i]).module_name@ == name
        }),
{
    lemma_found_dom(found, expose, name);
    lemma_kept_dom(entries_found(found, expose), kept, name);
    lemma_connected_dom(entries_kept(entries_found(found, expose), kept), sessions, name);
}

} // verus!
