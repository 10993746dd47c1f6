//! Modules' credentials: secrets lie in a module's `.env`, public settings in the
//! `module_specific` section of its `config.json`.
use crate::env_file::{
    env_map, law_env_values_are_read_back, lines_text, read_env_map, readable_entries,
    text_values, with_lines, write_env_map,
};
use crate::json::{
    is_text_list, items, json_pretty, json_read, json_text, lemma_json_view, list, member,
    members, no_members, object, parse_json, reads_back, write_json, write_pretty, Json,
    JsonView,
};
use crate::module_manager::{env_name_of, CredentialField, CredentialFieldView};
use crate::proto::{pair_views, views};
use crate::strmap::StrMap;
use crate::text::{
    in_order, join, join_path, joined, lines, path_in, put_in_order, same, split_on,
    split_pieces, texts, trim, trimmed,
};
use crate::user_store::entry;
use vstd::prelude::*;

verus! {

/// The file with a module's secrets.
pub fn module_env_path(directory: &str) -> (r: String)
    ensures
        r@ == path_in(directory@, ".env"@),
{
    join_path(directory, ".env")
}

/// The file with a module's settings.
pub fn module_config_path(directory: &str) -> (r: String)
    ensures
        r@ == path_in(directory@, "config.json"@),
{
    join_path(directory, "config.json")
}

/// The texts of a list, without what is no text.
pub open spec fn texts_in(l: Seq<JsonView>) -> Seq<Seq<char>>
    decreases l.len(),
{
    if l.len() == 0 {
        Seq::empty()
    } else {
        let front = texts_in(l.drop_last());
        match l.last() {
            JsonView::Text(s) => front.push(s),
            _ => front,
        }
    }
}

fn collect_texts(v: &Vec<Json>) -> (r: Vec<String>)
    ensures
        texts(r@) == texts_in(items(v@)),
{
    let ghost all = items(v@);
    let mut out: Vec<String> = Vec::new();
    let mut i: usize = 0;
    assert(texts(out@) =~= texts_in(all.take(0)));
    while i < v.len()
        invariant
            i <= v@.len(),
            all == items(v@),
            texts(out@) == texts_in(all.take(i as int)),
        decreases v@.len() - i,
    {
        assert(all.take(i + 1).drop_last() =~= all.take(i as int));
        assert(all.take(i + 1).last() == v@[i as int]@);
        let ghost before = out@;
        if let Json::Text(s) = &v[i] {
            out.push(s.clone());
            assert(texts(out@) =~= texts(before).push(s@));
        }
        i = i + 1;
    }
    assert(all.take(i as int) =~= all);
    out
}

/// A setting as it is edited: a list has one entry on each line.
pub open spec fn setting_text(v: JsonView) -> Seq<char> {
    match v {
        JsonView::List(l) => join(texts_in(l), "\n"@),
        JsonView::Text(s) => s,
        _ => json_text(v),
    }
}

/// A setting as it is edited.
pub fn spec_value_to_string(v: &Json) -> (r: String)
    ensures
        r@ == setting_text(v@),
{
    proof {
        lemma_json_view(*v);
    }
    match v {
        Json::List(l) => joined(&collect_texts(l), "\n"),
        Json::Text(s) => s.clone(),
        _ => write_json(v),
    }
}

/// The public settings in the text of a `config.json`; none where it cannot be read.
pub open spec fn public_settings(config: Option<Seq<char>>) -> Map<Seq<char>, JsonView> {
    match config {
        Some(t) => match json_read(t) {
            Ok(v) => match member(v, "module_specific"@) {
                Some(JsonView::Object(m)) => m,
                _ => Map::empty(),
            },
            Err(_) => Map::empty(),
        },
        None => Map::empty(),
    }
}

/// A stored credential as it is edited: one that takes a list and holds one has one entry
/// on each line.
pub open spec fn stored_text(f: CredentialFieldView, raw: Seq<char>) -> Seq<char> {
    match (f.list, json_read(raw)) {
        (true, Ok(v)) if is_text_list(v) => join(texts_in(v->List_0), "\n"@),
        _ => raw,
    }
}

/// The value of a credential: a public setting, else what `.env` holds under its variable
/// or under its key.
pub open spec fn field_value(
    f: CredentialFieldView,
    settings: Map<Seq<char>, JsonView>,
    env: Map<Seq<char>, Seq<char>>,
) -> Option<Seq<char>> {
    if settings.dom().contains(f.key) {
        Some(setting_text(settings[f.key]))
    } else if env.dom().contains(env_name_of(f)) {
        Some(stored_text(f, env[env_name_of(f)]))
    } else if env.dom().contains(f.key) {
        Some(stored_text(f, env[f.key]))
    } else {
        None
    }
}

/// The values of some credentials. Of two with one key the later counts.
pub open spec fn field_values(
    fields: Seq<CredentialFieldView>,
    settings: Map<Seq<char>, JsonView>,
    env: Map<Seq<char>, Seq<char>>,
) -> Map<Seq<char>, Seq<char>>
    decreases fields.len(),
{
    if fields.len() == 0 {
        Map::empty()
    } else {
        let front = field_values(fields.drop_last(), settings, env);
        match field_value(fields.last(), settings, env) {
            Some(v) => front.insert(fields.last().key, v),
            None => front,
        }
    }
}

/// Public settings as they are edited.
pub open spec fn setting_texts(m: Map<Seq<char>, JsonView>) -> Map<Seq<char>, Seq<char>> {
    m.map_values(|v: JsonView| setting_text(v))
}

/// What a module's files hold of its credentials. Where nothing is found and there is no
/// `.env`, all public settings are taken for credentials, as they once were kept.
pub open spec fn credential_values(
    fields: Seq<CredentialFieldView>,
    env: Option<Seq<char>>,
    config: Option<Seq<char>>,
) -> Map<Seq<char>, Seq<char>> {
    let settings = public_settings(config);
    let defined = match env {
        Some(t) => env_map(t),
        None => Map::empty(),
    };
    let values = field_values(fields, settings, defined);
    if values.dom().is_empty() && env is None {
        setting_texts(settings)
    } else {
        values
    }
}

fn all_texts(v: &Vec<Json>) -> (r: bool)
    ensures
        r == is_text_list(JsonView::List(items(v@))),
{
    let ghost all = items(v@);
    let mut i: usize = 0;
    while i < v.len()
        invariant
            i <= v@.len(),
            all == items(v@),
            forall|j: int| 0 <= j < i ==> #[trigger] all[j] is Text,
        decreases v@.len() - i,
    {
        assert(all[i as int] == v@[i as int]@);
        if !matches!(v[i], Json::Text(_)) {
            return false;
        }
        i = i + 1;
    }
    true
}

fn decode_stored(f: &CredentialField, raw: &str) -> (r: String)
    ensures
        r@ == stored_text(f@, raw@),
{
    if f.list {
        if let Ok(j) = parse_json(raw) {
            proof {
                lemma_json_view(j);
            }
            if let Json::List(l) = &j {
                if all_texts(l) {
                    return joined(&collect_texts(l), "\n");
                }
            }
        }
    }
    raw.to_owned()
}

/// The public settings in the text of a `config.json`.
fn load_public(config: Option<&str>) -> (r: Vec<(String, Json)>)
    ensures
        members(r@) == public_settings(crate::proto::opt_view(config)),
{
    if let Some(t) = config {
        if let Ok(j) = parse_json(t) {
            if let Some(Json::Object(m)) = j.get("module_specific") {
                proof {
                    lemma_json_view(Json::Object(*m));
                }
                return crate::user_store::copy_pairs(m);
            }
        }
    }
    no_members()
}

/// What a module's files hold of its credentials, given the texts of its `.env` and its
/// `config.json`.
pub fn credential_values_map(
    fields: &Vec<CredentialField>,
    env: Option<&str>,
    config: Option<&str>,
) -> (r: StrMap<String>)
    ensures
        r.wf(),
        text_values(r@) == credential_values(
            views(fields@),
            crate::proto::opt_view(env),
            crate::proto::opt_view(config),
        ),
{
    let settings = load_public(config);
    let defined: StrMap<String> = match env {
        Some(t) => read_env_map(t),
        None => {
            let none: StrMap<String> = StrMap::new();
            assert(text_values(none@) =~= Map::<Seq<char>, Seq<char>>::empty());
            none
        },
    };
    let ghost all = views(fields@);
    let ghost public = members(settings@);
    let ghost secret = text_values(defined@);
    let mut out: StrMap<String> = StrMap::new();
    let mut i: usize = 0;
    assert(text_values(out@) =~= field_values(all.take(0), public, secret));
    while i < fields.len()
        invariant
            i <= fields@.len(),
            out.wf(),
            all == views(fields@),
            public == members(settings@),
            secret == text_values(defined@),
            text_values(out@) == field_values(all.take(i as int), public, secret),
        decreases fields@.len() - i,
    {
        let f = &fields[i];
        assert(all.take(i + 1).drop_last() =~= all.take(i as int));
        assert(all.take(i + 1).last() == f@);
        let value: Option<String> = match crate::user_store::entry_in(&settings, f.key.as_str()) {
            Some(v) => Some(spec_value_to_string(v)),
            None => match defined.get(f.env_name()) {
                Some(raw) => Some(decode_stored(f, raw.as_str())),
                None => match defined.get(f.key.as_str()) {
                    Some(raw) => Some(decode_stored(f, raw.as_str())),
                    None => None,
                },
            },
        };
        let ghost before = out@;
        if let Some(v) = value {
            out.insert(f.key.clone(), v);
            assert(text_values(out@) =~= text_values(before).insert(f.key@, v@));
        }
        i = i + 1;
    }
    assert(all.take(i as int) =~= all);
    if out.len() == 0 && env.is_none() {
        proof {
            lemma_no_pairs(out);
        }
        return settings_as_texts(&settings);
    }
    proof {
        if text_values(out@).dom().is_empty() && out.pairs().len() > 0 {
            crate::strmap::lemma_position_at(out.pairs(), 0);
            assert(out@.dom().contains(out.pairs()[0].0));
            assert(text_values(out@).dom().contains(out.pairs()[0].0));
        }
    }
    out
}

proof fn lemma_no_pairs(m: StrMap<String>)
    requires
        m.pairs().len() == 0,
    ensures
        text_values(m@).dom().is_empty(),
{
    assert(text_values(m@).dom() =~= Set::<Seq<char>>::empty());
}

/// Public settings as they are edited.
fn settings_as_texts(settings: &Vec<(String, Json)>) -> (r: StrMap<String>)
    ensures
        r.wf(),
        text_values(r@) == setting_texts(members(settings@)),
{
    let mut out: StrMap<String> = StrMap::new();
    let ghost all = settings@;
    let mut i: usize = 0;
    assert(all.take(0) =~= Seq::<(String, Json)>::empty());
    assert(text_values(out@) =~= setting_texts(members(all.take(0))));
    while i < settings.len()
        invariant
            i <= settings@.len(),
            all == settings@,
            out.wf(),
            text_values(out@) == setting_texts(members(all.take(i as int))),
        decreases settings@.len() - i,
    {
        proof {
            crate::json::lemma_members_push(
                all.take(i as int),
                all[i as int].0,
                all[i as int].1,
            );
            assert(all.take(i + 1) =~= all.take(i as int).push(all[i as int]));
        }
        let t = spec_value_to_string(&settings[i].1);
        let ghost before = out@;
        out.insert(settings[i].0.clone(), t);
        proof {
            let k = all[i as int].0@;
            assert(text_values(out@) =~= text_values(before).insert(k, t@));
            assert(setting_texts(members(all.take(i + 1))) =~= setting_texts(
                members(all.take(i as int)),
            ).insert(k, t@));
        }
        i = i + 1;
    }
    assert(all.take(i as int) =~= all);
    out
}

/// A value that is there and not blank.
pub open spec fn has_value(values: Map<Seq<char>, Seq<char>>, key: Seq<char>) -> bool {
    values.dom().contains(key) && trim(values[key]).len() > 0
}

/// Every credential that a module needs has a value.
pub open spec fn complete(
    fields: Seq<CredentialFieldView>,
    values: Map<Seq<char>, Seq<char>>,
) -> bool {
    forall|i: int|
        0 <= i < fields.len() && !(#[trigger] fields[i]).optional ==> has_value(
            values,
            fields[i].key,
        )
}

/// Whether every credential that a module needs has a value.
pub fn is_config_complete(fields: &Vec<CredentialField>, values: &StrMap<String>) -> (r: bool)
    ensures
        r == complete(views(fields@), text_values(values@)),
{
    let ghost all = views(fields@);
    let ghost known = text_values(values@);
    let mut i: usize = 0;
    while i < fields.len()
        invariant
            i <= fields@.len(),
            all == views(fields@),
            known == text_values(values@),
            forall|j: int|
                0 <= j < i && !(#[trigger] all[j]).optional ==> has_value(known, all[j].key),
        decreases fields@.len() - i,
    {
        assert(all[i as int] == fields@[i as int]@);
        if !fields[i].optional {
            let there = match values.get(fields[i].key.as_str()) {
                Some(v) => trimmed(v.as_str()).as_str().unicode_len() > 0,
                None => false,
            };
            if !there {
                assert(!has_value(known, all[i as int].key));
                return false;
            }
        }
        i = i + 1;
    }
    true
}

/// Some credential has the key.
pub open spec fn known_key(fields: Seq<CredentialFieldView>, key: Seq<char>) -> bool {
    exists|i: int| 0 <= i < fields.len() && (#[trigger] fields[i]).key == key
}

fn has_field(fields: &Vec<CredentialField>, key: &str) -> (r: bool)
    ensures
        r == known_key(views(fields@), key@),
{
    let ghost all = views(fields@);
    let mut i: usize = 0;
    while i < fields.len()
        invariant
            i <= fields@.len(),
            all == views(fields@),
            forall|j: int| 0 <= j < i ==> (#[trigger] all[j]).key != key@,
        decreases fields@.len() - i,
    {
        if same(fields[i].key.as_str(), key) {
            assert(all[i as int].key == key@);
            return true;
        }
        i = i + 1;
    }
    false
}

/// Whether a list is that of the submitted keys that no credential has, in order.
pub open spec fn lists_unknown(
    l: Seq<Seq<char>>,
    fields: Seq<CredentialFieldView>,
    submitted: Set<Seq<char>>,
) -> bool {
    &&& in_order(l)
    &&& forall|k: Seq<char>| #[trigger]
        l.contains(k) == (submitted.contains(k) && !known_key(fields, k))
}

/// What is said of unknown keys.
pub open spec fn unknown_keys(l: Seq<Seq<char>>) -> Seq<char> {
    "Unknown credential key: "@ + join(l, ", "@)
}

/// Checks submitted values against a module's credentials. The unknown keys are listed.
pub fn validate_credential_fields(
    fields: &Vec<CredentialField>,
    submitted: &StrMap<String>,
) -> (r: Result<(), String>)
    requires
        submitted.wf(),
    ensures
        r is Ok == forall|k: Seq<char>| #[trigger]
            submitted@.dom().contains(k) ==> known_key(views(fields@), k),
        r matches Err(e) ==> exists|l: Seq<Seq<char>>| #[trigger]
            lists_unknown(l, views(fields@), submitted@.dom()) && e@ == unknown_keys(l),
{
    let ghost all = submitted.pairs();
    let mut unknown: Vec<String> = Vec::new();
    let mut i: usize = 0;
    while i < submitted.len()
        invariant
            i <= all.len(),
            submitted.wf(),
            all == submitted.pairs(),
            in_order(texts(unknown@)),
            forall|k: Seq<char>| #[trigger]
                texts(unknown@).contains(k) == (!known_key(views(fields@), k) && exists|j: int|
                    0 <= j < i && (#[trigger] all[j]).0 == k),
        decreases all.len() - i,
    {
        let key = submitted.key_at(i);
        let ghost before = texts(unknown@);
        if !has_field(fields, key.as_str()) {
            proof {
                if before.contains(key@) {
                    let j = choose|j: int| 0 <= j < i && (#[trigger] all[j]).0 == key@;
                    assert(all[j].0 != all[i as int].0);
                }
            }
            put_in_order(&mut unknown, key.clone());
        }
        proof {
            let after = texts(unknown@);
            assert forall|k: Seq<char>| #[trigger] after.contains(k) == (!known_key(
                views(fields@),
                k,
            ) && exists|j: int| 0 <= j < i + 1 && (#[trigger] all[j]).0 == k) by {
                assert(all[i as int].0 == key@);
                assert(before.contains(k) == (!known_key(views(fields@), k) && exists|j: int|
                    0 <= j < i && (#[trigger] all[j]).0 == k));
                if exists|j: int| 0 <= j < i + 1 && (#[trigger] all[j]).0 == k {
                    let j = choose|j: int| 0 <= j < i + 1 && (#[trigger] all[j]).0 == k;
                    if j < i {
                        assert(all[j].0 == k);
                    }
                }
            }
        }
        i = i + 1;
    }
    let ghost l = texts(unknown@);
    proof {
        assert forall|k: Seq<char>| #[trigger] l.contains(k) == (submitted@.dom().contains(k)
            && !known_key(views(fields@), k)) by {
            crate::strmap::lemma_position(all, k);
            if submitted@.dom().contains(k) {
                let p = crate::strmap::position(all, k) as int;
                assert(all[p].0 == k);
            }
            if l.contains(k) {
                let j = choose|j: int| 0 <= j < i && (#[trigger] all[j]).0 == k;
                crate::strmap::lemma_position_at(all, j);
            }
        }
        assert(lists_unknown(l, views(fields@), submitted@.dom()));
    }
    if unknown.len() == 0 {
        proof {
            assert forall|k: Seq<char>| #[trigger] submitted@.dom().contains(k) implies known_key(
                views(fields@),
                k,
            ) by {
                assert(!l.contains(k));
            }
        }
        return Ok(());
    }
    proof {
        assert(l.contains(l[0]));
    }
    let mut e = "Unknown credential key: ".to_owned();
    e.append(joined(&unknown, ", ").as_str());
    Err(e)
}

/// The entries of a list as it is edited: one on each line, trimmed, none blank.
pub open spec fn list_entries(lines: Seq<Seq<char>>) -> Seq<Seq<char>>
    decreases lines.len(),
{
    if lines.len() == 0 {
        Seq::empty()
    } else {
        let front = list_entries(lines.drop_last());
        if trim(lines.last()).len() == 0 {
            front
        } else {
            front.push(trim(lines.last()))
        }
    }
}

/// The entries of an edited text.
pub open spec fn edited_list(value: Seq<char>) -> Seq<Seq<char>> {
    list_entries(split_on(value, '\n'))
}

/// Texts as a JSON list.
pub open spec fn json_texts(l: Seq<Seq<char>>) -> JsonView {
    JsonView::List(l.map_values(|s: Seq<char>| JsonView::Text(s)))
}

fn read_list(value: &str) -> (r: Json)
    ensures
        r@ == json_texts(edited_list(value@)),
{
    let pieces = split_pieces(value, '\n');
    let ghost all = texts(pieces@);
    let mut out: Vec<Json> = Vec::new();
    let mut i: usize = 0;
    assert(items(out@) =~= list_entries(all.take(0)).map_values(
        |s: Seq<char>| JsonView::Text(s),
    ));
    while i < pieces.len()
        invariant
            i <= pieces@.len(),
            all == texts(pieces@),
            items(out@) == list_entries(all.take(i as int)).map_values(
                |s: Seq<char>| JsonView::Text(s),
            ),
        decreases pieces@.len() - i,
    {
        assert(all.take(i + 1).drop_last() =~= all.take(i as int));
        assert(all.take(i + 1).last() == pieces@[i as int]@);
        let t = trimmed(pieces[i].as_str());
        let ghost before = out@;
        if t.as_str().unicode_len() > 0 {
            out.push(Json::Text(t));
            assert(items(out@) =~= items(before).push(JsonView::Text(t@)));
            assert(items(out@) =~= list_entries(all.take(i + 1)).map_values(
                |s: Seq<char>| JsonView::Text(s),
            ));
        }
        i = i + 1;
    }
    assert(all.take(i as int) =~= all);
    list(out)
}

/// How a secret is stored.
pub open spec fn stored_secret(f: CredentialFieldView, value: Seq<char>) -> Seq<char> {
    if f.list {
        json_text(json_texts(edited_list(value)))
    } else {
        trim(value)
    }
}

/// How a public setting is stored.
pub open spec fn stored_setting(f: CredentialFieldView, value: Seq<char>) -> JsonView {
    if f.list {
        json_texts(edited_list(value))
    } else {
        JsonView::Text(trim(value))
    }
}

/// The secrets among submitted values, by the variables they are stored under.
pub open spec fn secrets_of(
    fields: Seq<CredentialFieldView>,
    values: Map<Seq<char>, Seq<char>>,
) -> Seq<(Seq<char>, Seq<char>)>
    decreases fields.len(),
{
    if fields.len() == 0 {
        Seq::empty()
    } else {
        let front = secrets_of(fields.drop_last(), values);
        let f = fields.last();
        if f.sensitive && values.dom().contains(f.key) {
            front.push((env_name_of(f), stored_secret(f, values[f.key])))
        } else {
            front
        }
    }
}

/// The public settings among submitted values.
pub open spec fn settings_of(
    fields: Seq<CredentialFieldView>,
    values: Map<Seq<char>, Seq<char>>,
) -> Map<Seq<char>, JsonView>
    decreases fields.len(),
{
    if fields.len() == 0 {
        Map::empty()
    } else {
        let front = settings_of(fields.drop_last(), values);
        let f = fields.last();
        if !f.sensitive && values.dom().contains(f.key) {
            front.insert(f.key, stored_setting(f, values[f.key]))
        } else {
            front
        }
    }
}

/// A `config.json` with public settings merged into those it has; what it held besides
/// stays. A text that holds no object counts as an empty one.
pub open spec fn with_settings(
    config: Option<Seq<char>>,
    settings: Map<Seq<char>, JsonView>,
) -> JsonView {
    let root = match config {
        Some(t) => match json_read(t) {
            Ok(JsonView::Object(m)) => m,
            _ => Map::empty(),
        },
        None => Map::empty(),
    };
    JsonView::Object(
        root.insert(
            "module_specific"@,
            JsonView::Object(public_settings(config).union_prefer_right(settings)),
        ),
    )
}

/// How a secret is stored. A list can be written to `.env` and read back from there, with
/// the entries that were submitted.
pub fn encode_secret(f: &CredentialField, value: &str) -> (r: String)
    ensures
        r@ == stored_secret(f@, value@),
        f.list ==> crate::env_file::plain_value(r@),
        f.list ==> stored_text(f@, r@) == join(edited_list(value@), "\n"@),
{
    if f.list {
        let entries = read_list(value);
        proof {
            lemma_texts_in(edited_list(value@));
        }
        let r = write_json(&entries);
        proof {
            lemma_list_secret(f@, value@, r@);
            crate::text::lemma_trim_id(r@);
            assert(crate::text::unquote_start(r@) == r@);
            assert(crate::text::unquote_end(r@) == r@);
        }
        r
    } else {
        trimmed(value)
    }
}

/// A submitted value as it is edited again: a list has one entry on each line, another value
/// no white space around it.
pub open spec fn edited_value(f: CredentialFieldView, value: Seq<char>) -> Seq<char> {
    if f.list {
        join(edited_list(value), "\n"@)
    } else {
        trim(value)
    }
}

/// The text of a file after it was written, or not.
pub open spec fn text_after(written: Option<String>, before: Seq<char>) -> Seq<char> {
    match written {
        Some(t) => t@,
        None => before,
    }
}

/// The text of a file after it was written, or not, where there may have been none.
pub open spec fn config_after(written: Option<String>, before: Option<Seq<char>>) -> Option<
    Seq<char>,
> {
    match written {
        Some(t) => Some(t@),
        None => before,
    }
}

/// The keys of some credentials are different.
pub open spec fn distinct_fields(fields: Seq<CredentialFieldView>) -> bool {
    forall|i: int, j: int|
        0 <= i < j < fields.len() ==> (#[trigger] fields[i]).key != (#[trigger] fields[j]).key
}

/// A value is submitted for a credential, and what is written for it can be read back: no
/// other credential has its key, the secrets can stand in `.env`, the settings can be read
/// back, and a secret is not hidden by a public setting of that name.
pub open spec fn saves(
    fields: Seq<CredentialFieldView>,
    values: Map<Seq<char>, Seq<char>>,
    env: Seq<char>,
    config: Option<Seq<char>>,
    i: int,
) -> bool {
    let settings = settings_of(fields, values);
    &&& distinct_fields(fields)
    &&& values.dom().contains(fields[i].key)
    &&& readable_entries(lines(env), secrets_of(fields, values))
    &&& fields[i].sensitive ==> !public_settings(config).dom().contains(fields[i].key)
    &&& !settings.dom().is_empty() ==> reads_back(with_settings(config, settings))
}

proof fn lemma_secret_is_written(
    fields: Seq<CredentialFieldView>,
    values: Map<Seq<char>, Seq<char>>,
    i: int,
)
    requires
        0 <= i < fields.len(),
        fields[i].sensitive,
        values.dom().contains(fields[i].key),
    ensures
        exists|j: int|
            0 <= j < secrets_of(fields, values).len() && #[trigger] secrets_of(fields, values)[j]
                == (env_name_of(fields[i]), stored_secret(fields[i], values[fields[i].key])),
    decreases fields.len(),
{
    let front = fields.drop_last();
    let all = secrets_of(fields, values);
    if i < front.len() {
        lemma_secret_is_written(front, values, i);
        let before = secrets_of(front, values);
        let j = choose|j: int|
            0 <= j < before.len() && #[trigger] before[j] == (
                env_name_of(front[i]),
                stored_secret(front[i], values[front[i].key]),
            );
        assert(all[j] == before[j]);
    } else {
        assert(fields[i] == fields.last());
        assert(all[all.len() - 1] == (
            env_name_of(fields[i]),
            stored_secret(fields[i], values[fields[i].key]),
        ));
    }
}

proof fn lemma_setting_is_written(
    fields: Seq<CredentialFieldView>,
    values: Map<Seq<char>, Seq<char>>,
    i: int,
)
    requires
        0 <= i < fields.len(),
        distinct_fields(fields),
        !fields[i].sensitive,
        values.dom().contains(fields[i].key),
    ensures
        entry(settings_of(fields, values), fields[i].key) == Some(
            stored_setting(fields[i], values[fields[i].key]),
        ),
    decreases fields.len(),
{
    let front = fields.drop_last();
    if i < front.len() {
        assert(front[i] == fields[i]);
        assert(distinct_fields(front));
        lemma_setting_is_written(front, values, i);
        assert(fields[i].key != fields[fields.len() - 1].key);
    } else {
        assert(fields[i] == fields.last());
    }
}

proof fn lemma_value_of_field(
    fields: Seq<CredentialFieldView>,
    settings: Map<Seq<char>, JsonView>,
    env: Map<Seq<char>, Seq<char>>,
    i: int,
)
    requires
        0 <= i < fields.len(),
        distinct_fields(fields),
        field_value(fields[i], settings, env) is Some,
    ensures
        entry(field_values(fields, settings, env), fields[i].key) == field_value(
            fields[i],
            settings,
            env,
        ),
    decreases fields.len(),
{
    let front = fields.drop_last();
    if i < front.len() {
        assert(front[i] == fields[i]);
        assert(distinct_fields(front));
        lemma_value_of_field(front, settings, env, i);
        assert(fields[i].key != fields[fields.len() - 1].key);
    } else {
        assert(fields[i] == fields.last());
    }
}

/// A credential that was saved is shown as it was edited.
proof fn lemma_saved_is_shown(
    fields: Seq<CredentialFieldView>,
    values: Map<Seq<char>, Seq<char>>,
    env: Seq<char>,
    config: Option<Seq<char>>,
    new_env: Seq<char>,
    new_config: Option<Seq<char>>,
    i: int,
)
    requires
        0 <= i < fields.len(),
        saves(fields, values, env, config, i),
        fields[i].sensitive ==> stored_text(
            fields[i],
            stored_secret(fields[i], values[fields[i].key]),
        ) == edited_value(fields[i], values[fields[i].key]),
        secrets_of(fields, values).len() > 0 ==> new_env == lines_text(
            with_lines(lines(env), secrets_of(fields, values)),
        ),
        public_settings(new_config) == public_settings(config).union_prefer_right(
            settings_of(fields, values),
        ),
    ensures
        entry(credential_values(fields, Some(new_env), new_config), fields[i].key) == Some(
            edited_value(fields[i], values[fields[i].key]),
        ),
{
    let f = fields[i];
    let settings = settings_of(fields, values);
    let shown = public_settings(new_config);
    let defined = env_map(new_env);
    if f.sensitive {
        assert forall|j: int| 0 <= j < fields.len() && (#[trigger] fields[j]).key
            == f.key implies fields[j].sensitive by {
            if j < i {
                assert(fields[j].key != fields[i].key);
            } else if i < j {
                assert(fields[i].key != fields[j].key);
            }
        }
        law_secrets_stay_out_of_settings(fields, values, f.key);
        lemma_secret_is_written(fields, values, i);
        law_env_values_are_read_back(env, secrets_of(fields, values));
        let secrets = secrets_of(fields, values);
        let j = choose|j: int|
            0 <= j < secrets.len() && #[trigger] secrets[j] == (
                env_name_of(f),
                stored_secret(f, values[f.key]),
            );
        assert(defined.dom().contains(secrets[j].0));
    } else {
        lemma_setting_is_written(fields, values, i);
        assert(settings.dom().contains(f.key));
        law_setting_is_read_back(f, values[f.key]);
    }
    lemma_value_of_field(fields, shown, defined, i);
}

/// What has to be written for submitted values: the text of `.env`, given the one it has,
/// and that of `config.json`; each only where it changes. What is submitted is then found
/// there again, as it was edited.
pub fn save_module_credentials(
    fields: &Vec<CredentialField>,
    values: &StrMap<String>,
    env: &str,
    config: Option<&str>,
) -> (r: (Option<String>, Option<String>))
    ensures
        ({
            let given = text_values(values@);
            let secrets = secrets_of(views(fields@), given);
            let settings = settings_of(views(fields@), given);
            &&& r.0 is Some == (secrets.len() > 0)
            &&& r.0 matches Some(t) ==> t@ == lines_text(with_lines(lines(env@), secrets))
            &&& r.1 is Some == !settings.dom().is_empty()
            &&& r.1 matches Some(t) ==> t@ == json_pretty(
                with_settings(crate::proto::opt_view(config), settings),
            )
            &&& (settings.dom().is_empty() || reads_back(
                with_settings(crate::proto::opt_view(config), settings),
            )) ==> public_settings(config_after(r.1, crate::proto::opt_view(config)))
                == public_settings(crate::proto::opt_view(config)).union_prefer_right(settings)
        }),
        forall|i: int|
            0 <= i < fields@.len() && saves(
                views(fields@),
                text_values(values@),
                env@,
                crate::proto::opt_view(config),
                i,
            ) ==> entry(
                credential_values(
                    views(fields@),
                    Some(text_after(r.0, env@)),
                    config_after(r.1, crate::proto::opt_view(config)),
                ),
                (#[trigger] fields@[i])@.key,
            ) == Some(edited_value(fields@[i]@, text_values(values@)[fields@[i]@.key])),
{
    let ghost all = views(fields@);
    let ghost given = text_values(values@);
    let mut secrets: Vec<(String, String)> = Vec::new();
    let mut settings = no_members();
    let mut i: usize = 0;
    assert(pair_views(secrets@) =~= secrets_of(all.take(0), given));
    assert(members(settings@) =~= settings_of(all.take(0), given));
    while i < fields.len()
        invariant
            i <= fields@.len(),
            all == views(fields@),
            given == text_values(values@),
            pair_views(secrets@) == secrets_of(all.take(i as int), given),
            members(settings@) == settings_of(all.take(i as int), given),
            settings@.len() == 0 ==> members(settings@).dom().is_empty(),
            settings@.len() > 0 ==> !members(settings@).dom().is_empty(),
            forall|j: int|
                0 <= j < i && (#[trigger] all[j]).sensitive && given.dom().contains(all[j].key)
                    ==> stored_text(all[j], stored_secret(all[j], given[all[j].key]))
                    == edited_value(all[j], given[all[j].key]),
        decreases fields@.len() - i,
    {
        let f = &fields[i];
        assert(all.take(i + 1).drop_last() =~= all.take(i as int));
        assert(all.take(i + 1).last() == f@);
        if let Some(value) = values.get(f.key.as_str()) {
            if f.sensitive {
                let encoded = encode_secret(f, value.as_str());
                let ghost before = secrets@;
                secrets.push((f.env_name().to_owned(), encoded));
                assert(pair_views(secrets@) =~= pair_views(before).push(
                    (env_name_of(f@), encoded@),
                ));
            } else {
                let stored = if f.list {
                    read_list(value.as_str())
                } else {
                    Json::Text(trimmed(value.as_str()))
                };
                crate::json::put(&mut settings, f.key.as_str(), stored);
                assert(members(settings@).dom().contains(f.key@));
            }
        }
        i = i + 1;
    }
    assert(all.take(i as int) =~= all);
    let new_env = if secrets.len() > 0 {
        Some(write_env_map(env, &secrets))
    } else {
        None
    };
    let new_config = if settings.len() > 0 {
        let mut root = no_members();
        if let Some(t) = config {
            if let Ok(j) = parse_json(t) {
                proof {
                    lemma_json_view(j);
                }
                if let Json::Object(m) = j {
                    root = m;
                }
            }
        }
        let mut section = load_public(config);
        let ghost held = section@;
        let ghost new = settings@;
        section.append(&mut settings);
        proof {
            crate::json::lemma_members_append(held, new);
        }
        crate::json::put(&mut root, "module_specific", object(section));
        Some(write_pretty(&object(root)))
    } else {
        None
    };
    proof {
        let before = crate::proto::opt_view(config);
        let after = config_after(new_config, before);
        let public = settings_of(all, given);
        let merged = public_settings(before).union_prefer_right(public);
        if public.dom().is_empty() {
            assert(public_settings(after) =~= merged);
        } else if reads_back(with_settings(before, public)) {
            assert(public_settings(after) =~= merged);
        }
        assert forall|j: int| 0 <= j < fields@.len() && saves(all, given, env@, before, j) implies entry(
            credential_values(all, Some(text_after(new_env, env@)), after),
            (#[trigger] fields@[j])@.key,
        ) == Some(edited_value(fields@[j]@, given[fields@[j]@.key])) by {
            assert(all[j] == fields@[j]@);
            lemma_saved_is_shown(
                all,
                given,
                env@,
                before,
                text_after(new_env, env@),
                after,
                j,
            );
        }
    }
    (new_env, new_config)
}

proof fn lemma_texts_in(l: Seq<Seq<char>>)
    ensures
        texts_in(json_texts(l)->List_0) == l,
        is_text_list(json_texts(l)),
    decreases l.len(),
{
    let j = json_texts(l)->List_0;
    if l.len() > 0 {
        lemma_texts_in(l.drop_last());
        assert(json_texts(l.drop_last())->List_0 =~= j.drop_last());
        assert(l.drop_last().push(l.last()) =~= l);
    } else {
        assert(texts_in(j) =~= l);
    }
}

/// A text that holds the list of a submitted value has its entries, one on each line.
proof fn lemma_list_secret(f: CredentialFieldView, value: Seq<char>, raw: Seq<char>)
    requires
        f.list,
        json_read(raw) == Ok::<JsonView, Seq<char>>(json_texts(edited_list(value))),
    ensures
        stored_text(f, raw) == join(edited_list(value), "\n"@),
{
    lemma_texts_in(edited_list(value));
}

/// A public setting survives being stored: what is read back has the entries of what was
/// submitted, or the text without the white space around it.
pub proof fn law_setting_is_read_back(f: CredentialFieldView, value: Seq<char>)
    ensures
        setting_text(stored_setting(f, value)) == (if f.list {
            join(edited_list(value), "\n"@)
        } else {
            trim(value)
        }),
{
    lemma_texts_in(edited_list(value));
}

/// No secret is written to the settings, and no public setting to `.env`.
pub proof fn law_secrets_stay_out_of_settings(
    fields: Seq<CredentialFieldView>,
    values: Map<Seq<char>, Seq<char>>,
    key: Seq<char>,
)
    requires
        forall|i: int|
            0 <= i < fields.len() && (#[trigger] fields[i]).key == key ==> fields[i].sensitive,
    ensures
        !settings_of(fields, values).dom().contains(key),
    decreases fields.len(),
{
    if fields.len() > 0 {
        let t = fields.drop_last();
        assert forall|i: int| 0 <= i < t.len() && (#[trigger] t[i]).key
            == key implies t[i].sensitive by {
            assert(t[i] == fields[i]);
        }
        law_secrets_stay_out_of_settings(t, values, key);
        assert(fields[fields.len() - 1] == fields.last());
    }
}

} // verus!
