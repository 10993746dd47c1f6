//! The engine's settings, and the secrets that live beside them in `.env`.
use crate::env_file::{
    defines_first, first_value, law_written_values_are_taken, line_entries, lines_text, plain_key,
    plain_value, to_set, with_lines, write_env_map,
};
use crate::json::{
    json_pretty, json_read, member, members, object, parse_json, reads_back, text_value,
    write_pretty, Json, JsonView,
};
use crate::pipeline::{PipelineConfig, PipelineConfigView};
use crate::proto::{clone_all, opt_view, pair_views, views};
use crate::random::{fresh_uuid4, fresh_v4, is_uuid_text, version_of};
use crate::text::{
    decimal, dir_of, is_digit, join_path, lemma_decimal, lemma_decimal_is_read, lemma_trim_id,
    lines, parent_dir, parse_u32, path_in, same, texts, trim, trimmed, u32_of, u64_text,
    unquote_end, unquote_start,
};
use vstd::prelude::*;

verus! {

/// A module's place in a stage.
#[derive(Debug)]
pub struct ModuleEntry {
    pub name: String,
    pub priority: i32,
}

/// What a [`ModuleEntry`] says.
#[verifier::ext_equal]
pub struct ModuleEntryView {
    pub name: Seq<char>,
    pub priority: i32,
}

impl View for ModuleEntry {
    type V = ModuleEntryView;

    open spec fn view(&self) -> ModuleEntryView {
        ModuleEntryView {
            name: self.name@,
            priority: self.priority,
        }
    }
}

impl Clone for ModuleEntry {
    fn clone(&self) -> (r: Self)
        ensures
            r@ == self@,
    {
        ModuleEntry {
            name: self.name.clone(),
            priority: self.priority,
        }
    }
}

/// The engine's settings.
#[derive(Debug)]
pub struct Config {
    pub timeline_database_location: String,
    pub timeline_database_backup_location: String,
    /// The size that the timeline database should stay below, in megabytes.
    pub timeline_database_target_mb: u32,
    pub port: u16,
    pub inputs: Vec<ModuleEntry>,
    pub preprocess_modules: Vec<ModuleEntry>,
    pub inprocess_modules: Vec<ModuleEntry>,
    pub postprocess_modules: Vec<ModuleEntry>,
    /// Seconds of silence before a module is probed.
    pub module_probe_interval_secs: u64,
    /// Seconds a module has to answer a probe.
    pub module_probe_response_secs: u64,
    /// What is answered for a new module where nobody can be asked.
    pub module_approval_policy: String,
}

/// What a [`Config`] says.
#[verifier::ext_equal]
pub struct ConfigView {
    pub timeline_database_location: Seq<char>,
    pub timeline_database_backup_location: Seq<char>,
    pub timeline_database_target_mb: u32,
    pub port: u16,
    pub inputs: Seq<ModuleEntryView>,
    pub preprocess_modules: Seq<ModuleEntryView>,
    pub inprocess_modules: Seq<ModuleEntryView>,
    pub postprocess_modules: Seq<ModuleEntryView>,
    pub module_probe_interval_secs: u64,
    pub module_probe_response_secs: u64,
    pub module_approval_policy: Seq<char>,
}

impl View for Config {
    type V = ConfigView;

    open spec fn view(&self) -> ConfigView {
        ConfigView {
            timeline_database_location: self.timeline_database_location@,
            timeline_database_backup_location: self.timeline_database_backup_location@,
            timeline_database_target_mb: self.timeline_database_target_mb,
            port: self.port,
            inputs: views(self.inputs@),
            preprocess_modules: views(self.preprocess_modules@),
            inprocess_modules: views(self.inprocess_modules@),
            postprocess_modules: views(self.postprocess_modules@),
            module_probe_interval_secs: self.module_probe_interval_secs,
            module_probe_response_secs: self.module_probe_response_secs,
            module_approval_policy: self.module_approval_policy@,
        }
    }
}

impl Clone for Config {
    fn clone(&self) -> (r: Self)
        ensures
            r@ == self@,
    {
        Config {
            timeline_database_location: self.timeline_database_location.clone(),
            timeline_database_backup_location: self.timeline_database_backup_location.clone(),
            timeline_database_target_mb: self.timeline_database_target_mb,
            port: self.port,
            inputs: clone_all(&self.inputs),
            preprocess_modules: clone_all(&self.preprocess_modules),
            inprocess_modules: clone_all(&self.inprocess_modules),
            postprocess_modules: clone_all(&self.postprocess_modules),
            module_probe_interval_secs: self.module_probe_interval_secs,
            module_probe_response_secs: self.module_probe_response_secs,
            module_approval_policy: self.module_approval_policy.clone(),
        }
    }
}

/// Seconds of silence before a module is probed, where the settings do not say.
pub const DEFAULT_PROBE_INTERVAL_SECS: u64 = 30;

/// Seconds a module has to answer a probe, where the settings do not say.
pub const DEFAULT_PROBE_RESPONSE_SECS: u64 = 15;

/// The size of the timeline database in megabytes, where the settings do not say.
pub const DEFAULT_TIMELINE_TARGET_MB: u32 = 50;

/// Seconds of silence before a module is probed, where the settings do not say.
pub fn default_probe_interval_secs() -> (r: u64)
    ensures
        r == 30,
{
    DEFAULT_PROBE_INTERVAL_SECS
}

/// The size of the timeline database in megabytes, where the settings do not say.
pub fn default_timeline_target_mb() -> (r: u32)
    ensures
        r == 50,
{
    DEFAULT_TIMELINE_TARGET_MB
}

/// Seconds a module has to answer a probe, where the settings do not say.
pub fn default_probe_response_secs() -> (r: u64)
    ensures
        r == 15,
{
    DEFAULT_PROBE_RESPONSE_SECS
}

/// What is answered for a new module where nobody can be asked and the settings do not
/// say.
pub fn default_approval_policy() -> (r: String)
    ensures
        r@ == "auto-deny"@,
{
    "auto-deny".to_owned()
}

/// The list with an entry behind those that do not come after it.
pub open spec fn insert_entry(list: Seq<ModuleEntryView>, e: ModuleEntryView) -> Seq<
    ModuleEntryView,
>
    decreases list.len(),
{
    if list.len() == 0 || list.last().priority <= e.priority {
        list.push(e)
    } else {
        insert_entry(list.drop_last(), e).push(list.last())
    }
}

/// The entries by priority; those of one priority keep their order.
pub open spec fn by_priority(list: Seq<ModuleEntryView>) -> Seq<ModuleEntryView>
    decreases list.len(),
{
    if list.len() == 0 {
        Seq::empty()
    } else {
        insert_entry(by_priority(list.drop_last()), list.last())
    }
}

/// The index of the first entry with a name, or the number of entries.
pub open spec fn entry_at(list: Seq<ModuleEntryView>, name: Seq<char>) -> nat
    decreases list.len(),
{
    if list.len() == 0 || list[0].name == name {
        0
    } else {
        1 + entry_at(list.drop_first(), name)
    }
}

/// The list with a module: a module that is there gets the priority, a new one is put
/// where its priority belongs.
pub open spec fn with_module(
    list: Seq<ModuleEntryView>,
    name: Seq<char>,
    priority: i32,
) -> Seq<ModuleEntryView> {
    let i = entry_at(list, name) as int;
    if i < list.len() {
        list.update(i, ModuleEntryView { priority, ..list[i] })
    } else {
        by_priority(list.push(ModuleEntryView { name, priority }))
    }
}

/// The entries of other names.
pub open spec fn without_module(list: Seq<ModuleEntryView>, name: Seq<char>) -> Seq<
    ModuleEntryView,
>
    decreases list.len(),
{
    if list.len() == 0 {
        Seq::empty()
    } else {
        let front = without_module(list.drop_last(), name);
        if list.last().name == name {
            front
        } else {
            front.push(list.last())
        }
    }
}

/// The settings with a module at a position; unchanged where there is no such position.
pub open spec fn module_added(
    c: ConfigView,
    name: Seq<char>,
    position: Seq<char>,
    priority: i32,
) -> ConfigView {
    if position == "input"@ {
        ConfigView { inputs: with_module(c.inputs, name, priority), ..c }
    } else if position == "preprocess"@ {
        ConfigView {
            preprocess_modules: with_module(c.preprocess_modules, name, priority),
            ..c
        }
    } else if position == "inprocess"@ {
        ConfigView { inprocess_modules: with_module(c.inprocess_modules, name, priority), ..c }
    } else if position == "postprocess"@ {
        ConfigView {
            postprocess_modules: with_module(c.postprocess_modules, name, priority),
            ..c
        }
    } else {
        c
    }
}

/// The settings without a module.
pub open spec fn module_removed(c: ConfigView, name: Seq<char>) -> ConfigView {
    ConfigView {
        inputs: without_module(c.inputs, name),
        preprocess_modules: without_module(c.preprocess_modules, name),
        inprocess_modules: without_module(c.inprocess_modules, name),
        postprocess_modules: without_module(c.postprocess_modules, name),
        ..c
    }
}

/// Puts an entry where its priority belongs, in a list by priority.
fn insert_sorted(list: &mut Vec<ModuleEntry>, e: ModuleEntry)
    ensures
        views(final(list)@) == insert_entry(views(old(list)@), e@),
{
    let ghost all = views(list@);
    let mut i: usize = list.len();
    assert(all.take(i as int) =~= all);
    assert(insert_entry(all, e@) =~= insert_entry(all.take(i as int), e@) + all.skip(i as int));
    while i > 0 && list[i - 1].priority > e.priority
        invariant
            i <= list@.len(),
            all == views(list@),
            insert_entry(all, e@) == insert_entry(all.take(i as int), e@) + all.skip(i as int),
        decreases i,
    {
        proof {
            let t = all.take(i as int);
            assert(t.last() == all[i - 1]);
            assert(all[i - 1] == list@[i - 1]@);
            assert(t.drop_last() =~= all.take(i - 1));
            assert(insert_entry(all.take(i - 1), e@).push(all[i - 1]) + all.skip(i as int)
                =~= insert_entry(all.take(i - 1), e@) + all.skip(i - 1));
        }
        i = i - 1;
    }
    proof {
        if i > 0 {
            assert(all.take(i as int).last() == all[i - 1]);
            assert(all[i - 1] == list@[i - 1]@);
        }
        assert(all.take(i as int).push(e@) + all.skip(i as int) =~= all.insert(i as int, e@));
    }
    list.insert(i, e);
    assert(views(list@) =~= all.insert(i as int, e@));
}

/// The entries by priority.
fn sorted(list: &Vec<ModuleEntry>) -> (r: Vec<ModuleEntry>)
    ensures
        views(r@) == by_priority(views(list@)),
{
    let ghost all = views(list@);
    let mut out: Vec<ModuleEntry> = Vec::new();
    let mut i: usize = 0;
    assert(views(out@) =~= by_priority(all.take(0)));
    while i < list.len()
        invariant
            i <= list@.len(),
            all == views(list@),
            views(out@) == by_priority(all.take(i as int)),
        decreases list@.len() - i,
    {
        assert(all.take(i + 1).drop_last() =~= all.take(i as int));
        insert_sorted(&mut out, list[i].clone());
        i = i + 1;
    }
    assert(all.take(i as int) =~= all);
    out
}

fn seek_entry(list: &Vec<ModuleEntry>, name: &str) -> (r: usize)
    ensures
        r == entry_at(views(list@), name@),
        r <= list@.len(),
{
    let ghost all = views(list@);
    let mut i: usize = 0;
    assert(all.skip(0) =~= all);
    while i < list.len()
        invariant
            i <= list@.len(),
            all == views(list@),
            entry_at(all, name@) == i + entry_at(all.skip(i as int), name@),
        decreases list@.len() - i,
    {
        assert(all.skip(i as int)[0] == list@[i as int]@);
        if same(list[i].name.as_str(), name) {
            return i;
        }
        assert(all.skip(i as int).drop_first() =~= all.skip(i + 1));
        i = i + 1;
    }
    i
}

fn add_entry(list: &mut Vec<ModuleEntry>, name: &str, priority: i32)
    ensures
        views(final(list)@) == with_module(views(old(list)@), name@, priority),
{
    let ghost all = views(list@);
    let i = seek_entry(list, name);
    if i < list.len() {
        let e = ModuleEntry { name: list[i].name.clone(), priority };
        list[i] = e;
        assert(views(list@) =~= all.update(
            i as int,
            ModuleEntryView { priority, ..all[i as int] },
        ));
    } else {
        list.push(ModuleEntry { name: name.to_owned(), priority });
        assert(views(list@) =~= all.push(ModuleEntryView { name: name@, priority }));
        *list = sorted(list);
    }
}

fn drop_entry(list: &Vec<ModuleEntry>, name: &str) -> (r: Vec<ModuleEntry>)
    ensures
        views(r@) == without_module(views(list@), name@),
{
    let ghost all = views(list@);
    let mut out: Vec<ModuleEntry> = Vec::new();
    let mut i: usize = 0;
    assert(views(out@) =~= without_module(all.take(0), name@));
    while i < list.len()
        invariant
            i <= list@.len(),
            all == views(list@),
            views(out@) == without_module(all.take(i as int), name@),
        decreases list@.len() - i,
    {
        assert(all.take(i + 1).drop_last() =~= all.take(i as int));
        let ghost before = out@;
        if !same(list[i].name.as_str(), name) {
            out.push(list[i].clone());
            assert(views(out@) =~= views(before).push(all[i as int]));
        }
        i = i + 1;
    }
    assert(all.take(i as int) =~= all);
    out
}

/// Adds a module to the settings. The file is to be written then.
pub fn add_module_to_config(config: &mut Config, name: &str, position: &str, priority: i32)
    ensures
        final(config)@ == module_added(old(config)@, name@, position@, priority),
{
    if same(position, "input") {
        add_entry(&mut config.inputs, name, priority);
    } else if same(position, "preprocess") {
        add_entry(&mut config.preprocess_modules, name, priority);
    } else if same(position, "inprocess") {
        add_entry(&mut config.inprocess_modules, name, priority);
    } else if same(position, "postprocess") {
        add_entry(&mut config.postprocess_modules, name, priority);
    }
}

/// Takes a module out of the settings. The file is to be written then.
pub fn remove_module_from_config(config: &mut Config, name: &str)
    ensures
        final(config)@ == module_removed(old(config)@, name@),
{
    config.inputs = drop_entry(&config.inputs, name);
    config.preprocess_modules = drop_entry(&config.preprocess_modules, name);
    config.inprocess_modules = drop_entry(&config.inprocess_modules, name);
    config.postprocess_modules = drop_entry(&config.postprocess_modules, name);
}

/// The modules of a stage, as they are configured.
pub open spec fn stage_entries(c: ConfigView, position: Seq<char>) -> Seq<ModuleEntryView> {
    if position == "input"@ || position == "connections"@ {
        c.inputs
    } else if position == "preprocess"@ {
        c.preprocess_modules
    } else if position == "inprocess"@ {
        c.inprocess_modules
    } else if position == "postprocess"@ {
        c.postprocess_modules
    } else {
        Seq::empty()
    }
}

/// The modules that a message to a stage goes to, in order.
pub fn broadcast_stage(config: &Config, position: &str) -> (r: Vec<ModuleEntry>)
    ensures
        views(r@) == by_priority(stage_entries(config@, position@)),
{
    if same(position, "input") || same(position, "connections") {
        sorted(&config.inputs)
    } else if same(position, "preprocess") {
        sorted(&config.preprocess_modules)
    } else if same(position, "inprocess") {
        sorted(&config.inprocess_modules)
    } else if same(position, "postprocess") {
        sorted(&config.postprocess_modules)
    } else {
        let none: Vec<ModuleEntry> = Vec::new();
        assert(views(none@) =~= Seq::<ModuleEntryView>::empty());
        sorted(&none)
    }
}

/// The names of some entries.
pub open spec fn entry_names(list: Seq<ModuleEntryView>) -> Seq<Seq<char>> {
    list.map_values(|e: ModuleEntryView| e.name)
}

fn names_of(list: &Vec<ModuleEntry>) -> (r: Vec<String>)
    ensures
        texts(r@) == entry_names(views(list@)),
{
    let mut out: Vec<String> = Vec::new();
    for i in 0..list.len()
        invariant
            out@.len() == i,
            forall|j: int| 0 <= j < i ==> (#[trigger] out@[j])@ == list@[j].name@,
    {
        out.push(list[i].name.clone());
    }
    assert(texts(out@) =~= entry_names(views(list@)));
    out
}

/// The pipeline's stages, as the settings give them.
pub fn pipeline_config(config: &Config) -> (r: PipelineConfig)
    ensures
        r@ == (PipelineConfigView {
            pre_process_modules: entry_names(config@.preprocess_modules),
            in_process_modules: entry_names(config@.inprocess_modules),
            post_process_modules: entry_names(config@.postprocess_modules),
            ack_timeout_ms: 3000,
            critical_modules: Seq::empty(),
        }),
{
    let r = PipelineConfig {
        pre_process_modules: names_of(&config.preprocess_modules),
        in_process_modules: names_of(&config.inprocess_modules),
        post_process_modules: names_of(&config.postprocess_modules),
        ack_timeout_ms: 3000,
        critical_modules: Vec::new(),
    };
    assert(texts(r.critical_modules@) =~= Seq::<Seq<char>>::empty());
    r
}

/// The settings as they were last read, where they lie, and the secrets.
pub struct ConfigState {
    pub path: String,
    pub last_size: u64,
    pub config: Config,
    /// The PIN that new modules connect with.
    pub pin: u32,
    /// The secret that tokens are signed with.
    pub jwt_secret: String,
}

/// The file with the secrets, in the directory of the settings.
pub fn env_path(dir: &str) -> (r: String)
    ensures
        r@ == path_in(dir@, ".env"@),
{
    join_path(dir, ".env")
}

/// The file with the approved modules, beside the settings.
pub fn modules_path(state: &ConfigState) -> (r: String)
    ensures
        r@ == path_in(dir_of(state.path@), "modules.json"@),
{
    join_path(parent_dir(state.path.as_str()).as_str(), "modules.json")
}

/// The PIN that new modules connect with.
pub fn get_pin(state: &ConfigState) -> (r: u32)
    ensures
        r == state.pin,
{
    state.pin
}

/// The secret that tokens are signed with.
pub fn get_jwt_secret(state: &ConfigState) -> (r: String)
    ensures
        r@ == state.jwt_secret@,
{
    state.jwt_secret.clone()
}

/// The settings, given the size of the file and what was read from it where its size
/// changed: settings that cannot be read leave the old ones in place.
pub fn get_config(state: &mut ConfigState, size: Option<u64>, read: Option<Config>) -> (r: Config)
    ensures
        r@ == final(state).config@,
        final(state).path@ == old(state).path@,
        final(state).pin == old(state).pin,
        final(state).jwt_secret@ == old(state).jwt_secret@,
        (match (size, read) {
            (Some(n), Some(c)) if n != old(state).last_size => final(state).config@ == c@
                && final(state).last_size == n,
            _ => final(state).config@ == old(state).config@ && final(state).last_size == old(
                state,
            ).last_size,
        }),
{
    if let Some(n) = size {
        if n != state.last_size {
            if let Some(c) = read {
                state.config = c;
                state.last_size = n;
            }
        }
    }
    state.config.clone()
}

/// The settings of a new installation.
pub open spec fn default_settings() -> Seq<char> {
    "{
    \"timeline_database_location\": \"./cockatiel_data.db\",
    \"timeline_database_backup_location\": \"./cockatiel_backup.db\",
    \"port\": 9734,
    \"inputs\": [],
    \"preprocessModules\": [],
    \"inprocessModules\": [],
    \"postprocessModules\": [],
    \"module_probe_interval_secs\": 30,
    \"module_probe_response_secs\": 15,
    \"module_approval_policy\": \"auto-deny\"
}"@
}

/// The text of the settings, and whether it has to be written: settings that are there are
/// never overwritten.
pub fn create_config(existing: Option<String>) -> (r: (String, bool))
    ensures
        (match existing {
            Some(t) => r.0@ == t@ && !r.1,
            None => r.0@ == default_settings() && r.1,
        }),
{
    match existing {
        Some(t) => (t, false),
        None => (
            "{
    \"timeline_database_location\": \"./cockatiel_data.db\",
    \"timeline_database_backup_location\": \"./cockatiel_backup.db\",
    \"port\": 9734,
    \"inputs\": [],
    \"preprocessModules\": [],
    \"inprocessModules\": [],
    \"postprocessModules\": [],
    \"module_probe_interval_secs\": 30,
    \"module_probe_response_secs\": 15,
    \"module_approval_policy\": \"auto-deny\"
}".to_owned(),
            true,
        ),
    }
}

/// A PIN that settings of old hold.
pub open spec fn legacy_pin(settings: Option<JsonView>) -> Option<u32> {
    match settings {
        Some(v) => match member(v, "paring_pin"@) {
            Some(JsonView::Pos(n)) => Some(n as u32),
            _ => None,
        },
        None => None,
    }
}

/// A signing secret that settings of old hold.
pub open spec fn legacy_secret(settings: Option<JsonView>) -> Option<Seq<char>> {
    match settings {
        Some(v) => match text_value(member(v, "jwt_secret"@)) {
            Some(s) => if s.len() > 0 {
                Some(s)
            } else {
                None
            },
            None => None,
        },
        None => None,
    }
}

/// The PIN: the environment's, else that of settings of old, else one made from a random
/// number.
pub open spec fn resolved_pin(
    env: Option<Seq<char>>,
    settings: Option<JsonView>,
    random: u128,
) -> u32 {
    match (match env {
        Some(t) => u32_of(t),
        None => None,
    }) {
        Some(n) => n,
        None => match legacy_pin(settings) {
            Some(n) => n,
            None => (100000 + random % 900000) as u32,
        },
    }
}

/// The signing secret: the environment's unless it is blank, else that of settings of old,
/// else a fresh one.
pub open spec fn resolved_secret(
    env: Option<Seq<char>>,
    settings: Option<JsonView>,
    fresh: Seq<char>,
) -> Seq<char> {
    match env {
        Some(t) if trim(t).len() > 0 => t,
        _ => match legacy_secret(settings) {
            Some(s) => s,
            None => fresh,
        },
    }
}

/// The secrets, given what the environment and the settings hold, a random number and a
/// fresh secret.
pub fn resolve_secrets(
    env_pin: Option<&str>,
    env_secret: Option<&str>,
    settings: Option<&Json>,
    random: u128,
    fresh: String,
) -> (r: (u32, String))
    ensures
        ({
            let seen = crate::json::view_of(settings);
            &&& r.0 == resolved_pin(
                opt_view(env_pin),
                seen,
                random,
            )
            &&& r.1@ == resolved_secret(
                opt_view(env_secret),
                seen,
                fresh@,
            )
        }),
{
    let given: Option<u32> = match env_pin {
        Some(t) => parse_u32(t),
        None => None,
    };
    let pin: u32 = match given {
        Some(n) => n,
        None => {
            let old: Option<u32> = match settings {
                Some(j) => match j.get("paring_pin") {
                    Some(Json::Pos(n)) => Some(*n as u32),
                    _ => None,
                },
                None => None,
            };
            match old {
                Some(n) => n,
                None => 100000 + (random % 900000) as u32,
            }
        },
    };
    if let Some(t) = env_secret {
        if trimmed(t).as_str().unicode_len() > 0 {
            return (pin, t.to_owned());
        }
    }
    if let Some(j) = settings {
        if let Some(Json::Text(s)) = j.get("jwt_secret") {
            if s.as_str().unicode_len() > 0 {
                return (pin, s.clone());
            }
        }
    }
    (pin, fresh)
}

/// What is kept in the file with the secrets.
pub open spec fn secret_entries(pin: u32, secret: Seq<char>) -> Seq<(Seq<char>, Seq<char>)> {
    seq![("COCKATIEL_PIN"@, decimal(pin as nat)), ("COCKATIEL_JWT_SECRET"@, secret)]
}

/// The settings without the secrets that settings of old hold; `None` where they hold none.
pub open spec fn stripped(settings: JsonView) -> Option<JsonView> {
    match settings {
        JsonView::Object(m) => if m.dom().contains("paring_pin"@) || m.dom().contains(
            "jwt_secret"@,
        ) {
            Some(JsonView::Object(m.remove("paring_pin"@).remove("jwt_secret"@)))
        } else {
            None
        },
        _ => None,
    }
}

/// The members with other keys.
fn drop_keys(v: &Vec<(String, Json)>, a: &str, b: &str) -> (r: Vec<(String, Json)>)
    ensures
        members(r@) == members(v@).remove(a@).remove(b@),
{
    let mut out = crate::json::no_members();
    let mut i: usize = 0;
    assert(v@.take(0) =~= Seq::<(String, Json)>::empty());
    assert(members(v@.take(0)) =~= Map::<Seq<char>, JsonView>::empty());
    assert(members(v@.take(0)).remove(a@).remove(b@) =~= members(out@));
    while i < v.len()
        invariant
            i <= v@.len(),
            members(out@) == members(v@.take(i as int)).remove(a@).remove(b@),
        decreases v@.len() - i,
    {
        proof {
            crate::json::lemma_members_push(v@.take(i as int), v@[i as int].0, v@[i as int].1);
            assert(v@.take(i + 1) =~= v@.take(i as int).push(v@[i as int]));
        }
        let ghost before = members(out@);
        let key = v[i].0.as_str();
        if !same(key, a) && !same(key, b) {
            crate::json::put(&mut out, key, v[i].1.clone());
        }
        assert(members(out@) =~= members(v@.take(i + 1)).remove(a@).remove(b@));
        i = i + 1;
    }
    assert(v@.take(i as int) =~= v@);
    out
}

/// The settings without the secrets that settings of old hold; `None` where they hold none.
pub fn strip_secrets(settings: &Json) -> (r: Option<Json>)
    ensures
        opt_view(r) == stripped(settings@),
{
    proof {
        crate::json::lemma_json_view(*settings);
    }
    match settings {
        Json::Object(v) => {
            if settings.get("paring_pin").is_some() || settings.get("jwt_secret").is_some() {
                Some(object(drop_keys(v, "paring_pin", "jwt_secret")))
            } else {
                None
            }
        },
        _ => None,
    }
}

/// The secrets, and what has to be written: the file with the secrets, given the text it
/// has, and the settings where they still held secrets. The secrets are then set.
pub fn ensure_secrets(
    state: &mut ConfigState,
    env_pin: Option<&str>,
    env_secret: Option<&str>,
    settings: Option<&str>,
    env_text: &str,
) -> (r: (String, Option<String>))
    ensures
        final(state).path@ == old(state).path@,
        final(state).config@ == old(state).config@,
        final(state).last_size == old(state).last_size,
        r.0@ == lines_text(
            with_lines(
                lines(env_text@),
                secret_entries(final(state).pin, final(state).jwt_secret@),
            ),
        ),
        exists|random: u128, fresh: Seq<char>|
            version_of(random) == 4 && is_uuid_text(fresh, 4) && final(state).pin == #[trigger] resolved_pin(
                opt_view(env_pin),
                settings_seen(settings),
                random,
            ) && final(state).jwt_secret@ == #[trigger] resolved_secret(
                opt_view(env_secret),
                settings_seen(settings),
                fresh,
            ),
        (match settings_seen(settings) {
            Some(v) => match stripped(v) {
                Some(s) => r.1 matches Some(t) && t@ == json_pretty(s) && (reads_back(s)
                    ==> json_read(t@) == Ok::<JsonView, Seq<char>>(s)),
                None => r.1 is None,
            },
            None => r.1 is None,
        }),
{
    let parsed: Option<Json> = match settings {
        Some(t) => match parse_json(t) {
            Ok(j) => Some(j),
            Err(_) => None,
        },
        None => None,
    };
    let random = fresh_v4();
    let fresh = fresh_uuid4();
    let (pin, secret) = match &parsed {
        Some(j) => resolve_secrets(env_pin, env_secret, Some(j), random, fresh),
        None => resolve_secrets(env_pin, env_secret, None, random, fresh),
    };
    let mut entries: Vec<(String, String)> = Vec::new();
    entries.push(("COCKATIEL_PIN".to_owned(), u64_text(pin as u64)));
    entries.push(("COCKATIEL_JWT_SECRET".to_owned(), secret.clone()));
    assert(pair_views(entries@) =~= secret_entries(pin, secret@));
    let text = write_env_map(env_text, &entries);
    let pretty: Option<String> = match &parsed {
        Some(j) => match strip_secrets(j) {
            Some(s) => Some(write_pretty(&s)),
            None => None,
        },
        None => None,
    };
    state.pin = pin;
    state.jwt_secret = secret;
    (text, pretty)
}

/// What the text of the settings says, where it can be read.
pub open spec fn settings_seen(settings: Option<&str>) -> Option<JsonView> {
    match settings {
        Some(t) => match json_read(t@) {
            Ok(v) => Some(v),
            Err(_) => None,
        },
        None => None,
    }
}

/// A PIN that had to be made has six digits.
pub proof fn law_made_pin_has_six_digits(random: u128)
    ensures
        100000 <= resolved_pin(None, None, random) <= 999999,
{
}

/// Secrets survive a restart: a process that starts without them takes them over from the
/// environment file that was written, and they are resolved again from there, whatever the
/// settings and chance say. Left out are a secret that is blank or cannot stand on a line as
/// it is, and a file that defines one of the two otherwise before the line that is replaced.
pub proof fn law_secrets_survive_restart(
    env_text: Seq<char>,
    pin: u32,
    secret: Seq<char>,
    present: Seq<Seq<char>>,
    settings: Option<JsonView>,
    random: u128,
    fresh: Seq<char>,
)
    requires
        plain_value(secret),
        secret.len() > 0,
        defines_first(lines(env_text), "COCKATIEL_PIN"@, decimal(pin as nat)),
        defines_first(lines(env_text), "COCKATIEL_JWT_SECRET"@, secret),
        !present.contains("COCKATIEL_PIN"@),
        !present.contains("COCKATIEL_JWT_SECRET"@),
    ensures
        ({
            let written = lines_text(with_lines(lines(env_text), secret_entries(pin, secret)));
            let taken = to_set(line_entries(lines(written)), present);
            &&& first_value(taken, "COCKATIEL_PIN"@) is Some
            &&& first_value(taken, "COCKATIEL_JWT_SECRET"@) is Some
            &&& resolved_pin(first_value(taken, "COCKATIEL_PIN"@), settings, random) == pin
            &&& resolved_secret(first_value(taken, "COCKATIEL_JWT_SECRET"@), settings, fresh)
                == secret
        }),
{
    reveal_strlit("COCKATIEL_PIN");
    reveal_strlit("COCKATIEL_JWT_SECRET");
    let (a, b) = ("COCKATIEL_PIN"@, "COCKATIEL_JWT_SECRET"@);
    assert(a.len() != b.len());
    lemma_trim_id(a);
    lemma_trim_id(b);
    assert(plain_key(a));
    assert(plain_key(b));
    let digits = decimal(pin as nat);
    lemma_decimal(pin as nat);
    lemma_decimal_is_read(pin);
    assert(is_digit(digits[0]) && is_digit(digits[digits.len() - 1]));
    lemma_trim_id(digits);
    assert(unquote_start(digits) == digits);
    assert(unquote_end(digits) == digits);
    assert(!digits.contains('\n')) by {
        if digits.contains('\n') {
            let i = choose|i: int| 0 <= i < digits.len() && digits[i] == '\n';
            assert(is_digit(digits[i]));
        }
    }
    assert(secret_entries(pin, secret) =~= seq![(a, digits), (b, secret)]);
    law_written_values_are_taken(env_text, (a, digits), (b, secret), present);
}

/// Nothing of the old secrets is left in the settings that are written.
pub proof fn law_stripped_settings_hold_no_secret(settings: JsonView)
    ensures
        (stripped(settings) matches Some(s) ==> member(s, "paring_pin"@) is None && member(
            s,
            "jwt_secret"@,
        ) is None),
{
}

proof fn lemma_insert_entry(list: Seq<ModuleEntryView>, e: ModuleEntryView)
    requires
        in_order(list),
    ensures
        in_order(insert_entry(list, e)),
        insert_entry(list, e).to_multiset() == list.to_multiset().insert(e),
        insert_entry(list, e).len() == list.len() + 1,
        insert_entry(list, e).last().priority >= e.priority,
        list.len() > 0 ==> insert_entry(list, e).last().priority >= list.last().priority,
        list.len() > 0 ==> insert_entry(list, e).last().priority == e.priority || insert_entry(
            list,
            e,
        ).last() == list.last(),
    decreases list.len(),
{
    broadcast use vstd::seq_lib::group_to_multiset_ensures;

    let after = insert_entry(list, e);
    if list.len() == 0 || list.last().priority <= e.priority {
        assert forall|i: int, j: int| 0 <= i <= j < after.len() implies (#[trigger] after[i]).priority
            <= (#[trigger] after[j]).priority by {
            if j < list.len() {
                assert(list[i].priority <= list[j].priority);
            } else if i < list.len() {
                assert(list[i].priority <= list[list.len() - 1].priority);
            }
        }
    } else {
        let t = list.drop_last();
        assert forall|i: int, j: int| 0 <= i <= j < t.len() implies (#[trigger] t[i]).priority <= (
        #[trigger] t[j]).priority by {
            assert(list[i].priority <= list[j].priority);
        }
        lemma_insert_entry(t, e);
        let front = insert_entry(t, e);
        if t.len() > 0 {
            assert(list[t.len() - 1].priority <= list[list.len() - 1].priority);
        }
        assert forall|i: int, j: int| 0 <= i <= j < after.len() implies (#[trigger] after[i]).priority
            <= (#[trigger] after[j]).priority by {
            if j < front.len() {
                assert(front[i].priority <= front[j].priority);
            } else if i < front.len() {
                assert(front[i].priority <= front[front.len() - 1].priority);
            }
        }
        assert(list =~= t.push(list.last()));
        assert(after.to_multiset() =~= list.to_multiset().insert(e));
    }
}

/// A list by priority.
pub open spec fn in_order(list: Seq<ModuleEntryView>) -> bool {
    forall|i: int, j: int|
        0 <= i <= j < list.len() ==> (#[trigger] list[i]).priority <= (#[trigger] list[j]).priority
}

/// Messages reach a stage's modules in the order of their priorities, each module once for
/// each entry.
pub proof fn law_stage_is_in_order(list: Seq<ModuleEntryView>)
    ensures
        in_order(by_priority(list)),
        by_priority(list).to_multiset() == list.to_multiset(),
    decreases list.len(),
{
    broadcast use vstd::seq_lib::group_to_multiset_ensures;

    if list.len() > 0 {
        law_stage_is_in_order(list.drop_last());
        lemma_insert_entry(by_priority(list.drop_last()), list.last());
        assert(list =~= list.drop_last().push(list.last()));
    } else {
        assert(by_priority(list) =~= list);
    }
}

/// A module that was added has an entry with its priority, and no other module lost its
/// own.
pub proof fn law_added_module_is_listed(
    list: Seq<ModuleEntryView>,
    name: Seq<char>,
    priority: i32,
    e: ModuleEntryView,
)
    ensures
        with_module(list, name, priority).contains(ModuleEntryView { name, priority }),
        list.contains(e) && e.name != name ==> with_module(list, name, priority).contains(e),
{
    broadcast use vstd::seq_lib::group_to_multiset_ensures;

    lemma_entry_at(list, name);
    let i = entry_at(list, name) as int;
    let after = with_module(list, name, priority);
    if i < list.len() {
        assert(after[i] == ModuleEntryView { name, priority });
        if list.contains(e) && e.name != name {
            let j = choose|j: int| 0 <= j < list.len() && list[j] == e;
            assert(after[j] == e);
        }
    } else {
        let grown = list.push(ModuleEntryView { name, priority });
        law_stage_is_in_order(grown);
        assert(grown[list.len() as int] == ModuleEntryView { name, priority });
        assert(grown.contains(ModuleEntryView { name, priority }));
        assert(grown.to_multiset().count(ModuleEntryView { name, priority }) > 0);
        if list.contains(e) {
            let j = choose|j: int| 0 <= j < list.len() && list[j] == e;
            assert(grown[j] == e);
            assert(grown.contains(e));
            assert(grown.to_multiset().count(e) > 0);
        }
    }
}

proof fn lemma_entry_at(list: Seq<ModuleEntryView>, name: Seq<char>)
    ensures
        entry_at(list, name) <= list.len(),
        entry_at(list, name) < list.len() ==> list[entry_at(list, name) as int].name == name,
    decreases list.len(),
{
    if list.len() > 0 && list[0].name != name {
        lemma_entry_at(list.drop_first(), name);
    }
}

} // verus!
