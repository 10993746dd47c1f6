//! The timeline database: the statements that keep it, and what its rows say.
//!
//! The driver is outside: each operation gives the statement to run, and rows come back as
//! plain values.
use crate::clock::now_ms;
use crate::json::{
    int_json, items, json_int, json_opt_int, json_opt_str, json_str, json_text, list, members,
    no_members, object, opt_int_json, opt_text_json, put, write_json, Json, JsonView,
};
use crate::proto::{clone_all, clone_bytes, clone_opt, opt_view, views};
use crate::random::{fresh_v7, id_bytes, to_id_bytes, version_of};
use crate::text::{
    begins_with, decimal, find, lemma_find, name_listed, same, slice, split_on, split_pieces,
    texts, trim, trimmed, u64_text,
};
use vstd::prelude::*;

verus! {

/// The version of the tables.
pub const SCHEMA_VERSION: i32 = 1;

/// A value of the database.
#[derive(Debug)]
pub enum SqlValue {
    Null,
    Integer(i64),
    /// A real number as JSON writes it; `None` where JSON cannot.
    Real(Option<String>),
    Text(String),
    Blob(Vec<u8>),
}

/// What a [`SqlValue`] says.
#[verifier::ext_equal]
pub enum SqlValueView {
    Null,
    Integer(i64),
    Real(Option<Seq<char>>),
    Text(Seq<char>),
    Blob(Seq<u8>),
}

impl View for SqlValue {
    type V = SqlValueView;

    open spec fn view(&self) -> SqlValueView {
        match *self {
            SqlValue::Null => SqlValueView::Null,
            SqlValue::Integer(x) => SqlValueView::Integer(x),
            SqlValue::Real(x) => SqlValueView::Real(opt_view(x)),
            SqlValue::Text(x) => SqlValueView::Text(x@),
            SqlValue::Blob(x) => SqlValueView::Blob(x@),
        }
    }
}

impl Clone for SqlValue {
    fn clone(&self) -> (r: Self)
        ensures
            r@ == self@,
    {
        match self {
            SqlValue::Null => SqlValue::Null,
            SqlValue::Integer(x) => SqlValue::Integer(*x),
            SqlValue::Real(x) => SqlValue::Real(clone_opt(x)),
            SqlValue::Text(x) => SqlValue::Text(x.clone()),
            SqlValue::Blob(x) => SqlValue::Blob(clone_bytes(x)),
        }
    }
}

/// A statement and its parameters.
#[derive(Debug)]
pub struct Statement {
    pub sql: String,
    pub params: Vec<SqlValue>,
}

/// What a [`Statement`] says.
#[verifier::ext_equal]
pub struct StatementView {
    pub sql: Seq<char>,
    pub params: Seq<SqlValueView>,
}

impl View for Statement {
    type V = StatementView;

    open spec fn view(&self) -> StatementView {
        StatementView {
            sql: self.sql@,
            params: views(self.params@),
        }
    }
}

impl Clone for Statement {
    fn clone(&self) -> (r: Self)
        ensures
            r@ == self@,
    {
        Statement {
            sql: self.sql.clone(),
            params: clone_all(&self.params),
        }
    }
}

/// Where the database lies, where its backup lies, and how large it should grow.
#[derive(Debug)]
pub struct DatabaseConfig {
    pub local_path: String,
    pub remote_url: Option<String>,
    pub sync_interval_secs: u32,
    pub local_target_mb: u32,
}

/// What a [`DatabaseConfig`] says.
#[verifier::ext_equal]
pub struct DatabaseConfigView {
    pub local_path: Seq<char>,
    pub remote_url: Option<Seq<char>>,
    pub sync_interval_secs: u32,
    pub local_target_mb: u32,
}

impl View for DatabaseConfig {
    type V = DatabaseConfigView;

    open spec fn view(&self) -> DatabaseConfigView {
        DatabaseConfigView {
            local_path: self.local_path@,
            remote_url: opt_view(self.remote_url),
            sync_interval_secs: self.sync_interval_secs,
            local_target_mb: self.local_target_mb,
        }
    }
}

impl Clone for DatabaseConfig {
    fn clone(&self) -> (r: Self)
        ensures
            r@ == self@,
    {
        DatabaseConfig {
            local_path: self.local_path.clone(),
            remote_url: clone_opt(&self.remote_url),
            sync_interval_secs: self.sync_interval_secs,
            local_target_mb: self.local_target_mb,
        }
    }
}

fn statement(sql: &str, params: Vec<SqlValue>) -> (r: Statement)
    ensures
        r@ == (StatementView { sql: sql@, params: views(params@) }),
{
    Statement { sql: sql.to_owned(), params }
}

/// The statements that make the tables.
pub open spec fn timeline_schema() -> Seq<Seq<char>> {
    seq![
        "CREATE TABLE IF NOT EXISTS timeline_events (
    uuid7 BLOB PRIMARY KEY,
    schema_version INTEGER NOT NULL DEFAULT 1,
    event_type INTEGER NOT NULL DEFAULT 1,
    platform TEXT,
    raw_data BLOB,
    raw_message TEXT NOT NULL,
    command TEXT,
    flags TEXT,
    data_blob BLOB,
    user_uuid7 TEXT,
    processed_message TEXT,
    error_message TEXT,
    pre_process_completed_at INTEGER,
    in_process_completed_at INTEGER,
    post_process_completed_at INTEGER,
    persisted_at INTEGER,
    pipeline_status TEXT NOT NULL DEFAULT 'queued',
    synced_at INTEGER
)"@,
        "CREATE INDEX IF NOT EXISTS idx_timeline_synced ON timeline_events(synced_at)"@,
        "CREATE INDEX IF NOT EXISTS idx_timeline_status ON timeline_events(pipeline_status)"@,
    ]
}

/// The statements that make the tables.
pub fn open_local() -> (r: Vec<String>)
    ensures
        texts(r@) == timeline_schema(),
{
    let mut out: Vec<String> = Vec::new();
    out.push(
        "CREATE TABLE IF NOT EXISTS timeline_events (
    uuid7 BLOB PRIMARY KEY,
    schema_version INTEGER NOT NULL DEFAULT 1,
    event_type INTEGER NOT NULL DEFAULT 1,
    platform TEXT,
    raw_data BLOB,
    raw_message TEXT NOT NULL,
    command TEXT,
    flags TEXT,
    data_blob BLOB,
    user_uuid7 TEXT,
    processed_message TEXT,
    error_message TEXT,
    pre_process_completed_at INTEGER,
    in_process_completed_at INTEGER,
    post_process_completed_at INTEGER,
    persisted_at INTEGER,
    pipeline_status TEXT NOT NULL DEFAULT 'queued',
    synced_at INTEGER
)".to_owned(),
    );
    out.push(
        "CREATE INDEX IF NOT EXISTS idx_timeline_synced ON timeline_events(synced_at)".to_owned(),
    );
    out.push(
        "CREATE INDEX IF NOT EXISTS idx_timeline_status ON timeline_events(pipeline_status)".to_owned(),
    );
    assert(texts(out@) =~= timeline_schema());
    out
}

/// The column that keeps when a stage was done.
pub open spec fn stage_column(stage: Seq<char>) -> Option<Seq<char>> {
    if stage == "pre_process"@ {
        Some("pre_process_completed_at"@)
    } else if stage == "in_process"@ {
        Some("in_process_completed_at"@)
    } else if stage == "post_process"@ {
        Some("post_process_completed_at"@)
    } else if stage == "persisted"@ {
        Some("persisted_at"@)
    } else {
        None
    }
}

/// How the content type of audio is noted among the flags.
pub open spec fn audio_marker(audio_type: Seq<char>) -> Seq<char> {
    "audio_type="@ + audio_type
}

/// The flags with the content type of audio; unchanged where it is noted already.
pub open spec fn with_audio_type(flags: Seq<char>, audio_type: Seq<char>) -> Seq<char> {
    let marker = audio_marker(audio_type);
    if split_on(flags, ',').contains(marker) {
        flags
    } else if flags.len() == 0 {
        marker
    } else {
        flags + ","@ + marker
    }
}

/// The flags with the content type of audio.
pub fn add_audio_type(flags: &str, audio_type: &str) -> (r: String)
    ensures
        r@ == with_audio_type(flags@, audio_type@),
{
    let mut marker = "audio_type=".to_owned();
    marker.append(audio_type);
    let pieces = split_pieces(flags, ',');
    if name_listed(&pieces, marker.as_str()) {
        return flags.to_owned();
    }
    if flags.unicode_len() == 0 {
        return marker;
    }
    let mut r = flags.to_owned();
    r.append(",");
    r.append(marker.as_str());
    r
}

/// The content type that the first flag which notes one gives.
pub open spec fn noted_type(pieces: Seq<Seq<char>>) -> Option<Seq<char>>
    decreases pieces.len(),
{
    if pieces.len() == 0 {
        None
    } else if "audio_type="@.is_prefix_of(pieces[0]) {
        Some(pieces[0].skip("audio_type="@.len() as int))
    } else {
        noted_type(pieces.drop_first())
    }
}

/// The content type that flags note; MPEG audio where they note none.
pub open spec fn audio_type_of(flags: Seq<char>) -> Seq<char> {
    match noted_type(split_on(flags, ',')) {
        Some(t) => t,
        None => "audio/mpeg"@,
    }
}

/// The content type that flags note.
pub fn read_audio_type(flags: &str) -> (r: String)
    ensures
        r@ == audio_type_of(flags@),
{
    let pieces = split_pieces(flags, ',');
    let ghost all = texts(pieces@);
    let mut i: usize = 0;
    assert(all.skip(0) =~= all);
    while i < pieces.len()
        invariant
            i <= pieces@.len(),
            all == texts(pieces@),
            all == split_on(flags@, ','),
            noted_type(all) == noted_type(all.skip(i as int)),
        decreases pieces@.len() - i,
    {
        let p = pieces[i].as_str();
        assert(all.skip(i as int)[0] == p@);
        if begins_with(p, "audio_type=") {
            let n = "audio_type=".unicode_len();
            let r = slice(p, n, p.unicode_len());
            assert(r@ =~= p@.skip(n as int));
            return r;
        }
        assert(all.skip(i as int).drop_first() =~= all.skip(i + 1));
        i = i + 1;
    }
    "audio/mpeg".to_owned()
}

/// The statement that keeps an event for the record only.
pub open spec fn archival_statement(
    uuid7: Seq<u8>,
    platform: Seq<char>,
    command: Seq<char>,
    raw_message: Seq<char>,
    flags: Seq<char>,
    now_ms: i64,
) -> StatementView {
    StatementView {
        sql: "INSERT INTO timeline_events (uuid7, schema_version, event_type, platform, raw_message, command, flags, pipeline_status, synced_at) VALUES (?1, ?2, ?3, ?4, ?5, ?6, ?7, 'complete', ?8)"@,
        params: seq![SqlValueView::Blob(uuid7), SqlValueView::Integer(SCHEMA_VERSION as i64), SqlValueView::Integer(5), SqlValueView::Text(platform), SqlValueView::Text(raw_message), SqlValueView::Text(command), SqlValueView::Text(flags), SqlValueView::Integer(now_ms)],
    }
}

/// The statement that marks a message as synced.
pub open spec fn synced_statement(uuid7: Seq<u8>, now_ms: i64) -> StatementView {
    StatementView {
        sql: "UPDATE timeline_events SET synced_at = ?1 WHERE uuid7 = ?2"@,
        params: seq![SqlValueView::Integer(now_ms), SqlValueView::Blob(uuid7)],
    }
}

/// What is kept of a message.
#[derive(Debug)]
pub struct EventRow {
    pub schema_version: i32,
    pub event_type: i32,
    pub platform: Option<String>,
    pub raw_message: String,
    pub command: Option<String>,
    pub flags: Option<String>,
    pub user_uuid7: Option<String>,
    pub processed_message: Option<String>,
    pub error_message: Option<String>,
    pub pre_process_completed_at: Option<i64>,
    pub in_process_completed_at: Option<i64>,
    pub post_process_completed_at: Option<i64>,
    pub persisted_at: Option<i64>,
    pub pipeline_status: String,
    pub synced_at: Option<i64>,
}

/// What a [`EventRow`] says.
#[verifier::ext_equal]
pub struct EventRowView {
    pub schema_version: i32,
    pub event_type: i32,
    pub platform: Option<Seq<char>>,
    pub raw_message: Seq<char>,
    pub command: Option<Seq<char>>,
    pub flags: Option<Seq<char>>,
    pub user_uuid7: Option<Seq<char>>,
    pub processed_message: Option<Seq<char>>,
    pub error_message: Option<Seq<char>>,
    pub pre_process_completed_at: Option<i64>,
    pub in_process_completed_at: Option<i64>,
    pub post_process_completed_at: Option<i64>,
    pub persisted_at: Option<i64>,
    pub pipeline_status: Seq<char>,
    pub synced_at: Option<i64>,
}

impl View for EventRow {
    type V = EventRowView;

    open spec fn view(&self) -> EventRowView {
        EventRowView {
            schema_version: self.schema_version,
            event_type: self.event_type,
            platform: opt_view(self.platform),
            raw_message: self.raw_message@,
            command: opt_view(self.command),
            flags: opt_view(self.flags),
            user_uuid7: opt_view(self.user_uuid7),
            processed_message: opt_view(self.processed_message),
            error_message: opt_view(self.error_message),
            pre_process_completed_at: self.pre_process_completed_at,
            in_process_completed_at: self.in_process_completed_at,
            post_process_completed_at: self.post_process_completed_at,
            persisted_at: self.persisted_at,
            pipeline_status: self.pipeline_status@,
            synced_at: self.synced_at,
        }
    }
}

impl Clone for EventRow {
    fn clone(&self) -> (r: Self)
        ensures
            r@ == self@,
    {
        EventRow {
            schema_version: self.schema_version,
            event_type: self.event_type,
            platform: clone_opt(&self.platform),
            raw_message: self.raw_message.clone(),
            command: clone_opt(&self.command),
            flags: clone_opt(&self.flags),
            user_uuid7: clone_opt(&self.user_uuid7),
            processed_message: clone_opt(&self.processed_message),
            error_message: clone_opt(&self.error_message),
            pre_process_completed_at: self.pre_process_completed_at,
            in_process_completed_at: self.in_process_completed_at,
            post_process_completed_at: self.post_process_completed_at,
            persisted_at: self.persisted_at,
            pipeline_status: self.pipeline_status.clone(),
            synced_at: self.synced_at,
        }
    }
}

/// What is kept of a message that is held for review.
#[derive(Debug)]
pub struct AuditRow {
    pub uuid7: Vec<u8>,
    pub platform: Option<String>,
    pub raw_message: String,
    pub user_uuid7: Option<String>,
    pub flags: Option<String>,
    pub persisted_at: Option<i64>,
}

/// What a [`AuditRow`] says.
#[verifier::ext_equal]
pub struct AuditRowView {
    pub uuid7: Seq<u8>,
    pub platform: Option<Seq<char>>,
    pub raw_message: Seq<char>,
    pub user_uuid7: Option<Seq<char>>,
    pub flags: Option<Seq<char>>,
    pub persisted_at: Option<i64>,
}

impl View for AuditRow {
    type V = AuditRowView;

    open spec fn view(&self) -> AuditRowView {
        AuditRowView {
            uuid7: self.uuid7@,
            platform: opt_view(self.platform),
            raw_message: self.raw_message@,
            user_uuid7: opt_view(self.user_uuid7),
            flags: opt_view(self.flags),
            persisted_at: self.persisted_at,
        }
    }
}

impl Clone for AuditRow {
    fn clone(&self) -> (r: Self)
        ensures
            r@ == self@,
    {
        AuditRow {
            uuid7: clone_bytes(&self.uuid7),
            platform: clone_opt(&self.platform),
            raw_message: self.raw_message.clone(),
            user_uuid7: clone_opt(&self.user_uuid7),
            flags: clone_opt(&self.flags),
            persisted_at: self.persisted_at,
        }
    }
}
/// What is kept of a message, as a value.
pub open spec fn event_json(row: EventRowView) -> JsonView {
    JsonView::Object(
        Map::<Seq<char>, JsonView>::empty()
            .insert("schema_version"@, int_json(row.schema_version as i64))
            .insert("event_type"@, int_json(row.event_type as i64))
            .insert("platform"@, opt_text_json(row.platform))
            .insert("raw_message"@, JsonView::Text(row.raw_message))
            .insert("command"@, opt_text_json(row.command))
            .insert("flags"@, opt_text_json(row.flags))
            .insert("user_uuid7"@, opt_text_json(row.user_uuid7))
            .insert("processed_message"@, opt_text_json(row.processed_message))
            .insert("error_message"@, opt_text_json(row.error_message))
            .insert("pre_process_completed_at"@, opt_int_json(row.pre_process_completed_at))
            .insert("in_process_completed_at"@, opt_int_json(row.in_process_completed_at))
            .insert("post_process_completed_at"@, opt_int_json(row.post_process_completed_at))
            .insert("persisted_at"@, opt_int_json(row.persisted_at))
            .insert("pipeline_status"@, JsonView::Text(row.pipeline_status))
            .insert("synced_at"@, opt_int_json(row.synced_at)),
    )
}

/// What is kept of a message, as a value.
pub fn event_value(row: &EventRow) -> (r: Json)
    ensures
        r@ == event_json(row@),
{
    let mut m = no_members();
    put(&mut m, "schema_version", json_int(row.schema_version as i64));
    put(&mut m, "event_type", json_int(row.event_type as i64));
    put(&mut m, "platform", json_opt_str(&row.platform));
    put(&mut m, "raw_message", json_str(row.raw_message.as_str()));
    put(&mut m, "command", json_opt_str(&row.command));
    put(&mut m, "flags", json_opt_str(&row.flags));
    put(&mut m, "user_uuid7", json_opt_str(&row.user_uuid7));
    put(&mut m, "processed_message", json_opt_str(&row.processed_message));
    put(&mut m, "error_message", json_opt_str(&row.error_message));
    put(&mut m, "pre_process_completed_at", json_opt_int(row.pre_process_completed_at));
    put(&mut m, "in_process_completed_at", json_opt_int(row.in_process_completed_at));
    put(&mut m, "post_process_completed_at", json_opt_int(row.post_process_completed_at));
    put(&mut m, "persisted_at", json_opt_int(row.persisted_at));
    put(&mut m, "pipeline_status", json_str(row.pipeline_status.as_str()));
    put(&mut m, "synced_at", json_opt_int(row.synced_at));
    object(m)
}

/// What the question about a held message shows.
pub open spec fn audit_entry_json(row: AuditRowView) -> JsonView {
    JsonView::Object(
        Map::<Seq<char>, JsonView>::empty()
            .insert("platform"@, opt_text_json(row.platform))
            .insert("raw_message"@, JsonView::Text(row.raw_message))
            .insert("user_uuid7"@, opt_text_json(row.user_uuid7))
            .insert("reason"@, opt_text_json(row.flags)),
    )
}

/// What the question about a held message shows.
pub fn audit_entry_value(row: &AuditRow) -> (r: Json)
    ensures
        r@ == audit_entry_json(row@),
{
    let mut m = no_members();
    put(&mut m, "platform", json_opt_str(&row.platform));
    put(&mut m, "raw_message", json_str(row.raw_message.as_str()));
    put(&mut m, "user_uuid7", json_opt_str(&row.user_uuid7));
    put(&mut m, "reason", json_opt_str(&row.flags));
    object(m)
}

/// A held message in a list.
pub open spec fn audit_row_json(row: AuditRowView) -> JsonView {
    JsonView::Object(
        Map::<Seq<char>, JsonView>::empty()
            .insert("uuid7"@, JsonView::Text(lossy_text(row.uuid7)))
            .insert("platform"@, opt_text_json(row.platform))
            .insert("raw_message"@, JsonView::Text(row.raw_message))
            .insert("user_uuid7"@, opt_text_json(row.user_uuid7))
            .insert("reason"@, opt_text_json(row.flags))
            .insert("persisted_at"@, opt_int_json(row.persisted_at)),
    )
}

/// A held message in a list.
pub fn audit_row_value(row: &AuditRow) -> (r: Json)
    ensures
        r@ == audit_row_json(row@),
{
    let mut m = no_members();
    put(&mut m, "uuid7", json_str(bytes_as_text(&row.uuid7).as_str()));
    put(&mut m, "platform", json_opt_str(&row.platform));
    put(&mut m, "raw_message", json_str(row.raw_message.as_str()));
    put(&mut m, "user_uuid7", json_opt_str(&row.user_uuid7));
    put(&mut m, "reason", json_opt_str(&row.flags));
    put(&mut m, "persisted_at", json_opt_int(row.persisted_at));
    object(m)
}

/// A database value as JSON.
pub open spec fn cell_json(v: SqlValueView) -> JsonView {
    match v {
        SqlValueView::Null => JsonView::Null,
        SqlValueView::Integer(n) => int_json(n),
        SqlValueView::Real(Some(t)) => JsonView::Float(t),
        SqlValueView::Real(None) => JsonView::Null,
        SqlValueView::Text(t) => JsonView::Text(t),
        SqlValueView::Blob(b) => JsonView::Text(lossy_text(b)),
    }
}

fn cell_value(v: &SqlValue) -> (r: Json)
    ensures
        r@ == cell_json(v@),
{
    match v {
        SqlValue::Null => Json::Null,
        SqlValue::Integer(n) => json_int(*n),
        SqlValue::Real(Some(t)) => Json::Float(t.clone()),
        SqlValue::Real(None) => Json::Null,
        SqlValue::Text(t) => json_str(t.as_str()),
        SqlValue::Blob(b) => json_str(bytes_as_text(b).as_str()),
    }
}

/// The name of a column; a column without one is named by its number.
pub open spec fn column_name(columns: Seq<Seq<char>>, i: int) -> Seq<char> {
    if i < columns.len() {
        columns[i]
    } else {
        "col_"@ + decimal(i as nat)
    }
}

/// The first `n` cells of a row under their columns' names; of two columns with one name,
/// the later counts.
pub open spec fn row_members(
    columns: Seq<Seq<char>>,
    row: Seq<SqlValueView>,
    n: nat,
) -> Map<Seq<char>, JsonView>
    decreases n,
{
    if n == 0 {
        Map::empty()
    } else {
        row_members(columns, row, (n - 1) as nat).insert(
            column_name(columns, n - 1),
            cell_json(row[n - 1]),
        )
    }
}

/// A row as a value.
pub open spec fn row_json(columns: Seq<Seq<char>>, row: Seq<SqlValueView>) -> JsonView {
    JsonView::Object(row_members(columns, row, row.len()))
}

fn row_value(columns: &Vec<String>, row: &Vec<SqlValue>) -> (r: Json)
    ensures
        r@ == row_json(texts(columns@), views(row@)),
{
    let mut m = no_members();
    for i in 0..row.len()
        invariant
            members(m@) == row_members(texts(columns@), views(row@), i as nat),
    {
        let v = cell_value(&row[i]);
        assert(views(row@)[i as int] == row@[i as int]@);
        if i < columns.len() {
            assert(texts(columns@)[i as int] == columns@[i as int]@);
            put(&mut m, columns[i].as_str(), v);
        } else {
            let mut name = "col_".to_owned();
            name.append(u64_text(i as u64).as_str());
            put(&mut m, name.as_str(), v);
        }
    }
    object(m)
}

/// The rows of a result as values.
pub open spec fn rows_json(columns: Seq<Seq<char>>, rows: Seq<Vec<SqlValue>>) -> JsonView {
    JsonView::List(Seq::new(rows.len(), |i: int| row_json(columns, views(rows[i]@))))
}

/// What to do when the database cannot be opened.
#[derive(Debug)]
pub enum Recovery {
    /// Copy the backup over it and open it again.
    Restore,
    /// Give up, for this reason.
    GiveUp(String),
}

/// The database: where it lies and how it is backed up.
#[derive(Debug)]
pub struct DatabaseManager {
    config: DatabaseConfig,
}

/// Calls `String::from_utf8_lossy`. What it makes of bytes depends on them alone.
pub uninterp spec fn lossy_text(bytes: Seq<u8>) -> Seq<char>;

/// Calls `String::from_utf8_lossy`. The text depends on the bytes alone.
#[verifier::external_body]
pub(crate) fn bytes_as_text(bytes: &Vec<u8>) -> (r: String)
    ensures
        r@ == lossy_text(bytes@),
{
    String::from_utf8_lossy(bytes).into_owned()
}

impl DatabaseManager {
    /// Where the database lies and how it is backed up.
    pub closed spec fn settings(&self) -> DatabaseConfigView {
        self.config@
    }

    /// A database that was not opened yet.
    pub fn new(config: DatabaseConfig) -> (r: Self)
        ensures
            r.settings() == config@,
    {
        DatabaseManager { config }
    }

    /// Whether a place for the backup is configured.
    pub fn backup_configured(&self) -> (r: bool)
        ensures
            r == (self.settings().remote_url matches Some(p) && trim(p).len() > 0),
    {
        match &self.config.remote_url {
            Some(p) => trimmed(p.as_str()).as_str().unicode_len() > 0,
            None => false,
        }
    }

    /// What to do when the database cannot be opened, given whether the backup is there.
    pub fn initialize(&self, backup_exists: bool) -> (r: Recovery)
        ensures
            (match self.settings().remote_url {
                Some(_) => if backup_exists {
                    r is Restore
                } else {
                    r matches Recovery::GiveUp(e) && e@ == "local DB corrupt and no backup exists"@
                },
                None => r matches Recovery::GiveUp(e) && e@
                    == "local DB corrupt and no backup configured"@,
            }),
    {
        match &self.config.remote_url {
            Some(_) => if backup_exists {
                Recovery::Restore
            } else {
                Recovery::GiveUp("local DB corrupt and no backup exists".to_owned())
            },
            None => Recovery::GiveUp("local DB corrupt and no backup configured".to_owned()),
        }
    }

    /// Where a snapshot goes, and where it is put together first; `None` where no backup
    /// is configured.
    pub fn sync_to_remote(&self) -> (r: Option<(String, String)>)
        ensures
            (match self.settings().remote_url {
                Some(p) if trim(p).len() > 0 => r matches Some(w) && w.0@ == p && w.1@ == p
                    + ".tmp"@,
                _ => r is None,
            }),
    {
        match &self.config.remote_url {
            Some(p) => if trimmed(p.as_str()).as_str().unicode_len() > 0 {
                let mut tmp = p.clone();
                tmp.append(".tmp");
                Some((p.clone(), tmp))
            } else {
                None
            },
            None => None,
        }
    }

    /// The file with the database's write-ahead log.
    pub fn wal_path(&self) -> (r: String)
        ensures
            r@ == self.settings().local_path + "-wal"@,
    {
        let mut p = self.config.local_path.clone();
        p.append("-wal");
        p
    }

    /// How large the database should grow, in megabytes.
    pub fn target_mb(&self) -> (r: u32)
        ensures
            r == self.settings().local_target_mb,
    {
        self.config.local_target_mb
    }

    /// Merges the write-ahead log into the database.
    pub fn checkpoint_wal(&self) -> (r: Statement)
        ensures
            r@ == (StatementView {
                sql: "PRAGMA wal_checkpoint(TRUNCATE)"@,
                params: Seq::empty(),
            }),
    {
        let p: Vec<SqlValue> = Vec::new();
        assert(views(p@) =~= Seq::<SqlValueView>::empty());
        statement("PRAGMA wal_checkpoint(TRUNCATE)", p)
    }

    /// Keeps when a stage of a message was done; an unknown stage is an error.
    pub fn update_stage_completed(&self, uuid7: &Vec<u8>, stage: &str, now_ms: i64) -> (r: Result<
        Statement,
        String,
    >)
        ensures
            (match stage_column(stage@) {
                Some(c) => r matches Ok(s) && s@ == (StatementView {
                    sql: "UPDATE timeline_events SET "@ + c + " = ?1 WHERE uuid7 = ?2"@,
                    params: seq![SqlValueView::Integer(now_ms), SqlValueView::Blob(uuid7@)],
                }),
                None => r matches Err(e) && e@ == "Unknown stage: "@ + stage@,
            }),
    {
        let column = if same(stage, "pre_process") {
            "pre_process_completed_at"
        } else if same(stage, "in_process") {
            "in_process_completed_at"
        } else if same(stage, "post_process") {
            "post_process_completed_at"
        } else if same(stage, "persisted") {
            "persisted_at"
        } else {
            let mut e = "Unknown stage: ".to_owned();
            e.append(stage);
            return Err(e);
        };
        let mut sql = "UPDATE timeline_events SET ".to_owned();
        sql.append(column);
        sql.append(" = ?1 WHERE uuid7 = ?2");
        let mut p: Vec<SqlValue> = Vec::new();
        p.push(SqlValue::Integer(now_ms));
        p.push(SqlValue::Blob(clone_bytes(uuid7)));
        assert(views(p@) =~= seq![SqlValueView::Integer(now_ms), SqlValueView::Blob(uuid7@)]);
        Ok(statement(sql.as_str(), p))
    }

    /// Keeps audio with a message, given the flags it has: the bytes are its attached
    /// data, the content type is noted among the flags.
    pub fn set_audio(
        &self,
        uuid7: &Vec<u8>,
        audio_type: &str,
        audio: &Vec<u8>,
        flags: &str,
    ) -> (r: Statement)
        ensures
            r@ == (StatementView {
                sql: "UPDATE timeline_events SET data_blob = ?1, flags = ?2 WHERE uuid7 = ?3"@,
                params: seq![
                    SqlValueView::Blob(audio@),
                    SqlValueView::Text(with_audio_type(flags@, audio_type@)),
                    SqlValueView::Blob(uuid7@),
                ],
            }),
    {
        let mut p: Vec<SqlValue> = Vec::new();
        p.push(SqlValue::Blob(clone_bytes(audio)));
        p.push(SqlValue::Text(add_audio_type(flags, audio_type)));
        p.push(SqlValue::Blob(clone_bytes(uuid7)));
        assert(views(p@) =~= seq![
            SqlValueView::Blob(audio@),
            SqlValueView::Text(with_audio_type(flags@, audio_type@)),
            SqlValueView::Blob(uuid7@),
        ]);
        statement("UPDATE timeline_events SET data_blob = ?1, flags = ?2 WHERE uuid7 = ?3", p)
    }

    /// A message's audio, given its attached data and its flags: none where there is no data.
    pub fn get_audio(blob: Option<Vec<u8>>, flags: &str) -> (r: Option<(String, Vec<u8>)>)
        ensures
            (match blob {
                Some(b) if b@.len() > 0 => r matches Some(a) && a.0@ == audio_type_of(flags@) && a.1@
                    == b@,
                _ => r is None,
            }),
    {
        match blob {
            Some(b) => if b.len() == 0 {
                None
            } else {
                Some((read_audio_type(flags), b))
            },
            None => None,
        }
    }

    /// A message as text, given what is kept of it, if anything.
    pub fn get_event_as_json(row: Option<EventRow>) -> (r: Option<String>)
        ensures
            (match row {
                Some(e) => r matches Some(t) && t@ == json_text(event_json(e@)),
                None => r is None,
            }),
    {
        match row {
            Some(e) => Some(write_json(&event_value(&e))),
            None => None,
        }
    }

    /// The rows of a result as text: a list of objects under the columns' names.
    pub fn execute_query(columns: &Vec<String>, rows: &Vec<Vec<SqlValue>>) -> (r: String)
        ensures
            r@ == json_text(rows_json(texts(columns@), rows@)),
    {
        let mut out: Vec<Json> = Vec::new();
        for i in 0..rows.len()
            invariant
                out@.len() == i,
                forall|j: int|
                    0 <= j < i ==> (#[trigger] out@[j])@ == row_json(
                        texts(columns@),
                        views(rows@[j]@),
                    ),
        {
            out.push(row_value(columns, &rows[i]));
        }
        assert(JsonView::List(items(out@)) == rows_json(texts(columns@), rows@)) by {
            assert(items(out@) =~= Seq::new(
                rows@.len(),
                |i: int| row_json(texts(columns@), views(rows@[i]@)),
            ));
        }
        write_json(&list(out))
    }

    /// What the question about a held message shows, given what is kept of it, if anything.
    pub fn get_audit_entry(row: Option<AuditRow>) -> (r: Option<Json>)
        ensures
            (match row {
                Some(a) => r matches Some(j) && j@ == audit_entry_json(a@),
                None => r is None,
            }),
    {
        match row {
            Some(a) => Some(audit_entry_value(&a)),
            None => None,
        }
    }

    /// The messages that are held for review, as values.
    pub fn audit_rows(rows: &Vec<AuditRow>) -> (r: Vec<Json>)
        ensures
            items(r@) == views(rows@).map_values(|a: AuditRowView| audit_row_json(a)),
    {
        let mut out: Vec<Json> = Vec::new();
        for i in 0..rows.len()
            invariant
                out@.len() == i,
                forall|j: int| 0 <= j < i ==> (#[trigger] out@[j])@ == audit_row_json(rows@[j]@),
        {
            out.push(audit_row_value(&rows[i]));
        }
        assert(items(out@) =~= views(rows@).map_values(|a: AuditRowView| audit_row_json(a)));
        out
    }

    /// Lists the messages that are held for review. A limit that is not positive counts as
    /// 100, an offset that is negative as 0.
    pub fn list_audit(&self, limit: i32, offset: i32) -> (r: Statement)
        ensures
            r@ == (StatementView {
                sql: "SELECT uuid7, platform, raw_message, user_uuid7, flags, persisted_at FROM timeline_events WHERE pipeline_status = 'audit' ORDER BY persisted_at ASC LIMIT ?1 OFFSET ?2"@,
                params: seq![
                    SqlValueView::Integer(
                        if limit <= 0 {
                            100
                        } else {
                            limit as i64
                        },
                    ),
                    SqlValueView::Integer(
                        if offset < 0 {
                            0
                        } else {
                            offset as i64
                        },
                    ),
                ],
            }),
    {
        let l: i64 = if limit <= 0 {
            100
        } else {
            limit as i64
        };
        let o: i64 = if offset < 0 {
            0
        } else {
            offset as i64
        };
        let mut p: Vec<SqlValue> = Vec::new();
        p.push(SqlValue::Integer(l));
        p.push(SqlValue::Integer(o));
        assert(views(p@) =~= seq![SqlValueView::Integer(l), SqlValueView::Integer(o)]);
        statement(
            "SELECT uuid7, platform, raw_message, user_uuid7, flags, persisted_at FROM timeline_events WHERE pipeline_status = 'audit' ORDER BY persisted_at ASC LIMIT ?1 OFFSET ?2",
            p,
        )
    }

    /// Releases a held message: an approved one is complete now, a rejected one failed.
    pub fn release_audit(&self, uuid7: &Vec<u8>, approve: bool, now_ms: i64) -> (r: Statement)
        ensures
            r@ == (if approve {
                StatementView {
                    sql: "UPDATE timeline_events SET pipeline_status = 'complete', persisted_at = ?2 WHERE uuid7 = ?1 AND pipeline_status = 'audit'"@,
                    params: seq![SqlValueView::Blob(uuid7@), SqlValueView::Integer(now_ms)],
                }
            } else {
                StatementView {
                    sql: "UPDATE timeline_events SET pipeline_status = 'failed' WHERE uuid7 = ?1 AND pipeline_status = 'audit'"@,
                    params: seq![SqlValueView::Blob(uuid7@)],
                }
            }),
    {
        let mut p: Vec<SqlValue> = Vec::new();
        p.push(SqlValue::Blob(clone_bytes(uuid7)));
        if approve {
            p.push(SqlValue::Integer(now_ms));
            assert(views(p@) =~= seq![SqlValueView::Blob(uuid7@), SqlValueView::Integer(now_ms)]);
            statement(
                "UPDATE timeline_events SET pipeline_status = 'complete', persisted_at = ?2 WHERE uuid7 = ?1 AND pipeline_status = 'audit'",
                p,
            )
        } else {
            assert(views(p@) =~= seq![SqlValueView::Blob(uuid7@)]);
            statement(
                "UPDATE timeline_events SET pipeline_status = 'failed' WHERE uuid7 = ?1 AND pipeline_status = 'audit'",
                p,
            )
        }
    }

    /// A new message, waiting in the queue.
    pub fn insert_event(&self, uuid7: &Vec<u8>, event_type: i32, platform: &str, raw_data: &Vec<u8>, raw_message: &str, command: &str, flags: &str) -> (r: Statement)
        ensures
            r@ == (StatementView {
                sql: "INSERT INTO timeline_events (uuid7, schema_version, event_type, platform, raw_data, raw_message, command, flags, pipeline_status) VALUES (?1, ?2, ?3, ?4, ?5, ?6, ?7, ?8, 'queued')"@,
                params: seq![SqlValueView::Blob(uuid7@), SqlValueView::Integer(SCHEMA_VERSION as i64), SqlValueView::Integer(event_type as i64), SqlValueView::Text(platform@), SqlValueView::Blob(raw_data@), SqlValueView::Text(raw_message@), SqlValueView::Text(command@), SqlValueView::Text(flags@)],
            }),
    {
        let mut p: Vec<SqlValue> = Vec::new();
        p.push(SqlValue::Blob(clone_bytes(uuid7)));
        p.push(SqlValue::Integer(SCHEMA_VERSION as i64));
        p.push(SqlValue::Integer(event_type as i64));
        p.push(SqlValue::Text(platform.to_owned()));
        p.push(SqlValue::Blob(clone_bytes(raw_data)));
        p.push(SqlValue::Text(raw_message.to_owned()));
        p.push(SqlValue::Text(command.to_owned()));
        p.push(SqlValue::Text(flags.to_owned()));
        statement("INSERT INTO timeline_events (uuid7, schema_version, event_type, platform, raw_data, raw_message, command, flags, pipeline_status) VALUES (?1, ?2, ?3, ?4, ?5, ?6, ?7, ?8, 'queued')", p)
    }

    /// An event for the record only: it is complete and synced, so neither the pipeline nor the backup touches it. `command` says what kind it is.
    pub fn archival_event(&self, uuid7: &Vec<u8>, platform: &str, command: &str, raw_message: &str, flags: &str, now_ms: i64) -> (r: Statement)
        ensures
            r@ == archival_statement(uuid7@, platform@, command@, raw_message@, flags@, now_ms),
    {
        let mut p: Vec<SqlValue> = Vec::new();
        p.push(SqlValue::Blob(clone_bytes(uuid7)));
        p.push(SqlValue::Integer(SCHEMA_VERSION as i64));
        p.push(SqlValue::Integer(5));
        p.push(SqlValue::Text(platform.to_owned()));
        p.push(SqlValue::Text(raw_message.to_owned()));
        p.push(SqlValue::Text(command.to_owned()));
        p.push(SqlValue::Text(flags.to_owned()));
        p.push(SqlValue::Integer(now_ms));
        statement("INSERT INTO timeline_events (uuid7, schema_version, event_type, platform, raw_message, command, flags, pipeline_status, synced_at) VALUES (?1, ?2, ?3, ?4, ?5, ?6, ?7, 'complete', ?8)", p)
    }

    /// An event for the record only, under a fresh id and with the time of day.
    pub fn insert_archival_event(
        &self,
        platform: &str,
        command: &str,
        raw_message: &str,
        flags: &str,
    ) -> (r: Statement)
        ensures
            exists|id: u128, now_ms: i64|
                version_of(id) == 7 && r@ == #[trigger] archival_statement(
                    id_bytes(id),
                    platform@,
                    command@,
                    raw_message@,
                    flags@,
                    now_ms,
                ),
    {
        let id = fresh_v7();
        let uuid7 = to_id_bytes(id);
        let t = now_ms();
        let r = self.archival_event(&uuid7, platform, command, raw_message, flags, t);
        assert(r@ == archival_statement(
            id_bytes(id),
            platform@,
            command@,
            raw_message@,
            flags@,
            t,
        ));
        r
    }

    /// Sets a message's status.
    pub fn set_pipeline_status(&self, uuid7: &Vec<u8>, status: &str) -> (r: Statement)
        ensures
            r@ == (StatementView {
                sql: "UPDATE timeline_events SET pipeline_status = ?1 WHERE uuid7 = ?2"@,
                params: seq![SqlValueView::Text(status@), SqlValueView::Blob(uuid7@)],
            }),
    {
        let mut p: Vec<SqlValue> = Vec::new();
        p.push(SqlValue::Text(status.to_owned()));
        p.push(SqlValue::Blob(clone_bytes(uuid7)));
        statement("UPDATE timeline_events SET pipeline_status = ?1 WHERE uuid7 = ?2", p)
    }

    /// Marks a message as failed, with the reason.
    pub fn set_error(&self, uuid7: &Vec<u8>, error: &str) -> (r: Statement)
        ensures
            r@ == (StatementView {
                sql: "UPDATE timeline_events SET error_message = ?1, pipeline_status = 'failed' WHERE uuid7 = ?2"@,
                params: seq![SqlValueView::Text(error@), SqlValueView::Blob(uuid7@)],
            }),
    {
        let mut p: Vec<SqlValue> = Vec::new();
        p.push(SqlValue::Text(error.to_owned()));
        p.push(SqlValue::Blob(clone_bytes(uuid7)));
        statement("UPDATE timeline_events SET error_message = ?1, pipeline_status = 'failed' WHERE uuid7 = ?2", p)
    }

    /// Sets the text that the pipeline made of a message.
    pub fn set_processed_message(&self, uuid7: &Vec<u8>, processed: &str) -> (r: Statement)
        ensures
            r@ == (StatementView {
                sql: "UPDATE timeline_events SET processed_message = ?1 WHERE uuid7 = ?2"@,
                params: seq![SqlValueView::Text(processed@), SqlValueView::Blob(uuid7@)],
            }),
    {
        let mut p: Vec<SqlValue> = Vec::new();
        p.push(SqlValue::Text(processed.to_owned()));
        p.push(SqlValue::Blob(clone_bytes(uuid7)));
        statement("UPDATE timeline_events SET processed_message = ?1 WHERE uuid7 = ?2", p)
    }

    /// Sets a message's author, where none is set.
    pub fn set_user_uuid(&self, uuid7: &Vec<u8>, user_uuid: &str) -> (r: Statement)
        ensures
            r@ == (StatementView {
                sql: "UPDATE timeline_events SET user_uuid7 = ?1 WHERE uuid7 = ?2 AND user_uuid7 IS NULL"@,
                params: seq![SqlValueView::Text(user_uuid@), SqlValueView::Blob(uuid7@)],
            }),
    {
        let mut p: Vec<SqlValue> = Vec::new();
        p.push(SqlValue::Text(user_uuid.to_owned()));
        p.push(SqlValue::Blob(clone_bytes(uuid7)));
        statement("UPDATE timeline_events SET user_uuid7 = ?1 WHERE uuid7 = ?2 AND user_uuid7 IS NULL", p)
    }

    /// Sets a message's flags.
    pub fn set_flags(&self, uuid7: &Vec<u8>, flags: &str) -> (r: Statement)
        ensures
            r@ == (StatementView {
                sql: "UPDATE timeline_events SET flags = ?1 WHERE uuid7 = ?2"@,
                params: seq![SqlValueView::Text(flags@), SqlValueView::Blob(uuid7@)],
            }),
    {
        let mut p: Vec<SqlValue> = Vec::new();
        p.push(SqlValue::Text(flags.to_owned()));
        p.push(SqlValue::Blob(clone_bytes(uuid7)));
        statement("UPDATE timeline_events SET flags = ?1 WHERE uuid7 = ?2", p)
    }

    /// Sets a message's command.
    pub fn set_command(&self, uuid7: &Vec<u8>, command: &str) -> (r: Statement)
        ensures
            r@ == (StatementView {
                sql: "UPDATE timeline_events SET command = ?1 WHERE uuid7 = ?2"@,
                params: seq![SqlValueView::Text(command@), SqlValueView::Blob(uuid7@)],
            }),
    {
        let mut p: Vec<SqlValue> = Vec::new();
        p.push(SqlValue::Text(command.to_owned()));
        p.push(SqlValue::Blob(clone_bytes(uuid7)));
        statement("UPDATE timeline_events SET command = ?1 WHERE uuid7 = ?2", p)
    }

    /// Holds a message for review, with the reason.
    pub fn mark_audit(&self, uuid7: &Vec<u8>, reason: &str) -> (r: Statement)
        ensures
            r@ == (StatementView {
                sql: "UPDATE timeline_events SET pipeline_status = 'audit', flags = ?1 WHERE uuid7 = ?2"@,
                params: seq![SqlValueView::Text(reason@), SqlValueView::Blob(uuid7@)],
            }),
    {
        let mut p: Vec<SqlValue> = Vec::new();
        p.push(SqlValue::Text(reason.to_owned()));
        p.push(SqlValue::Blob(clone_bytes(uuid7)));
        statement("UPDATE timeline_events SET pipeline_status = 'audit', flags = ?1 WHERE uuid7 = ?2", p)
    }

    /// Sets a message's attached data.
    pub fn set_data_blob(&self, uuid7: &Vec<u8>, data: &Vec<u8>) -> (r: Statement)
        ensures
            r@ == (StatementView {
                sql: "UPDATE timeline_events SET data_blob = ?1 WHERE uuid7 = ?2"@,
                params: seq![SqlValueView::Blob(data@), SqlValueView::Blob(uuid7@)],
            }),
    {
        let mut p: Vec<SqlValue> = Vec::new();
        p.push(SqlValue::Blob(clone_bytes(data)));
        p.push(SqlValue::Blob(clone_bytes(uuid7)));
        statement("UPDATE timeline_events SET data_blob = ?1 WHERE uuid7 = ?2", p)
    }

    /// Reads a message's flags.
    pub fn flags_query(&self, uuid7: &Vec<u8>) -> (r: Statement)
        ensures
            r@ == (StatementView {
                sql: "SELECT flags FROM timeline_events WHERE uuid7 = ?1"@,
                params: seq![SqlValueView::Blob(uuid7@)],
            }),
    {
        let mut p: Vec<SqlValue> = Vec::new();
        p.push(SqlValue::Blob(clone_bytes(uuid7)));
        statement("SELECT flags FROM timeline_events WHERE uuid7 = ?1", p)
    }

    /// Reads a message's attached data and flags.
    pub fn audio_query(&self, uuid7: &Vec<u8>) -> (r: Statement)
        ensures
            r@ == (StatementView {
                sql: "SELECT data_blob, flags FROM timeline_events WHERE uuid7 = ?1"@,
                params: seq![SqlValueView::Blob(uuid7@)],
            }),
    {
        let mut p: Vec<SqlValue> = Vec::new();
        p.push(SqlValue::Blob(clone_bytes(uuid7)));
        statement("SELECT data_blob, flags FROM timeline_events WHERE uuid7 = ?1", p)
    }

    /// Marks messages as synced.
    pub fn mark_synced(&self, uuid7s: &Vec<Vec<u8>>, now_ms: i64) -> (r: Vec<Statement>)
        ensures
            views(r@) == views(uuid7s@).map_values(|u: Seq<u8>| synced_statement(u, now_ms)),
    {
        let mut out: Vec<Statement> = Vec::new();
        for i in 0..uuid7s.len()
            invariant
                out@.len() == i,
                forall|j: int|
                    0 <= j < i ==> (#[trigger] out@[j])@ == synced_statement(uuid7s@[j]@, now_ms),
        {
            let mut p: Vec<SqlValue> = Vec::new();
            p.push(SqlValue::Integer(now_ms));
            p.push(SqlValue::Blob(clone_bytes(&uuid7s[i])));
            let st = statement("UPDATE timeline_events SET synced_at = ?1 WHERE uuid7 = ?2", p);
            assert(st@.params =~= synced_statement(uuid7s@[i as int]@, now_ms).params);
            out.push(st);
        }
        assert(views(out@) =~= views(uuid7s@).map_values(
            |u: Seq<u8>| synced_statement(u, now_ms),
        ));
        out
    }

    /// Reads the first message that waits.
    pub fn get_next_queued(&self) -> (r: Statement)
        ensures
            r@ == (StatementView {
                sql: "SELECT uuid7 FROM timeline_events WHERE pipeline_status = 'queued' ORDER BY uuid7 ASC LIMIT 1"@,
                params: Seq::empty(),
            }),
    {
        let mut p: Vec<SqlValue> = Vec::new();
        statement("SELECT uuid7 FROM timeline_events WHERE pipeline_status = 'queued' ORDER BY uuid7 ASC LIMIT 1", p)
    }

    /// Reads the messages that are not through.
    pub fn get_incomplete(&self) -> (r: Statement)
        ensures
            r@ == (StatementView {
                sql: "SELECT uuid7 FROM timeline_events WHERE pipeline_status IN ('queued', 'processing') AND synced_at IS NULL ORDER BY uuid7 ASC"@,
                params: Seq::empty(),
            }),
    {
        let mut p: Vec<SqlValue> = Vec::new();
        statement("SELECT uuid7 FROM timeline_events WHERE pipeline_status IN ('queued', 'processing') AND synced_at IS NULL ORDER BY uuid7 ASC", p)
    }

    /// Counts the complete messages that are not synced.
    pub fn get_unsynced_count(&self) -> (r: Statement)
        ensures
            r@ == (StatementView {
                sql: "SELECT COUNT(*) FROM timeline_events WHERE synced_at IS NULL AND pipeline_status = 'complete'"@,
                params: Seq::empty(),
            }),
    {
        let mut p: Vec<SqlValue> = Vec::new();
        statement("SELECT COUNT(*) FROM timeline_events WHERE synced_at IS NULL AND pipeline_status = 'complete'", p)
    }

    /// Reads what is kept of a message.
    pub fn event_query(&self, uuid7: &Vec<u8>) -> (r: Statement)
        ensures
            r@ == (StatementView {
                sql: "SELECT schema_version, event_type, platform, raw_message, command, flags, user_uuid7, processed_message, error_message, pre_process_completed_at, in_process_completed_at, post_process_completed_at, persisted_at, pipeline_status, synced_at FROM timeline_events WHERE uuid7 = ?1"@,
                params: seq![SqlValueView::Blob(uuid7@)],
            }),
    {
        let mut p: Vec<SqlValue> = Vec::new();
        p.push(SqlValue::Blob(clone_bytes(uuid7)));
        statement("SELECT schema_version, event_type, platform, raw_message, command, flags, user_uuid7, processed_message, error_message, pre_process_completed_at, in_process_completed_at, post_process_completed_at, persisted_at, pipeline_status, synced_at FROM timeline_events WHERE uuid7 = ?1", p)
    }

    /// Puts messages that were under way back into the queue.
    pub fn mark_all_processing_as_queued(&self) -> (r: Statement)
        ensures
            r@ == (StatementView {
                sql: "UPDATE timeline_events SET pipeline_status = 'queued' WHERE pipeline_status = 'processing'"@,
                params: Seq::empty(),
            }),
    {
        let mut p: Vec<SqlValue> = Vec::new();
        statement("UPDATE timeline_events SET pipeline_status = 'queued' WHERE pipeline_status = 'processing'", p)
    }

    /// Reads whether a message is held for review.
    pub fn is_audited(&self, uuid7: &Vec<u8>) -> (r: Statement)
        ensures
            r@ == (StatementView {
                sql: "SELECT 1 FROM timeline_events WHERE uuid7 = ?1 AND pipeline_status = 'audit'"@,
                params: seq![SqlValueView::Blob(uuid7@)],
            }),
    {
        let mut p: Vec<SqlValue> = Vec::new();
        p.push(SqlValue::Blob(clone_bytes(uuid7)));
        statement("SELECT 1 FROM timeline_events WHERE uuid7 = ?1 AND pipeline_status = 'audit'", p)
    }

    /// Reads what the question about a held message shows.
    pub fn audit_entry_query(&self, uuid7: &Vec<u8>) -> (r: Statement)
        ensures
            r@ == (StatementView {
                sql: "SELECT platform, raw_message, user_uuid7, flags FROM timeline_events WHERE uuid7 = ?1"@,
                params: seq![SqlValueView::Blob(uuid7@)],
            }),
    {
        let mut p: Vec<SqlValue> = Vec::new();
        p.push(SqlValue::Blob(clone_bytes(uuid7)));
        statement("SELECT platform, raw_message, user_uuid7, flags FROM timeline_events WHERE uuid7 = ?1", p)
    }
}

/// Splitting a text that ends in `c` and a piece without `c` adds that piece.
proof fn lemma_split_push(s: Seq<char>, c: char, t: Seq<char>)
    requires
        !t.contains(c),
    ensures
        split_on(s + seq![c] + t, c) == split_on(s, c).push(t),
    decreases s.len(),
{
    let all = s + seq![c] + t;
    let n = find(s, c) as int;
    lemma_find(s, c);
    lemma_find(all, c);
    let m = find(all, c) as int;
    if n < s.len() {
        assert(all[n] == c);
        assert(m <= n) by {
            if m > n {
                assert(all[n] != c);
            }
        }
        assert(n <= m) by {
            if m < n {
                assert(all[m] == s[m]);
            }
        }
        assert(all.take(n) =~= s.take(n));
        assert(all.skip(n + 1) =~= s.skip(n + 1) + seq![c] + t);
        lemma_split_push(s.skip(n + 1), c, t);
        assert(seq![s.take(n)] + split_on(s.skip(n + 1), c).push(t) =~= (seq![s.take(n)]
            + split_on(s.skip(n + 1), c)).push(t));
    } else {
        assert(all[s.len() as int] == c);
        assert(m == s.len()) by {
            if m > s.len() {
                assert(all[s.len() as int] != c);
            }
            if m < s.len() {
                assert(all[m] == s[m]);
            }
        }
        assert(all.take(m) =~= s);
        assert(all.skip(m + 1) =~= t);
        lemma_single(t, c);
        assert(seq![s] + seq![t] =~= seq![s].push(t));
    }
}

/// A text without `c` is one piece.
proof fn lemma_single(t: Seq<char>, c: char)
    requires
        !t.contains(c),
    ensures
        split_on(t, c) == seq![t],
{
    lemma_find(t, c);
}

/// Where no piece notes a content type, or the first that does notes `audio_type`, one more
/// that notes it changes no other answer.
proof fn lemma_noted_push(pieces: Seq<Seq<char>>, audio_type: Seq<char>)
    requires
        noted_type(pieces) matches Some(t) ==> t == audio_type,
    ensures
        noted_type(pieces.push(audio_marker(audio_type))) == Some(audio_type),
    decreases pieces.len(),
{
    let marker = audio_marker(audio_type);
    assert(marker.skip("audio_type="@.len() as int) =~= audio_type);
    assert("audio_type="@.is_prefix_of(marker));
    if pieces.len() > 0 && !"audio_type="@.is_prefix_of(pieces[0]) {
        lemma_noted_push(pieces.drop_first(), audio_type);
        assert(pieces.push(marker).drop_first() =~= pieces.drop_first().push(marker));
        assert(pieces.push(marker)[0] == pieces[0]);
    } else if pieces.len() == 0 {
        assert(pieces.push(marker)[0] == marker);
    } else {
        assert(pieces.push(marker)[0] == pieces[0]);
    }
}

/// Where a content type is among the pieces, some type is noted.
proof fn lemma_noted_some(pieces: Seq<Seq<char>>, audio_type: Seq<char>)
    requires
        pieces.contains(audio_marker(audio_type)),
    ensures
        noted_type(pieces) is Some,
    decreases pieces.len(),
{
    let marker = audio_marker(audio_type);
    assert("audio_type="@.is_prefix_of(marker));
    let i = choose|i: int| 0 <= i < pieces.len() && pieces[i] == marker;
    if !"audio_type="@.is_prefix_of(pieces[0]) {
        assert(pieces.drop_first()[i - 1] == marker);
        lemma_noted_some(pieces.drop_first(), audio_type);
    }
}

proof fn lemma_marker_is_one_piece(audio_type: Seq<char>)
    requires
        !audio_type.contains(','),
    ensures
        !audio_marker(audio_type).contains(','),
{
    reveal_strlit("audio_type=");
    let marker = audio_marker(audio_type);
    assert forall|i: int| 0 <= i < marker.len() implies #[trigger] marker[i] != ',' by {
        if i >= "audio_type="@.len() {
            assert(audio_type.contains(audio_type[i - "audio_type="@.len()]));
        }
    }
}

/// The content type that audio was kept under is the one that is read back, where the
/// flags noted no other and the type holds no comma.
pub proof fn law_audio_type_is_read_back(flags: Seq<char>, audio_type: Seq<char>)
    requires
        !audio_type.contains(','),
        noted_type(split_on(flags, ',')) matches Some(t) ==> t == audio_type,
    ensures
        audio_type_of(with_audio_type(flags, audio_type)) == audio_type,
{
    let marker = audio_marker(audio_type);
    let pieces = split_on(flags, ',');
    lemma_marker_is_one_piece(audio_type);
    if pieces.contains(marker) {
        lemma_noted_some(pieces, audio_type);
    } else if flags.len() == 0 {
        lemma_single(marker, ',');
        lemma_noted_push(Seq::empty(), audio_type);
        assert(Seq::<Seq<char>>::empty().push(marker) =~= seq![marker]);
    } else {
        reveal_strlit(",");
        assert(","@ =~= seq![',']);
        lemma_split_push(flags, ',', marker);
        lemma_noted_push(pieces, audio_type);
    }
}

/// A content type is noted once: keeping audio of the same type again leaves the flags as
/// they are, where the type holds no comma.
pub proof fn law_audio_type_is_noted_once(flags: Seq<char>, audio_type: Seq<char>)
    requires
        !audio_type.contains(','),
    ensures
        with_audio_type(with_audio_type(flags, audio_type), audio_type) == with_audio_type(
            flags,
            audio_type,
        ),
{
    let marker = audio_marker(audio_type);
    let pieces = split_on(flags, ',');
    lemma_marker_is_one_piece(audio_type);
    if pieces.contains(marker) {
    } else if flags.len() == 0 {
        lemma_single(marker, ',');
        assert(seq![marker][0] == marker);
    } else {
        reveal_strlit(",");
        assert(","@ =~= seq![',']);
        lemma_split_push(flags, ',', marker);
        assert(pieces.push(marker)[pieces.len() as int] == marker);
    }
}

} // verus!
