//! Queries from modules: who may ask what, and what is answered.
//!
//! The databases and the files are outside: a query is first planned, then what the plan
//! asks for is fetched, and the answer is made from it.
use crate::credentials::{known_key, lists_unknown, unknown_keys, validate_credential_fields};
use crate::database::{
    audit_row_json, bytes_as_text, lossy_text, AuditRow, AuditRowView, DatabaseManager,
};
use crate::env_file::text_values;
use crate::json::{
    items, json_read, json_str, json_text, list, member, member_int, member_text, members,
    no_members, object, parse_json, put, write_json, Json, JsonView,
};
use crate::module_manager::{DiscoveredModule, ModuleRegistry};
use crate::proto::{
    opt_view, views, Container, ContainerView, DatabaseQuery, DatabaseQueryResult,
    DatabaseQueryResultView, DatabaseQueryView, Payload, PayloadView,
};
use crate::sql::{is_read_only_sql, read_only};
use crate::strmap::{has_key, StrMap};
use crate::text::{begins_with, decimal, decimal_int, i64_text, same, text_bytes, texts, u64_text};
use crate::trust::{
    control_surface, is_control_surface, is_test_runner, may_read_other_credentials,
    reads_credentials, test_runner,
};
use crate::user_queries::{refuse, refuse_with, refused, QueryReply, QueryReplyView};
use vstd::prelude::*;

verus! {

/// What is done to answer a query.
#[derive(Debug)]
pub enum QueryPlan {
    /// Say how the databases are backed up.
    DbStatus,
    /// List the modules, with the values of their credentials or without.
    ModuleList { expose: bool },
    /// Say where the engine is reached, with its PIN or without.
    EngineInfo { with_pin: bool },
    /// Run the tests with these arguments.
    RunTests { args: Vec<String> },
    /// List the messages that are held for review.
    ListHeld { limit: i32, offset: i32 },
    /// Release a message that is held for review.
    Release { uuid7: String, approve: bool },
    /// A moderation query.
    Moderate,
    /// A rating.
    Rate,
    /// A verified identity.
    VerifyIdentity,
    /// A query for the user database.
    UserDb,
    /// Credentials to store for a module.
    SetCredentials,
    /// Fetch a message's audio.
    Audio { uuid7: String },
    /// Keep test results in the timeline.
    Archive { batch: String, entries: Vec<String> },
    /// Run a statement that only reads.
    Read { sql: String },
    /// Answer at once.
    Reply(QueryReply),
}

/// What a [`QueryPlan`] says.
#[verifier::ext_equal]
pub enum QueryPlanView {
    DbStatus,
    ModuleList { expose: bool },
    EngineInfo { with_pin: bool },
    RunTests { args: Seq<Seq<char>> },
    ListHeld { limit: i32, offset: i32 },
    Release { uuid7: Seq<char>, approve: bool },
    Moderate,
    Rate,
    VerifyIdentity,
    UserDb,
    SetCredentials,
    Audio { uuid7: Seq<char> },
    Archive { batch: Seq<char>, entries: Seq<Seq<char>> },
    Read { sql: Seq<char> },
    Reply(QueryReplyView),
}

impl View for QueryPlan {
    type V = QueryPlanView;

    open spec fn view(&self) -> QueryPlanView {
        match *self {
            QueryPlan::DbStatus => QueryPlanView::DbStatus,
            QueryPlan::ModuleList { expose } => QueryPlanView::ModuleList {
                expose: expose,
            },
            QueryPlan::EngineInfo { with_pin } => QueryPlanView::EngineInfo {
                with_pin: with_pin,
            },
            QueryPlan::RunTests { args } => QueryPlanView::RunTests {
                args: texts(args@),
            },
            QueryPlan::ListHeld { limit, offset } => QueryPlanView::ListHeld {
                limit: limit,
                offset: offset,
            },
            QueryPlan::Release { uuid7, approve } => QueryPlanView::Release {
                uuid7: uuid7@,
                approve: approve,
            },
            QueryPlan::Moderate => QueryPlanView::Moderate,
            QueryPlan::Rate => QueryPlanView::Rate,
            QueryPlan::VerifyIdentity => QueryPlanView::VerifyIdentity,
            QueryPlan::UserDb => QueryPlanView::UserDb,
            QueryPlan::SetCredentials => QueryPlanView::SetCredentials,
            QueryPlan::Audio { uuid7 } => QueryPlanView::Audio {
                uuid7: uuid7@,
            },
            QueryPlan::Archive { batch, entries } => QueryPlanView::Archive {
                batch: batch@,
                entries: texts(entries@),
            },
            QueryPlan::Read { sql } => QueryPlanView::Read {
                sql: sql@,
            },
            QueryPlan::Reply(x) => QueryPlanView::Reply(x@),
        }
    }
}

/// How running a statement went.
#[derive(Debug)]
pub enum QueryRun {
    /// It gave rows as text.
    Done(String),
    /// The database gave an error.
    Failed(String),
    /// The driver broke down; the database was opened again or that failed with an error.
    Broke { words: String, reopen_error: Option<String> },
}

/// What a [`QueryRun`] says.
#[verifier::ext_equal]
pub enum QueryRunView {
    Done(Seq<char>),
    Failed(Seq<char>),
    Broke { words: Seq<char>, reopen_error: Option<Seq<char>> },
}

impl View for QueryRun {
    type V = QueryRunView;

    open spec fn view(&self) -> QueryRunView {
        match *self {
            QueryRun::Done(x) => QueryRunView::Done(x@),
            QueryRun::Failed(x) => QueryRunView::Failed(x@),
            QueryRun::Broke { words, reopen_error } => QueryRunView::Broke {
                words: words@,
                reopen_error: opt_view(reopen_error),
            },
        }
    }
}

/// What a query's payload says; a payload that cannot be read says nothing.
pub open spec fn payload_of(sql: Seq<char>) -> JsonView {
    match json_read(sql) {
        Ok(v) => v,
        Err(_) => JsonView::Object(Map::empty()),
    }
}

fn read_payload(sql: &str) -> (r: Json)
    ensures
        r@ == payload_of(sql@),
{
    match parse_json(sql) {
        Ok(j) => j,
        Err(_) => object(no_members()),
    }
}

/// The arguments that the test runner is started with.
pub open spec fn test_args(payload: JsonView) -> Seq<Seq<char>> {
    let module = member_text(payload, "module"@, ""@);
    seq!["--suite"@, member_text(payload, "suite"@, "all"@)] + (if module.len() > 0 {
        seq!["--module"@, module]
    } else {
        Seq::empty()
    }) + seq![
        "--iterations"@,
        decimal_int(member_int(payload, "iterations"@, 100) as int),
        "--json"@,
    ]
}

fn read_test_args(payload: &Json) -> (r: Vec<String>)
    ensures
        texts(r@) == test_args(payload@),
{
    let suite = payload.text_at("suite", "all");
    let module = payload.text_at("module", "");
    let iterations = payload.int_at("iterations", 100);
    let mut args: Vec<String> = Vec::new();
    args.push("--suite".to_owned());
    args.push(suite);
    if module.as_str().unicode_len() > 0 {
        args.push("--module".to_owned());
        args.push(module);
    }
    args.push("--iterations".to_owned());
    args.push(i64_text(iterations));
    args.push("--json".to_owned());
    assert(texts(args@) =~= test_args(payload@));
    args
}

/// The test results among the entries of a payload: those that hold a text.
pub open spec fn results_in(entries: Seq<JsonView>) -> Seq<Seq<char>>
    decreases entries.len(),
{
    if entries.len() == 0 {
        Seq::empty()
    } else {
        let front = results_in(entries.drop_last());
        let text = member_text(entries.last(), "json"@, ""@);
        if text.len() == 0 {
            front
        } else {
            front.push(text)
        }
    }
}

/// The test results that a payload holds.
pub open spec fn archived(payload: JsonView) -> Seq<Seq<char>> {
    match member(payload, "entries"@) {
        Some(JsonView::List(l)) => results_in(l),
        _ => Seq::empty(),
    }
}

fn read_results(payload: &Json) -> (r: Vec<String>)
    ensures
        texts(r@) == archived(payload@),
{
    let mut out: Vec<String> = Vec::new();
    assert(texts(out@) =~= Seq::<Seq<char>>::empty());
    if let Some(entries) = payload.get("entries") {
        proof {
            crate::json::lemma_json_view(*entries);
        }
        if let Json::List(l) = entries {
            let ghost all = items(l@);
            let mut i: usize = 0;
            assert(all.take(0) =~= Seq::<JsonView>::empty());
            while i < l.len()
                invariant
                    i <= l@.len(),
                    all == items(l@),
                    texts(out@) == results_in(all.take(i as int)),
                decreases l@.len() - i,
            {
                assert(all.take(i + 1).drop_last() =~= all.take(i as int));
                let ghost before = out@;
                let t = l[i].text_at("json", "");
                if t.as_str().unicode_len() > 0 {
                    let ghost said = t@;
                    out.push(t);
                    assert(texts(out@) =~= texts(before).push(said));
                }
                i = i + 1;
            }
            assert(all.take(i as int) =~= all);
        }
    }
    out
}

/// The answer that refuses statements that write.
pub open spec fn write_refused() -> Seq<char> {
    "Denied: only read-only SQL (SELECT/WITH/EXPLAIN) is allowed via DatabaseQuery — use a dedicated virtual query for writes"@
}

/// What is done to answer a query of a module.
pub open spec fn planned(q: DatabaseQueryView, from: Seq<char>) -> QueryPlanView {
    if q.query_id == "db_status"@ {
        QueryPlanView::DbStatus
    } else if q.query_id == "module_list"@ {
        QueryPlanView::ModuleList { expose: reads_credentials(from) }
    } else if q.query_id == "engine_info"@ {
        QueryPlanView::EngineInfo { with_pin: control_surface(from) }
    } else if q.query_id == "test_run"@ {
        if !control_surface(from) {
            QueryPlanView::Reply(refused("Test runner access denied: not the TUI"@))
        } else {
            match json_read(q.sql) {
                Ok(v) => QueryPlanView::RunTests { args: test_args(v) },
                Err(e) => QueryPlanView::Reply(refused("Invalid test_run payload: "@ + e)),
            }
        }
    } else if q.query_id == "audit_list"@ {
        if !control_surface(from) {
            QueryPlanView::Reply(refused("Audit access denied: not the TUI"@))
        } else {
            QueryPlanView::ListHeld {
                limit: member_int(payload_of(q.sql), "limit"@, 100) as i32,
                offset: member_int(payload_of(q.sql), "offset"@, 0) as i32,
            }
        }
    } else if q.query_id == "audit_approve"@ || q.query_id == "audit_reject"@ {
        let uuid7 = member_text(payload_of(q.sql), "uuid7"@, ""@);
        if !control_surface(from) {
            QueryPlanView::Reply(refused("Audit access denied: not the TUI"@))
        } else if uuid7.len() == 0 {
            QueryPlanView::Reply(refused("audit action requires uuid7"@))
        } else {
            QueryPlanView::Release { uuid7, approve: q.query_id == "audit_approve"@ }
        }
    } else if "mod_"@.is_prefix_of(q.query_id) {
        QueryPlanView::Moderate
    } else if q.query_id == "chat_commend"@ || q.query_id == "chat_reprimand"@ {
        QueryPlanView::Rate
    } else if q.query_id == "chat_verify_identity"@ {
        QueryPlanView::VerifyIdentity
    } else if "userdb_"@.is_prefix_of(q.query_id) {
        if !control_surface(from) {
            QueryPlanView::Reply(refused("User database access denied: not the TUI"@))
        } else {
            QueryPlanView::UserDb
        }
    } else if q.query_id == "set_credentials"@ {
        if !control_surface(from) {
            QueryPlanView::Reply(refused("set_credentials denied: not the TUI"@))
        } else {
            QueryPlanView::SetCredentials
        }
    } else if q.query_id == "audio_for_message"@ {
        let uuid7 = member_text(payload_of(q.sql), "uuid7"@, ""@);
        if uuid7.len() == 0 {
            QueryPlanView::Reply(refused("audio_for_message requires uuid7"@))
        } else {
            QueryPlanView::Audio { uuid7 }
        }
    } else if q.query_id == "test_archive"@ {
        if !test_runner(from) {
            QueryPlanView::Reply(refused("test_archive access denied: not the test runner"@))
        } else {
            QueryPlanView::Archive {
                batch: member_text(payload_of(q.sql), "batch_uuid"@, "test"@),
                entries: archived(payload_of(q.sql)),
            }
        }
    } else if read_only(q.sql) {
        QueryPlanView::Read { sql: q.sql }
    } else {
        QueryPlanView::Reply(refused(write_refused()))
    }
}

fn deny(error: &str) -> (r: QueryPlan)
    ensures
        r@ == QueryPlanView::Reply(refused(error@)),
{
    QueryPlan::Reply(refuse_with(error))
}

fn plan_tests(sql: &str) -> (r: QueryPlan)
    ensures
        r@ == (match json_read(sql@) {
            Ok(v) => QueryPlanView::RunTests { args: test_args(v) },
            Err(e) => QueryPlanView::Reply(refused("Invalid test_run payload: "@ + e)),
        }),
{
    match parse_json(sql) {
        Ok(v) => QueryPlan::RunTests { args: read_test_args(&v) },
        Err(e) => {
            let mut t = "Invalid test_run payload: ".to_owned();
            t.append(e.as_str());
            QueryPlan::Reply(refuse(t))
        },
    }
}

/// Decides what is done to answer a query of a module.
pub fn plan_query(query: &DatabaseQuery, from: &str) -> (r: QueryPlan)
    ensures
        r@ == planned(query@, from@),
{
    let id = query.query_id.as_str();
    let sql = query.sql.as_str();
    if same(id, "db_status") {
        QueryPlan::DbStatus
    } else if same(id, "module_list") {
        QueryPlan::ModuleList { expose: may_read_other_credentials(from) }
    } else if same(id, "engine_info") {
        QueryPlan::EngineInfo { with_pin: is_control_surface(from) }
    } else if same(id, "test_run") {
        if !is_control_surface(from) {
            deny("Test runner access denied: not the TUI")
        } else {
            plan_tests(sql)
        }
    } else if same(id, "audit_list") {
        if !is_control_surface(from) {
            deny("Audit access denied: not the TUI")
        } else {
            let payload = read_payload(sql);
            QueryPlan::ListHeld {
                limit: payload.int_at("limit", 100) as i32,
                offset: payload.int_at("offset", 0) as i32,
            }
        }
    } else if same(id, "audit_approve") || same(id, "audit_reject") {
        if !is_control_surface(from) {
            deny("Audit access denied: not the TUI")
        } else {
            let uuid7 = read_payload(sql).text_at("uuid7", "");
            if uuid7.as_str().unicode_len() == 0 {
                deny("audit action requires uuid7")
            } else {
                QueryPlan::Release { uuid7, approve: same(id, "audit_approve") }
            }
        }
    } else if begins_with(id, "mod_") {
        QueryPlan::Moderate
    } else if same(id, "chat_commend") || same(id, "chat_reprimand") {
        QueryPlan::Rate
    } else if same(id, "chat_verify_identity") {
        QueryPlan::VerifyIdentity
    } else if begins_with(id, "userdb_") {
        if !is_control_surface(from) {
            deny("User database access denied: not the TUI")
        } else {
            QueryPlan::UserDb
        }
    } else if same(id, "set_credentials") {
        if !is_control_surface(from) {
            deny("set_credentials denied: not the TUI")
        } else {
            QueryPlan::SetCredentials
        }
    } else if same(id, "audio_for_message") {
        let uuid7 = read_payload(sql).text_at("uuid7", "");
        if uuid7.as_str().unicode_len() == 0 {
            deny("audio_for_message requires uuid7")
        } else {
            QueryPlan::Audio { uuid7 }
        }
    } else if same(id, "test_archive") {
        if !is_test_runner(from) {
            deny("test_archive access denied: not the test runner")
        } else {
            let payload = read_payload(sql);
            QueryPlan::Archive {
                batch: payload.text_at("batch_uuid", "test"),
                entries: read_results(&payload),
            }
        }
    } else if is_read_only_sql(sql) {
        QueryPlan::Read { sql: sql.to_owned() }
    } else {
        deny(
            "Denied: only read-only SQL (SELECT/WITH/EXPLAIN) is allowed via DatabaseQuery — use a dedicated virtual query for writes",
        )
    }
}

/// An answer with a text.
pub open spec fn answered_with(text: Seq<char>) -> QueryReplyView {
    QueryReplyView { success: true, text, error: Seq::empty() }
}

fn answer(text: String) -> (r: QueryReply)
    ensures
        r@ == answered_with(text@),
{
    QueryReply { success: true, text, error: String::new() }
}

fn refuse_after(what: &str, error: &str) -> (r: QueryReply)
    ensures
        r@ == refused(what@ + error@),
{
    let mut t = what.to_owned();
    t.append(error);
    refuse(t)
}

/// How the databases are backed up, as a value.
pub open spec fn status_json(
    timeline_backup: bool,
    userdb_backup: bool,
    size: u64,
    target_mb: u32,
) -> JsonView {
    JsonView::Object(
        Map::<Seq<char>, JsonView>::empty()
            .insert("timeline_backup"@, JsonView::Bool(timeline_backup))
            .insert("userdb_backup"@, JsonView::Bool(userdb_backup))
            .insert("timeline_db_size_bytes"@, JsonView::Pos(size))
            .insert("timeline_db_target_mb"@, JsonView::Pos(target_mb as u64)),
    )
}

/// Whether a place for the user database's backup is configured.
pub open spec fn userdb_backed_up(path: Option<Seq<char>>) -> bool {
    path matches Some(p) && crate::text::trim(p).len() > 0
}

/// Says how the databases are backed up.
pub fn db_status(db: &DatabaseManager, userdb_backup_path: Option<&str>, size: u64) -> (r:
    QueryReply)
    ensures
        r@ == answered_with(
            json_text(
                status_json(
                    db.settings().remote_url matches Some(p) && crate::text::trim(p).len() > 0,
                    userdb_backed_up(opt_view(userdb_backup_path)),
                    size,
                    db.settings().local_target_mb,
                ),
            ),
        ),
{
    let userdb_backup = match userdb_backup_path {
        Some(p) => crate::text::trimmed(p).as_str().unicode_len() > 0,
        None => false,
    };
    let mut m = no_members();
    put(&mut m, "timeline_backup", Json::Bool(db.backup_configured()));
    put(&mut m, "userdb_backup", Json::Bool(userdb_backup));
    put(&mut m, "timeline_db_size_bytes", Json::Pos(size));
    put(&mut m, "timeline_db_target_mb", Json::Pos(db.target_mb() as u64));
    answer(write_json(&object(m)))
}

/// Where the engine is reached, as a value; the PIN is there only for who may see it.
pub open spec fn info_json(port: u16, pin: Option<u32>, location: Seq<char>) -> JsonView {
    JsonView::Object(
        Map::<Seq<char>, JsonView>::empty()
            .insert("port"@, JsonView::Pos(port as u64))
            .insert("pin"@, match pin {
                Some(n) => JsonView::Pos(n as u64),
                None => JsonView::Null,
            })
            .insert("timeline_database_location"@, JsonView::Text(location)),
    )
}

/// Says where the engine is reached.
pub fn engine_info(port: u16, pin: u32, with_pin: bool, location: &str) -> (r: QueryReply)
    ensures
        r@ == answered_with(
            json_text(
                info_json(
                    port,
                    if with_pin {
                        Some(pin)
                    } else {
                        None
                    },
                    location@,
                ),
            ),
        ),
{
    let mut m = no_members();
    put(&mut m, "port", Json::Pos(port as u64));
    if with_pin {
        put(&mut m, "pin", Json::Pos(pin as u64));
    } else {
        put(&mut m, "pin", Json::Null);
    }
    put(&mut m, "timeline_database_location", json_str(location));
    answer(write_json(&object(m)))
}

/// What is answered of a run of the tests: what they wrote, and where they failed what they
/// wrote of errors.
pub fn run_test_suite(passed: bool, stdout: &Vec<u8>, stderr: &Vec<u8>) -> (r: QueryReply)
    ensures
        r@ == (QueryReplyView {
            success: passed,
            text: lossy_text(stdout@),
            error: if passed {
                Seq::empty()
            } else {
                lossy_text(stderr@)
            },
        }),
{
    QueryReply {
        success: passed,
        text: bytes_as_text(stdout),
        error: if passed {
            String::new()
        } else {
            bytes_as_text(stderr)
        },
    }
}

/// Lists the messages that are held for review, given what the database gave.
pub fn held_list(rows: Result<Vec<AuditRow>, String>) -> (r: QueryReply)
    ensures
        r@ == (match rows {
            Ok(l) => answered_with(
                json_text(
                    JsonView::List(
                        views(l@).map_values(|a: AuditRowView| audit_row_json(a)),
                    ),
                ),
            ),
            Err(e) => refused("audit_list failed: "@ + e@),
        }),
{
    match rows {
        Ok(l) => answer(write_json(&list(DatabaseManager::audit_rows(&l)))),
        Err(e) => refuse_after("audit_list failed: ", e.as_str()),
    }
}

/// What is answered of a release, as a value.
pub open spec fn released_json(uuid7: Seq<char>, approve: bool) -> JsonView {
    JsonView::Object(
        Map::<Seq<char>, JsonView>::empty().insert("uuid7"@, JsonView::Text(uuid7)).insert(
            "released"@,
            JsonView::Bool(approve),
        ),
    )
}

/// Says that a message was released, or why not.
pub fn release_reply(uuid7: &str, approve: bool, error: Option<&str>) -> (r: QueryReply)
    ensures
        r@ == (match error {
            None => answered_with(json_text(released_json(uuid7@, approve))),
            Some(e) => refused("audit action failed: "@ + e@),
        }),
{
    match error {
        None => {
            let mut m = no_members();
            put(&mut m, "uuid7", json_str(uuid7));
            put(&mut m, "released", Json::Bool(approve));
            answer(write_json(&object(m)))
        },
        Some(e) => refuse_after("audit action failed: ", e),
    }
}

/// The flags that test results are kept under.
pub fn archive_flags(batch: &str) -> (r: String)
    ensures
        r@ == "test-runner|"@ + batch@,
{
    let mut t = "test-runner|".to_owned();
    t.append(batch);
    t
}

/// Says how many test results were kept, or at which one it failed.
pub fn archive_reply(inserted: u64, error: &str) -> (r: QueryReply)
    ensures
        r@ == (if error@.len() == 0 {
            answered_with(
                json_text(
                    JsonView::Object(
                        Map::<Seq<char>, JsonView>::empty().insert(
                            "inserted"@,
                            JsonView::Pos(inserted),
                        ),
                    ),
                ),
            )
        } else {
            refused(
                "test_archive failed after "@ + decimal(inserted as nat) + " inserts: "@ + error@,
            )
        }),
{
    if error.unicode_len() == 0 {
        let mut m = no_members();
        put(&mut m, "inserted", Json::Pos(inserted));
        answer(write_json(&object(m)))
    } else {
        let mut t = "test_archive failed after ".to_owned();
        t.append(u64_text(inserted).as_str());
        t.append(" inserts: ");
        t.append(error);
        refuse(t)
    }
}

/// What running a statement gives: its rows, or the words of an error.
pub open spec fn run_outcome(run: QueryRunView) -> Result<Seq<char>, Seq<char>> {
    match run {
        QueryRunView::Done(t) => Ok(t),
        QueryRunView::Failed(e) => Err(e),
        QueryRunView::Broke { words, reopen_error: None } => Err(
            "query panicked (unsupported SQL?); database reopened: "@ + words,
        ),
        QueryRunView::Broke { words, reopen_error: Some(e) } => Err(
            "query panicked ("@ + words + "); reopen failed: "@ + e,
        ),
    }
}

/// What running a statement gives; a driver that broke down is an error like another.
pub fn guarded_execute_query(run: QueryRun) -> (r: Result<String, String>)
    ensures
        (match r {
            Ok(t) => run_outcome(run@) == Ok::<Seq<char>, Seq<char>>(t@),
            Err(e) => run_outcome(run@) == Err::<Seq<char>, Seq<char>>(e@),
        }),
{
    match run {
        QueryRun::Done(t) => Ok(t),
        QueryRun::Failed(e) => Err(e),
        QueryRun::Broke { words, reopen_error } => match reopen_error {
            None => {
                let mut t = "query panicked (unsupported SQL?); database reopened: ".to_owned();
                t.append(words.as_str());
                Err(t)
            },
            Some(e) => {
                let mut t = "query panicked (".to_owned();
                t.append(words.as_str());
                t.append("); reopen failed: ");
                t.append(e.as_str());
                Err(t)
            },
        },
    }
}

/// The answer to a statement that only reads.
pub fn read_reply(run: QueryRun) -> (r: QueryReply)
    ensures
        r@ == (match run_outcome(run@) {
            Ok(t) => answered_with(t),
            Err(e) => refused(e),
        }),
{
    match guarded_execute_query(run) {
        Ok(t) => answer(t),
        Err(e) => refuse(e),
    }
}

/// The texts among the members of an object.
pub open spec fn text_members(m: Map<Seq<char>, JsonView>) -> Map<Seq<char>, Seq<char>> {
    Map::new(|k: Seq<char>| m.dom().contains(k) && m[k] is Text, |k: Seq<char>| m[k]->Text_0)
}

/// The credentials that a payload submits.
pub open spec fn submitted(payload: JsonView) -> Map<Seq<char>, Seq<char>> {
    match member(payload, "values"@) {
        Some(JsonView::Object(m)) => text_members(m),
        _ => Map::empty(),
    }
}

fn read_text_members(pairs: &Vec<(String, Json)>) -> (r: StrMap<String>)
    ensures
        r.wf(),
        text_values(r@) == text_members(members(pairs@)),
{
    let mut out: StrMap<String> = StrMap::new();
    let mut i: usize = 0;
    assert(text_values(out@) =~= text_members(members(pairs@.take(0)))) by {
        assert(members(pairs@.take(0)) =~= Map::<Seq<char>, JsonView>::empty());
    }
    while i < pairs.len()
        invariant
            i <= pairs@.len(),
            out.wf(),
            text_values(out@) == text_members(members(pairs@.take(i as int))),
        decreases pairs@.len() - i,
    {
        let ghost m = members(pairs@.take(i as int));
        let ghost seen = text_values(out@);
        let key = &pairs[i].0;
        let value = &pairs[i].1;
        proof {
            crate::json::lemma_members_push(pairs@.take(i as int), *key, *value);
            assert(pairs@.take(i + 1) =~= pairs@.take(i as int).push((*key, *value)));
            crate::json::lemma_json_view(*value);
        }
        match value {
            Json::Text(t) => {
                out.insert(key.clone(), t.clone());
                assert(text_values(out@) =~= seen.insert(key@, t@));
                assert(seen.insert(key@, t@) =~= text_members(m.insert(key@, value@)));
            },
            _ => {
                let _ = out.remove(key.as_str());
                assert(text_values(out@) =~= seen.remove(key@));
                assert(seen.remove(key@) =~= text_members(m.insert(key@, value@)));
            },
        }
        i = i + 1;
    }
    assert(pairs@.take(i as int) =~= pairs@);
    out
}

/// The module and the credentials that a payload submits; `None` where it cannot be read.
pub fn read_credentials(sql: &str) -> (r: Option<(String, StrMap<String>)>)
    ensures
        (match json_read(sql@) {
            Ok(v) => r matches Some(p) && p.0@ == member_text(v, "module_name"@, ""@)
                && p.1.wf() && text_values(p.1@) == submitted(v),
            Err(_) => r is None,
        }),
{
    match parse_json(sql) {
        Ok(v) => {
            let name = v.text_at("module_name", "");
            let values = match v.get("values") {
                Some(j) => {
                    proof {
                        crate::json::lemma_json_view(*j);
                    }
                    match j {
                        Json::Object(pairs) => read_text_members(pairs),
                        _ => StrMap::new(),
                    }
                },
                None => StrMap::new(),
            };
            assert(text_values(values@) =~= submitted(v@));
            Some((name, values))
        },
        Err(_) => None,
    }
}

/// The module that credentials are submitted for, or why they are refused: the payload
/// cannot be read, there is no such module, or it asks for no such credential.
pub fn check_credentials(registry: &ModuleRegistry, sql: &str) -> (r: Result<
    (DiscoveredModule, StrMap<String>),
    QueryReply,
>)
    requires
        registry.wf(),
    ensures
        (match json_read(sql@) {
            Err(_) => r matches Err(q) && q@ == refused(
                "Failed to parse set_credentials payload"@,
            ),
            Ok(v) => {
                let name = member_text(v, "module_name"@, ""@);
                let module = crate::strmap::value_at(registry.listed(), name);
                if !has_key(registry.listed(), name) {
                    r matches Err(q) && q@ == refused("Unknown module: "@ + name)
                } else if forall|k: Seq<char>| #[trigger]
                    submitted(v).dom().contains(k) ==> known_key(module.manifest.credentials, k) {
                    r matches Ok(p) && p.0@ == module && p.1.wf() && text_values(p.1@)
                        == submitted(v)
                } else {
                    r matches Err(q) && exists|l: Seq<Seq<char>>| #[trigger]
                        lists_unknown(l, module.manifest.credentials, submitted(v).dom()) && q@
                            == refused(unknown_keys(l))
                }
            },
        }),
{
    let (name, values) = match read_credentials(sql) {
        Some(p) => p,
        None => {
            return Err(refuse_with("Failed to parse set_credentials payload"));
        },
    };
    match registry.get(name.as_str()) {
        Some(m) => {
            let module = m.clone();
            proof {
                assert forall|k: Seq<char>|
                    text_values(values@).dom().contains(k) == #[trigger] values@.dom().contains(
                        k,
                    ) by {}
            }
            match validate_credential_fields(&module.manifest.credentials, &values) {
                Ok(()) => {
                    assert forall|k: Seq<char>| #[trigger]
                        submitted(json_read(sql@)->Ok_0).dom().contains(k) implies known_key(
                        module@.manifest.credentials,
                        k,
                    ) by {
                        assert(values@.dom().contains(k));
                    }
                    Ok((module, values))
                },
                Err(e) => {
                    proof {
                        assert(values@.dom() =~= submitted(json_read(sql@)->Ok_0).dom());
                        let l = choose|l: Seq<Seq<char>>| #[trigger]
                            lists_unknown(l, module@.manifest.credentials, values@.dom()) && e@
                                == unknown_keys(l);
                        assert(lists_unknown(
                            l,
                            module@.manifest.credentials,
                            submitted(json_read(sql@)->Ok_0).dom(),
                        ));
                        if forall|k: Seq<char>| #[trigger]
                            submitted(json_read(sql@)->Ok_0).dom().contains(k) ==> known_key(
                                module@.manifest.credentials,
                                k,
                            ) {
                            assert forall|k: Seq<char>| #[trigger]
                                values@.dom().contains(k) implies known_key(
                                views(module.manifest.credentials@),
                                k,
                            ) by {
                                assert(submitted(json_read(sql@)->Ok_0).dom().contains(k));
                            }
                        }
                    }
                    Err(refuse(e))
                },
            }
        },
        None => Err(refuse_after("Unknown module: ", name.as_str())),
    }
}

/// What is answered of stored credentials, as a value.
pub open spec fn stored_json(name: Seq<char>) -> JsonView {
    JsonView::Object(
        Map::<Seq<char>, JsonView>::empty().insert("success"@, JsonView::Bool(true)).insert(
            "message"@,
            JsonView::Text("Credentials saved for '"@ + name + "'"@),
        ),
    )
}

/// Says that credentials were stored, or why not.
pub fn credentials_reply(name: &str, error: Option<&str>) -> (r: QueryReply)
    ensures
        r@ == (match error {
            None => answered_with(json_text(stored_json(name@))),
            Some(e) => refused(e@),
        }),
{
    match error {
        None => {
            let mut t = "Credentials saved for '".to_owned();
            t.append(name);
            t.append("'");
            let mut m = no_members();
            put(&mut m, "success", Json::Bool(true));
            put(&mut m, "message", json_str(t.as_str()));
            answer(write_json(&object(m)))
        },
        Some(e) => refuse_with(e),
    }
}

/// What a module is answered: the result of its query, with its token handed back.
pub open spec fn result_container(
    asked: ContainerView,
    instance_uuid7: Seq<char>,
    result: DatabaseQueryResultView,
) -> ContainerView {
    ContainerView {
        version: 1,
        auth_token: asked.auth_token,
        module_name: "cockatiel"@,
        module_instance_uuid7: instance_uuid7,
        payload: Some(PayloadView::DatabaseQueryResult(result)),
    }
}

fn wrap_result(asked: &Container, instance_uuid7: &str, result: DatabaseQueryResult) -> (r:
    Container)
    ensures
        r@ == result_container(asked@, instance_uuid7@, result@),
{
    Container {
        version: 1,
        auth_token: asked.auth_token.clone(),
        module_name: "cockatiel".to_owned(),
        module_instance_uuid7: instance_uuid7.to_owned(),
        payload: Some(Payload::DatabaseQueryResult(result)),
    }
}

/// What a module is answered of a reply.
pub fn query_result(
    asked: &Container,
    instance_uuid7: &str,
    query_id: &str,
    reply: &QueryReply,
) -> (r: Container)
    ensures
        r@ == result_container(
            asked@,
            instance_uuid7@,
            DatabaseQueryResultView {
                query_id: query_id@,
                success: reply@.success,
                error: reply@.error,
                result_blob: vstd::utf8::encode_utf8(reply@.text),
            },
        ),
{
    wrap_result(
        asked,
        instance_uuid7,
        DatabaseQueryResult {
            query_id: query_id.to_owned(),
            success: reply.success,
            error: reply.error.clone(),
            result_blob: text_bytes(reply.text.as_str()),
        },
    )
}

/// What a module is answered of a message's audio: the bytes, none where there is no
/// audio, or why they cannot be had.
pub fn audio_result(
    asked: &Container,
    instance_uuid7: &str,
    audio: Result<Option<(String, Vec<u8>)>, String>,
) -> (r: Container)
    ensures
        r@ == result_container(
            asked@,
            instance_uuid7@,
            DatabaseQueryResultView {
                query_id: "audio_for_message"@,
                success: audio is Ok,
                error: match audio {
                    Ok(_) => Seq::empty(),
                    Err(e) => "audio_for_message failed: "@ + e@,
                },
                result_blob: match audio {
                    Ok(Some(a)) => a.1@,
                    _ => Seq::empty(),
                },
            },
        ),
{
    let result = match audio {
        Ok(Some((_, bytes))) => DatabaseQueryResult {
            query_id: "audio_for_message".to_owned(),
            success: true,
            error: String::new(),
            result_blob: bytes,
        },
        Ok(None) => DatabaseQueryResult {
            query_id: "audio_for_message".to_owned(),
            success: true,
            error: String::new(),
            result_blob: Vec::new(),
        },
        Err(e) => {
            let mut t = "audio_for_message failed: ".to_owned();
            t.append(e.as_str());
            DatabaseQueryResult {
                query_id: "audio_for_message".to_owned(),
                success: false,
                error: t,
                result_blob: Vec::new(),
            }
        },
    };
    wrap_result(asked, instance_uuid7, result)
}

/// Only the control surface runs tests, reviews messages, reaches the user database, stores
/// credentials or learns the PIN; only the test runner keeps test results.
pub proof fn law_restricted_queries(q: DatabaseQueryView, from: Seq<char>)
    ensures
        !control_surface(from) ==> {
            let p = planned(q, from);
            &&& !(p is RunTests)
            &&& !(p is ListHeld)
            &&& !(p is Release)
            &&& !(p is UserDb)
            &&& !(p is SetCredentials)
            &&& (p matches QueryPlanView::EngineInfo { with_pin } ==> !with_pin)
        },
        !test_runner(from) ==> !(planned(q, from) is Archive),
        !reads_credentials(from) ==> (planned(q, from) matches QueryPlanView::ModuleList { expose }
            ==> !expose),
{
}

/// The timeline is never written by a module's own statement: what is run only reads.
pub proof fn law_only_reads_are_run(q: DatabaseQueryView, from: Seq<char>)
    ensures
        planned(q, from) matches QueryPlanView::Read { sql } ==> read_only(sql) && sql == q.sql,
{
}

/// Who may not see the PIN is told none, whatever it is.
pub proof fn law_pin_is_hidden(port: u16, location: Seq<char>)
    ensures
        member(info_json(port, None, location), "pin"@) == Some(JsonView::Null),
{
    reveal_strlit("pin");
    reveal_strlit("timeline_database_location");
    assert("pin"@.len() == 3);
    assert("timeline_database_location"@.len() == 26);
}

} // verus!
