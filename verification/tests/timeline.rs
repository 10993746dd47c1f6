//! The timeline database, queries on it and what is listed of modules.
use cockatiel::auth::AuthSession;
use cockatiel::database::{
    add_audio_type, open_local, read_audio_type, AuditRow, DatabaseConfig, DatabaseManager,
    EventRow, Recovery, SqlValue, Statement,
};
use cockatiel::json::write_json;
use cockatiel::module_list::{module_list, ListedModule};
use cockatiel::module_manager::{
    CredentialField, DiscoveredModule, Found, ManifestRead, ModuleManifest, ModuleRegistry,
};
use cockatiel::module_registry::RegisteredModule;
use cockatiel::orchestrator::DbOp;
use cockatiel::proto::{Container, DatabaseQuery, Payload, TimelineEvent};
use cockatiel::queries::{
    archive_flags, archive_reply, audio_result, check_credentials, credentials_reply, db_status,
    engine_info, guarded_execute_query, held_list, plan_query, query_result, read_credentials,
    read_reply, release_reply, run_test_suite, QueryPlan, QueryRun,
};
use cockatiel::random::Random;
use cockatiel::timeline_database::{insert, open};
use cockatiel::user_queries::QueryReply;
use cockatiel::writes::{flags_needed, write_statement};

fn db(remote: Option<&str>) -> DatabaseManager {
    DatabaseManager::new(DatabaseConfig {
        local_path: "data.db".to_string(),
        remote_url: remote.map(|s| s.to_string()),
        sync_interval_secs: 15,
        local_target_mb: 50,
    })
}

fn shown(s: &Statement) -> String {
    format!("{} {:?}", s.sql, s.params)
}

#[test]
fn tables_are_made() {
    let s = open_local();
    assert_eq!(s.len(), 3);
    assert!(s[0].starts_with("CREATE TABLE IF NOT EXISTS timeline_events"));
    assert!(open().contains("CREATE TABLE IF NOT EXISTS timeline ("));
}

#[test]
fn stages_have_their_columns() {
    let d = db(None);
    let id = vec![1u8, 2];
    for (stage, column) in [
        ("pre_process", "pre_process_completed_at"),
        ("in_process", "in_process_completed_at"),
        ("post_process", "post_process_completed_at"),
        ("persisted", "persisted_at"),
    ] {
        let s = d.update_stage_completed(&id, stage, 9).unwrap();
        assert_eq!(s.sql, format!("UPDATE timeline_events SET {} = ?1 WHERE uuid7 = ?2", column));
        assert_eq!(format!("{:?}", s.params), "[Integer(9), Blob([1, 2])]");
    }
    assert_eq!(d.update_stage_completed(&id, "x", 9).unwrap_err(), "Unknown stage: x");
}

#[test]
fn statements_say_what_they_do() {
    let d = db(None);
    let id = vec![1u8];
    assert_eq!(
        shown(&d.set_pipeline_status(&id, "queued")),
        "UPDATE timeline_events SET pipeline_status = ?1 WHERE uuid7 = ?2 [Text(\"queued\"), Blob([1])]"
    );
    assert_eq!(
        shown(&d.set_error(&id, "e")),
        "UPDATE timeline_events SET error_message = ?1, pipeline_status = 'failed' WHERE uuid7 = ?2 [Text(\"e\"), Blob([1])]"
    );
    assert!(shown(&d.set_user_uuid(&id, "u")).contains("user_uuid7 IS NULL"));
    let s = d.insert_event(&id, 1, "kick", &vec![3], "hi", "c", "{}");
    assert_eq!(
        format!("{:?}", s.params),
        "[Blob([1]), Integer(1), Integer(1), Text(\"kick\"), Blob([3]), Text(\"hi\"), Text(\"c\"), Text(\"{}\")]"
    );
    let s = d.mark_synced(&vec![vec![1], vec![2]], 5);
    assert_eq!(s.len(), 2);
    assert_eq!(format!("{:?}", s[1].params), "[Integer(5), Blob([2])]");
    assert_eq!(format!("{:?}", d.list_audit(0, -1).params), "[Integer(100), Integer(0)]");
    assert_eq!(format!("{:?}", d.list_audit(7, 3).params), "[Integer(7), Integer(3)]");
    assert!(d.release_audit(&id, true, 4).sql.contains("'complete', persisted_at = ?2"));
    assert!(d.release_audit(&id, false, 4).sql.contains("'failed'"));
    assert_eq!(d.checkpoint_wal().sql, "PRAGMA wal_checkpoint(TRUNCATE)");
    assert_eq!(d.wal_path(), "data.db-wal");
}

#[test]
fn backups_are_used_where_they_are() {
    assert!(!db(None).backup_configured());
    assert!(!db(Some("  ")).backup_configured());
    assert!(db(Some("b.db")).backup_configured());
    assert!(matches!(db(Some("b.db")).initialize(true), Recovery::Restore));
    match db(Some("b.db")).initialize(false) {
        Recovery::GiveUp(e) => assert_eq!(e, "local DB corrupt and no backup exists"),
        other => panic!("{:?}", other),
    }
    match db(None).initialize(false) {
        Recovery::GiveUp(e) => assert_eq!(e, "local DB corrupt and no backup configured"),
        other => panic!("{:?}", other),
    }
    assert!(db(Some(" ")).sync_to_remote().is_none());
    assert_eq!(
        db(Some("b.db")).sync_to_remote(),
        Some(("b.db".to_string(), "b.db.tmp".to_string()))
    );
}

#[test]
fn audio_type_is_noted_once_and_read_back() {
    assert_eq!(read_audio_type(""), "audio/mpeg");
    assert_eq!(add_audio_type("", "audio/wav"), "audio_type=audio/wav");
    let once = add_audio_type("a,b", "audio/wav");
    assert_eq!(once, "a,b,audio_type=audio/wav");
    assert_eq!(add_audio_type(&once, "audio/wav"), once);
    assert_eq!(read_audio_type(&once), "audio/wav");
    let d = db(None);
    let s = d.set_audio(&vec![1], "audio/wav", &vec![9], "a");
    assert_eq!(
        format!("{:?}", s.params),
        "[Blob([9]), Text(\"a,audio_type=audio/wav\"), Blob([1])]"
    );
    assert_eq!(DatabaseManager::get_audio(None, "a"), None);
    assert_eq!(DatabaseManager::get_audio(Some(vec![]), "a"), None);
    assert_eq!(
        DatabaseManager::get_audio(Some(vec![4]), &once),
        Some(("audio/wav".to_string(), vec![4]))
    );
}

#[test]
fn rows_become_objects() {
    let columns = vec!["a".to_string(), "b".to_string()];
    let rows = vec![
        vec![
            SqlValue::Integer(-1),
            SqlValue::Text("x".to_string()),
            SqlValue::Blob(vec![0x68, 0xff]),
        ],
        vec![SqlValue::Real(Some("1.5".to_string())), SqlValue::Real(None), SqlValue::Null],
    ];
    assert_eq!(
        DatabaseManager::execute_query(&columns, &rows),
        "[{\"a\":-1,\"b\":\"x\",\"col_2\":\"h\u{fffd}\"},{\"a\":1.5,\"b\":null,\"col_2\":null}]"
    );
    assert_eq!(DatabaseManager::execute_query(&columns, &vec![]), "[]");
}

fn event_row() -> EventRow {
    EventRow {
        schema_version: 1,
        event_type: 5,
        platform: Some("kick".to_string()),
        raw_message: "hi".to_string(),
        command: None,
        flags: None,
        user_uuid7: None,
        processed_message: None,
        error_message: None,
        pre_process_completed_at: Some(3),
        in_process_completed_at: None,
        post_process_completed_at: None,
        persisted_at: None,
        pipeline_status: "queued".to_string(),
        synced_at: None,
    }
}

fn audit_row() -> AuditRow {
    AuditRow {
        uuid7: b"m1".to_vec(),
        platform: Some("kick".to_string()),
        raw_message: "hola".to_string(),
        user_uuid7: None,
        flags: Some("language".to_string()),
        persisted_at: Some(8),
    }
}

#[test]
fn messages_become_json() {
    assert_eq!(DatabaseManager::get_event_as_json(None), None);
    let t = DatabaseManager::get_event_as_json(Some(event_row())).unwrap();
    assert_eq!(
        t,
        "{\"command\":null,\"error_message\":null,\"event_type\":5,\"flags\":null,\"in_process_completed_at\":null,\"persisted_at\":null,\"pipeline_status\":\"queued\",\"platform\":\"kick\",\"post_process_completed_at\":null,\"pre_process_completed_at\":3,\"processed_message\":null,\"raw_message\":\"hi\",\"schema_version\":1,\"synced_at\":null,\"user_uuid7\":null}"
    );
    assert!(DatabaseManager::get_audit_entry(None).is_none());
    let e = DatabaseManager::get_audit_entry(Some(audit_row())).unwrap();
    assert_eq!(
        write_json(&e),
        "{\"platform\":\"kick\",\"raw_message\":\"hola\",\"reason\":\"language\",\"user_uuid7\":null}"
    );
    let r = held_list(Ok(vec![audit_row()]));
    assert_eq!(
        r.text,
        "[{\"persisted_at\":8,\"platform\":\"kick\",\"raw_message\":\"hola\",\"reason\":\"language\",\"user_uuid7\":null,\"uuid7\":\"m1\"}]"
    );
    assert_eq!(held_list(Err("x".to_string())).error, "audit_list failed: x");
}

fn query(id: &str, sql: &str) -> DatabaseQuery {
    DatabaseQuery { query_id: id.to_string(), sql: sql.to_string() }
}

fn refusal(id: &str, sql: &str, from: &str) -> String {
    match plan_query(&query(id, sql), from) {
        QueryPlan::Reply(r) => {
            assert!(!r.success);
            assert_eq!(r.text, "");
            r.error
        }
        other => panic!("{:?}", other),
    }
}

const TUI: &str = "cockatiel-tui";

#[test]
fn restricted_queries_are_refused() {
    assert_eq!(refusal("test_run", "{}", "m"), "Test runner access denied: not the TUI");
    assert_eq!(refusal("audit_list", "{}", "m"), "Audit access denied: not the TUI");
    assert_eq!(refusal("audit_approve", "{}", "m"), "Audit access denied: not the TUI");
    assert_eq!(refusal("audit_reject", "{}", TUI), "audit action requires uuid7");
    assert_eq!(refusal("userdb_get_user", "{}", "m"), "User database access denied: not the TUI");
    assert_eq!(refusal("set_credentials", "{}", "m"), "set_credentials denied: not the TUI");
    assert_eq!(refusal("audio_for_message", "{}", "m"), "audio_for_message requires uuid7");
    assert_eq!(
        refusal("test_archive", "{}", TUI),
        "test_archive access denied: not the test runner"
    );
    assert!(refusal("test_run", "{", TUI).starts_with("Invalid test_run payload: "));
    assert_eq!(
        refusal("x", "DELETE FROM timeline_events", TUI),
        "Denied: only read-only SQL (SELECT/WITH/EXPLAIN) is allowed via DatabaseQuery — use a dedicated virtual query for writes"
    );
}

#[test]
fn queries_are_planned() {
    assert!(matches!(plan_query(&query("db_status", ""), "m"), QueryPlan::DbStatus));
    assert!(matches!(
        plan_query(&query("module_list", ""), "m"),
        QueryPlan::ModuleList { expose: false }
    ));
    assert!(matches!(
        plan_query(&query("module_list", ""), "term-chat"),
        QueryPlan::ModuleList { expose: true }
    ));
    assert!(matches!(
        plan_query(&query("engine_info", ""), "term-chat"),
        QueryPlan::EngineInfo { with_pin: false }
    ));
    assert!(matches!(
        plan_query(&query("engine_info", ""), TUI),
        QueryPlan::EngineInfo { with_pin: true }
    ));
    match plan_query(&query("test_run", "{\"module\": \"tts\", \"iterations\": 5}"), TUI) {
        QueryPlan::RunTests { args } => assert_eq!(
            args.join(" "),
            "--suite all --module tts --iterations 5 --json"
        ),
        other => panic!("{:?}", other),
    }
    match plan_query(&query("audit_list", "{\"limit\": 4}"), TUI) {
        QueryPlan::ListHeld { limit, offset } => assert_eq!((limit, offset), (4, 0)),
        other => panic!("{:?}", other),
    }
    match plan_query(&query("audit_approve", "{\"uuid7\": \"m1\"}"), TUI) {
        QueryPlan::Release { uuid7, approve } => assert_eq!((uuid7.as_str(), approve), ("m1", true)),
        other => panic!("{:?}", other),
    }
    assert!(matches!(plan_query(&query("mod_ban", ""), "m"), QueryPlan::Moderate));
    assert!(matches!(plan_query(&query("chat_commend", ""), "m"), QueryPlan::Rate));
    assert!(matches!(
        plan_query(&query("chat_verify_identity", ""), "m"),
        QueryPlan::VerifyIdentity
    ));
    assert!(matches!(plan_query(&query("userdb_x", ""), TUI), QueryPlan::UserDb));
    assert!(matches!(plan_query(&query("set_credentials", ""), TUI), QueryPlan::SetCredentials));
    match plan_query(
        &query("test_archive", "{\"entries\": [{\"json\": \"a\"}, {\"json\": \"\"}, {}, {\"json\": \"b\"}]}"),
        "cockatiel-test-runner",
    ) {
        QueryPlan::Archive { batch, entries } => {
            assert_eq!(batch, "test");
            assert_eq!(entries, vec!["a".to_string(), "b".to_string()]);
        }
        other => panic!("{:?}", other),
    }
    match plan_query(&query("anything", "SELECT 1"), "m") {
        QueryPlan::Read { sql } => assert_eq!(sql, "SELECT 1"),
        other => panic!("{:?}", other),
    }
}

#[test]
fn replies_are_made() {
    assert_eq!(
        db_status(&db(Some("b")), Some(" "), 12).text,
        "{\"timeline_backup\":true,\"timeline_db_size_bytes\":12,\"timeline_db_target_mb\":50,\"userdb_backup\":false}"
    );
    assert_eq!(
        engine_info(9734, 123456, true, "t.db").text,
        "{\"pin\":123456,\"port\":9734,\"timeline_database_location\":\"t.db\"}"
    );
    assert_eq!(
        engine_info(9734, 123456, false, "t.db").text,
        "{\"pin\":null,\"port\":9734,\"timeline_database_location\":\"t.db\"}"
    );
    let r = run_test_suite(false, &b"out".to_vec(), &b"err".to_vec());
    assert_eq!((r.success, r.text.as_str(), r.error.as_str()), (false, "out", "err"));
    assert_eq!(run_test_suite(true, &b"out".to_vec(), &b"err".to_vec()).error, "");
    assert_eq!(release_reply("m1", true, None).text, "{\"released\":true,\"uuid7\":\"m1\"}");
    assert_eq!(release_reply("m1", true, Some("x")).error, "audit action failed: x");
    assert_eq!(archive_flags("b"), "test-runner|b");
    assert_eq!(archive_reply(3, "").text, "{\"inserted\":3}");
    assert_eq!(archive_reply(3, "x").error, "test_archive failed after 3 inserts: x");
    assert_eq!(read_reply(QueryRun::Done("[]".to_string())).text, "[]");
    assert_eq!(read_reply(QueryRun::Failed("no".to_string())).error, "no");
    assert_eq!(
        guarded_execute_query(QueryRun::Broke { words: "w".to_string(), reopen_error: None })
            .unwrap_err(),
        "query panicked (unsupported SQL?); database reopened: w"
    );
    assert_eq!(
        guarded_execute_query(QueryRun::Broke {
            words: "w".to_string(),
            reopen_error: Some("r".to_string())
        })
        .unwrap_err(),
        "query panicked (w); reopen failed: r"
    );
}

fn asked() -> Container {
    Container {
        version: 1,
        auth_token: "tok".to_string(),
        module_name: "m".to_string(),
        module_instance_uuid7: "claimed".to_string(),
        payload: None,
    }
}

#[test]
fn results_go_back_with_the_token() {
    let reply = QueryReply { success: true, text: "é".to_string(), error: String::new() };
    let c = query_result(&asked(), "u", "q", &reply);
    assert_eq!(c.auth_token, "tok");
    assert_eq!(c.module_name, "cockatiel");
    assert_eq!(c.module_instance_uuid7, "u");
    match c.payload {
        Some(Payload::DatabaseQueryResult(r)) => {
            assert_eq!(r.query_id, "q");
            assert_eq!(r.result_blob, "é".as_bytes());
        }
        other => panic!("{:?}", other),
    }
    let c = audio_result(&asked(), "u", Ok(Some(("audio/wav".to_string(), vec![1]))));
    assert!(matches!(
        c.payload,
        Some(Payload::DatabaseQueryResult(r)) if r.success && r.result_blob == vec![1]
    ));
    let c = audio_result(&asked(), "u", Ok(None));
    assert!(matches!(
        c.payload,
        Some(Payload::DatabaseQueryResult(r)) if r.success && r.result_blob.is_empty()
    ));
    let c = audio_result(&asked(), "u", Err("x".to_string()));
    assert!(matches!(
        c.payload,
        Some(Payload::DatabaseQueryResult(r)) if r.error == "audio_for_message failed: x"
    ));
}

fn field(key: &str, sensitive: bool, optional: bool) -> CredentialField {
    CredentialField {
        key: key.to_string(),
        label: key.to_string(),
        sensitive,
        list: false,
        optional,
        env: String::new(),
    }
}

fn discovered(name: &str) -> DiscoveredModule {
    DiscoveredModule {
        manifest: ModuleManifest {
            name: name.to_string(),
            description: "d".to_string(),
            version: "1".to_string(),
            capabilities: String::new(),
            root_file: String::new(),
            launch_command: String::new(),
            command_flags: vec![],
            autostart: true,
            terminal: false,
            credentials: vec![field("TOKEN", true, false)],
            unresponsive_timeout_secs: 0,
            probe_response_secs: 0,
        },
        directory: "mods/a".to_string(),
    }
}

fn found(name: &str) -> ModuleRegistry {
    let mut r = ModuleRegistry::new();
    let errors = r.discover(vec![Found::Candidate {
        path: "mods/a".to_string(),
        manifest: ManifestRead::Manifest(discovered(name).manifest),
    }]);
    assert!(errors.is_empty());
    r
}

#[test]
fn credentials_are_checked() {
    let r = found("a");
    match check_credentials(&r, "{") {
        Err(q) => assert_eq!(q.error, "Failed to parse set_credentials payload"),
        Ok(_) => panic!("read"),
    }
    match check_credentials(&r, "{\"module_name\": \"b\", \"values\": {}}") {
        Err(q) => assert_eq!(q.error, "Unknown module: b"),
        Ok(_) => panic!("known"),
    }
    match check_credentials(&r, "{\"module_name\": \"a\", \"values\": {\"X\": \"1\"}}") {
        Err(q) => assert_eq!(q.error, "Unknown credential key: X"),
        Ok(_) => panic!("taken"),
    }
    let two = "{\"module_name\": \"a\", \"values\": {\"Y\": \"1\", \"TOKEN\": \"2\", \"X\": \"3\"}}";
    match check_credentials(&r, two) {
        Err(q) => assert_eq!(q.error, "Unknown credential key: X, Y"),
        Ok(_) => panic!("taken"),
    }
    match check_credentials(&r, "{\"module_name\": \"a\", \"values\": {\"TOKEN\": \"1\", \"n\": 2}}") {
        Ok((m, v)) => {
            assert_eq!(m.manifest.name, "a");
            assert_eq!(v.len(), 1);
            assert_eq!(v.get("TOKEN").unwrap(), "1");
        }
        Err(q) => panic!("{:?}", q),
    }
    assert!(read_credentials("[]").unwrap().1.len() == 0);
    assert_eq!(
        credentials_reply("a", None).text,
        "{\"message\":\"Credentials saved for 'a'\",\"success\":true}"
    );
    assert_eq!(credentials_reply("a", Some("disk")).error, "disk");
}

fn live(name: &str) -> AuthSession {
    AuthSession {
        module_name: name.to_string(),
        instance_uuid7: "live".to_string(),
        auth_token: "secret token".to_string(),
        position: "input".to_string(),
        priority: 2,
        authenticated: true,
        connected_at: Some(4),
        shutdown_at: None,
        last_activity_ms: 6,
        last_probe_at_ms: 0,
        probe_deadline_ms: 0,
        unresponsive: false,
        peer_loopback: false,
        socket_token: 1,
    }
}

#[test]
fn modules_are_listed_once_and_in_order() {
    let on_disk = vec![ListedModule {
        module: discovered("b"),
        env: Some("TOKEN=hush\n".to_string()),
        config: None,
    }];
    let kept = vec![
        RegisteredModule {
            name: "c".to_string(),
            instance_uuid7: "kc".to_string(),
            position: "postprocess".to_string(),
            priority: 1,
            auto_auth: true,
            auth_token: "t".to_string(),
        },
        RegisteredModule {
            name: "b".to_string(),
            instance_uuid7: "kb".to_string(),
            position: "preprocess".to_string(),
            priority: 9,
            auto_auth: true,
            auth_token: "t".to_string(),
        },
    ];
    let sessions = vec![live("a"), live("b")];
    let open = module_list(&on_disk, &kept, &sessions, true);
    let closed = module_list(&on_disk, &kept, &sessions, false);
    assert!(open.contains("\"credential_values\":{\"TOKEN\":\"hush\"}"));
    assert!(closed.contains("\"credential_values\":{}"));
    assert!(!closed.contains("hush"));
    assert!(!open.contains("secret token"));
    assert!(open.contains("\"config_complete\":true"));
    let a = closed.find("\"name\":\"a\"").unwrap();
    let b = closed.find("\"name\":\"b\"").unwrap();
    let c = closed.find("\"name\":\"c\"").unwrap();
    assert!(a < b && b < c);
    assert_eq!(closed.matches("\"name\":\"b\"").count(), 1);
    assert!(closed.contains("\"uuid7\":\"live\""));
    assert!(closed.contains("\"uuid7\":\"kc\""));
    assert!(!closed.contains("\"uuid7\":\"kb\""));
    assert_eq!(module_list(&vec![], &vec![], &vec![], true), "[]");
}

fn event(i: &str, u: &str, v: i32) -> TimelineEvent {
    TimelineEvent {
        c: "c".to_string(),
        d: vec![1],
        e: String::new(),
        f: String::new(),
        i: i.to_string(),
        o: "kick".to_string(),
        p: "p".to_string(),
        r: "r".to_string(),
        s: "s".to_string(),
        t: "chat".to_string(),
        u: u.to_string(),
        v,
    }
}

const V7: &str = "01890a5d-ac96-774b-bcce-b302099a8057";
const V4: &str = "550e8400-e29b-41d4-a716-446655440000";

#[test]
fn events_are_checked_before_they_are_kept() {
    assert_eq!(insert(&event(" ", "", 1)).unwrap_err(), "TimelineEvent.i cannot be empty");
    let mut e = event(V7, "", 1);
    e.o = String::new();
    assert_eq!(insert(&e).unwrap_err(), "TimelineEvent.o cannot be empty");
    let mut e = event(V7, "", 1);
    e.t = "\t".to_string();
    assert_eq!(insert(&e).unwrap_err(), "TimelineEvent.t cannot be empty");
    assert!(insert(&event("nope", "", 1)).unwrap_err().starts_with("invalid timeline UUID7 'nope': "));
    assert_eq!(
        insert(&event(V4, "", 1)).unwrap_err(),
        format!("timeline event '{}' is not a UUID7", V4)
    );
    assert!(insert(&event(V7, "x", 1)).unwrap_err().starts_with("invalid user UUID 'x': "));
}

#[test]
fn events_are_kept_under_their_ids() {
    let s = insert(&event(V7, V4, 0)).unwrap();
    assert!(s.sql.starts_with("INSERT INTO timeline "));
    assert_eq!(s.params.len(), 12);
    let id: Vec<u8> = vec![
        0x01, 0x89, 0x0a, 0x5d, 0xac, 0x96, 0x77, 0x4b, 0xbc, 0xce, 0xb3, 0x02, 0x09, 0x9a, 0x80,
        0x57,
    ];
    assert!(matches!(&s.params[0], SqlValue::Blob(b) if *b == id));
    assert!(matches!(&s.params[10], SqlValue::Blob(b) if b.len() == 16));
    assert!(matches!(&s.params[11], SqlValue::Integer(1)));
    let s = insert(&event(V7, "", 4)).unwrap();
    assert!(matches!(&s.params[10], SqlValue::Null));
    assert!(matches!(&s.params[11], SqlValue::Integer(4)));
}

#[test]
fn fresh_ids_name_events() {
    let mut r = Random::seeded(1);
    let id = r.new_uuid7();
    assert!(insert(&event(&id, "", 1)).is_ok());
}

#[test]
fn pipeline_writes_have_statements() {
    let d = db(None);
    let id = || "m1".to_string();
    let x = || "x".to_string();
    for (op, statement) in [
        (
            DbOp::InsertEvent {
                uuid7: id(),
                event_type: 1,
                platform: "kick".to_string(),
                raw_message: "hi".to_string(),
                command: String::new(),
                flags: "f".to_string(),
            },
            "INSERT INTO timeline_events (uuid7, schema_version, event_type, platform, raw_data, raw_message, command, flags, pipeline_status) VALUES (?1, ?2, ?3, ?4, ?5, ?6, ?7, ?8, 'queued') [Blob([109, 49]), Integer(1), Integer(1), Text(\"kick\"), Blob([]), Text(\"hi\"), Text(\"\"), Text(\"f\")]",
        ),
        (
            DbOp::SetCommand { uuid7: id(), command: x() },
            "UPDATE timeline_events SET command = ?1 WHERE uuid7 = ?2 [Text(\"x\"), Blob([109, 49])]",
        ),
        (
            DbOp::SetUserUuid { uuid7: id(), user_uuid7: x() },
            "UPDATE timeline_events SET user_uuid7 = ?1 WHERE uuid7 = ?2 AND user_uuid7 IS NULL [Text(\"x\"), Blob([109, 49])]",
        ),
        (
            DbOp::SetStatus { uuid7: id(), status: x() },
            "UPDATE timeline_events SET pipeline_status = ?1 WHERE uuid7 = ?2 [Text(\"x\"), Blob([109, 49])]",
        ),
        (
            DbOp::StageCompleted { uuid7: id(), stage: "persisted".to_string() },
            "UPDATE timeline_events SET persisted_at = ?1 WHERE uuid7 = ?2 [Integer(9), Blob([109, 49])]",
        ),
        (
            DbOp::SetProcessed { uuid7: id(), processed: x() },
            "UPDATE timeline_events SET processed_message = ?1 WHERE uuid7 = ?2 [Text(\"x\"), Blob([109, 49])]",
        ),
        (
            DbOp::SetError { uuid7: id(), error: x() },
            "UPDATE timeline_events SET error_message = ?1, pipeline_status = 'failed' WHERE uuid7 = ?2 [Text(\"x\"), Blob([109, 49])]",
        ),
    ] {
        assert!(flags_needed(&op).is_none());
        assert_eq!(shown(&write_statement(&d, &op, "", 9).unwrap()), statement);
    }
    let op = DbOp::SetAudio { uuid7: id(), audio_type: "audio/ogg".to_string(), audio: vec![7] };
    assert_eq!(flags_needed(&op), Some(id()));
    assert_eq!(
        format!("{:?}", write_statement(&d, &op, "a", 9).unwrap().params),
        "[Blob([7]), Text(\"a,audio_type=audio/ogg\"), Blob([109, 49])]"
    );
    let op = DbOp::StageCompleted { uuid7: id(), stage: x() };
    assert_eq!(write_statement(&d, &op, "", 9).unwrap_err(), "Unknown stage: x");
}

#[test]
fn rows_are_asked_for() {
    let d = db(None);
    let id = vec![1u8];
    assert_eq!(
        shown(&d.set_flags(&id, "f")),
        "UPDATE timeline_events SET flags = ?1 WHERE uuid7 = ?2 [Text(\"f\"), Blob([1])]"
    );
    assert_eq!(
        shown(&d.set_data_blob(&id, &vec![2])),
        "UPDATE timeline_events SET data_blob = ?1 WHERE uuid7 = ?2 [Blob([2]), Blob([1])]"
    );
    assert_eq!(
        shown(&d.get_next_queued()),
        "SELECT uuid7 FROM timeline_events WHERE pipeline_status = 'queued' ORDER BY uuid7 ASC LIMIT 1 []"
    );
    assert!(d.get_incomplete().sql.contains("IN ('queued', 'processing') AND synced_at IS NULL"));
    assert!(d.get_unsynced_count().sql.starts_with("SELECT COUNT(*)"));
    assert_eq!(format!("{:?}", d.event_query(&id).params), "[Blob([1])]");
}
