//! Connections: how modules are let in, taken at their word and let go.
use cockatiel::auth::{generate_auth_token_at, verify_pin, AuthSession, AuthStore};
use cockatiel::command_registry::CommandRegistry;
use cockatiel::config::{Config, ModuleEntry};
use cockatiel::connection::{
    accept, accept_with, assign_uuid, authorize, authorize_at, disconnect, ingest, invoke_command,
    judge, judge_at, log_send, log_to_timeline, receive, receive_at, reconnect, refusal_note,
    rejection, relay, route, send_targets, Admission, Approved, Invocation, Peer, Route, Standing,
};
use cockatiel::database::{DatabaseConfig, DatabaseManager, SqlValue};
use cockatiel::liveness::{
    checkpoint_due, decide_probe, decide_size_note, probe_container, probe_step,
    resolve_probe_times, ProbeAction, SizeNote,
};
use cockatiel::module_registry::{ModuleRegistryPersistence, RegisteredModule};
use cockatiel::proto::{
    AuthVerify, ChatMessage, Command, Commands, ConnectionRequest, Container, DatabaseQuery,
    ErrorLine, LogLine, MessageAck, MessagePreProcess, Payload, ProcessPosition, SendToPlatforms,
};

const PEER: Peer = Peer { socket_token: 7, loopback: true };

fn config() -> Config {
    Config {
        timeline_database_location: "t.db".to_string(),
        timeline_database_backup_location: "b.db".to_string(),
        timeline_database_target_mb: 50,
        port: 9734,
        inputs: vec![ModuleEntry { name: "old".to_string(), priority: 5 }],
        preprocess_modules: vec![],
        inprocess_modules: vec![],
        postprocess_modules: vec![],
        module_probe_interval_secs: 30,
        module_probe_response_secs: 15,
        module_approval_policy: "auto-deny".to_string(),
    }
}

fn request(name: &str, token: &str, uuid: &str, pin: i32) -> Container {
    Container {
        version: 1,
        auth_token: token.to_string(),
        module_name: name.to_string(),
        module_instance_uuid7: uuid.to_string(),
        payload: Some(Payload::ConnectionRequest(connection_request(pin))),
    }
}

fn connection_request(pin: i32) -> ConnectionRequest {
    ConnectionRequest {
        pin,
        process_position: ProcessPosition::Inprocess,
        priority: 3,
        module_instance_uuid7: "wanted".to_string(),
    }
}

fn registry(auto_auth: bool) -> ModuleRegistryPersistence {
    ModuleRegistryPersistence::load(
        "modules.json".to_string(),
        Some(vec![RegisteredModule {
            name: "known".to_string(),
            instance_uuid7: "k".to_string(),
            position: "input".to_string(),
            priority: 1,
            auto_auth,
            auth_token: "t".to_string(),
        }]),
    )
}

fn approved(name: &str) -> Approved {
    Approved {
        module_name: name.to_string(),
        instance_uuid7: "u1".to_string(),
        position: "inprocess".to_string(),
        priority: 2,
    }
}

#[test]
fn pins_are_compared_modulo_the_word() {
    assert!(verify_pin(123456, 123456));
    assert!(!verify_pin(123455, 123456));
    assert!(verify_pin(-1, u32::MAX));
}

#[test]
fn first_message_has_to_be_a_request() {
    let store = AuthStore::new("s".to_string());
    let mut c = request("m", "", "", 1);
    c.payload = Some(Payload::MessageAck(MessageAck { message_uuid7: "x".to_string() }));
    let a = judge(&c, &store, &registry(true), 1);
    assert!(matches!(a, Admission::NotARequest));
    assert_eq!(
        refusal_note(&c, &a),
        Some(("m".to_string(), "first message was not a ConnectionRequest".to_string()))
    );
}

#[test]
fn token_decides_alone() {
    let store = AuthStore::new("s".to_string());
    let token = generate_auth_token_at("s", "u", "m", 2_000_000_000);
    let c = request("m", &token, "u", 999);
    match judge_at(&c, &store, &registry(true), 1, 2_000_000_001) {
        Admission::Back { module_name, instance_uuid7 } => {
            assert_eq!(module_name, "m");
            assert_eq!(instance_uuid7, "u");
        }
        other => panic!("{:?}", other),
    }
    let stolen = request("cockatiel-tui", &token, "u", 1);
    let a = judge_at(&stolen, &store, &registry(true), 1, 2_000_000_001);
    assert!(matches!(a, Admission::BadToken));
    assert_eq!(refusal_note(&stolen, &a).unwrap().1, "invalid auth token");
}

#[test]
fn pin_and_name_are_looked_at_in_turn() {
    let store = AuthStore::new("s".to_string());
    let known = registry(true);
    let c = request("", "", "", 2);
    let a = judge(&c, &store, &known, 1);
    assert!(matches!(a, Admission::BadPin));
    assert_eq!(refusal_note(&c, &a).unwrap().1, "invalid PIN");
    for name in ["", "  ", "unnamed_module", " unnamed_module "] {
        let c = request(name, "", "", 1);
        let a = judge(&c, &store, &known, 1);
        assert!(matches!(a, Admission::Unnamed));
        assert_eq!(
            refusal_note(&c, &a),
            Some((name.trim().to_string(), "blank/unnamed module identity".to_string()))
        );
    }
}

#[test]
fn standing_of_newcomers() {
    let store = AuthStore::new("s".to_string());
    for (name, auto, want) in [
        ("cockatiel-tui", true, Standing::Trusted),
        ("known", true, Standing::Known),
        ("known", false, Standing::Unknown),
        ("stranger", true, Standing::Unknown),
    ] {
        match judge(&request(name, "", "", 1), &store, &registry(auto), 1) {
            Admission::Newcomer { module_name, requested_uuid, position, priority, standing } => {
                assert_eq!(module_name, name);
                assert_eq!(requested_uuid, "wanted");
                assert_eq!(position, "inprocess");
                assert_eq!(priority, 3);
                assert_eq!(standing, want);
            }
            other => panic!("{:?}", other),
        }
    }
}

#[test]
fn ids_are_given_once() {
    let taken = vec!["a".to_string(), "b".to_string()];
    assert_eq!(assign_uuid("c", &taken, "n".to_string()), Some("c".to_string()));
    assert_eq!(assign_uuid("a", &taken, "n".to_string()), Some("n".to_string()));
    assert_eq!(assign_uuid("", &taken, "n".to_string()), Some("n".to_string()));
    assert_eq!(assign_uuid("", &taken, "b".to_string()), None);
}

#[test]
fn refused_module_gets_no_id() {
    let c = rejection();
    assert_eq!(c.module_name, "cockatiel");
    assert_eq!(c.auth_token, "");
    match c.payload {
        Some(Payload::ConnectionRequestReturn(r)) => {
            assert_eq!(r.new_port, 0);
            assert_eq!(r.module_instance_uuid7, "");
        }
        other => panic!("{:?}", other),
    }
}

#[test]
fn approved_module_is_in_everywhere() {
    let mut store = AuthStore::new("s".to_string());
    let mut reg = registry(true);
    let mut conf = config();
    let m = approved("fresh");
    let reply = accept(&m, PEER, 1000, &mut store, &mut reg, &mut conf);
    assert_eq!(reply.module_instance_uuid7, "u1");
    let s = store.get("u1").unwrap();
    assert_eq!(s.auth_token, reply.auth_token);
    assert!(s.authenticated && s.peer_loopback);
    assert_eq!(s.connected_at, Some(1000));
    assert_eq!(s.socket_token, 7);
    assert!(reg.is_known_and_auto_auth("fresh"));
    assert_eq!(reg.get_token_for("fresh").unwrap(), reply.auth_token);
    assert_eq!(conf.inprocess_modules.len(), 1);
    assert_eq!(conf.inprocess_modules[0].name, "fresh");
    assert_eq!(conf.inprocess_modules[0].priority, 2);

    let mut c = request("fresh", &reply.auth_token, "u1", 0);
    c.payload = Some(Payload::AuthVerify(AuthVerify { cur_auth: String::new() }));
    assert!(authorize(&mut store, &c));
    c.module_name = "cockatiel-tui".to_string();
    assert!(!authorize(&mut store, &c));
    match judge(&request("fresh", "", "", 1), &store, &reg, 1) {
        Admission::Newcomer { standing, .. } => assert_eq!(standing, Standing::Known),
        other => panic!("{:?}", other),
    }
}

#[test]
fn activity_is_noted_only_of_what_is_taken() {
    let mut store = AuthStore::new("s".to_string());
    let mut reg = registry(true);
    let mut conf = config();
    let token = generate_auth_token_at("s", "u1", "fresh", 2_000_000_000);
    accept_with(&approved("fresh"), token.clone(), PEER, 5, &mut store, &mut reg, &mut conf);
    store.mark_probed("u1", 6, 100);
    let good = request("fresh", &token, "u1", 0);
    let bad = request("other", &token, "u1", 0);
    assert!(!authorize_at(&mut store, &bad, 2_000_000_001, 50));
    assert_eq!(store.get("u1").unwrap().last_activity_ms, 5);
    assert!(authorize_at(&mut store, &good, 2_000_000_001, 50));
    let s = store.get("u1").unwrap();
    assert_eq!(s.last_activity_ms, 50);
    assert_eq!(s.probe_deadline_ms, 0);
}

#[test]
fn reconnect_survives_the_old_socket() {
    let mut store = AuthStore::new("s".to_string());
    let mut reg = registry(true);
    let mut conf = config();
    let token = generate_auth_token_at("s", "u1", "fresh", 2_000_000_000);
    accept_with(&approved("fresh"), token.clone(), PEER, 5, &mut store, &mut reg, &mut conf);
    let back = request("fresh", &token, "u1", 0);
    let newer = Peer { socket_token: 8, loopback: false };
    reconnect(&mut store, &back, &connection_request(0), newer, 20);
    assert!(!disconnect(&mut store, "u1", 7, 30));
    let s = store.get("u1").unwrap();
    assert_eq!(s.socket_token, 8);
    assert!(!s.peer_loopback);
    assert_eq!(s.shutdown_at, None);
    assert!(disconnect(&mut store, "u1", 8, 40));
    assert!(store.get("u1").is_none());
    assert!(!authorize_at(&mut store, &back, 2_000_000_001, 50));
    reconnect(&mut store, &back, &connection_request(0), newer, 60);
    let s = store.get("u1").unwrap();
    assert!(s.authenticated);
    assert_eq!(s.position, "inprocess");
    assert_eq!(s.priority, 3);
    assert_eq!(s.auth_token, token);
}

#[test]
fn store_lists_its_sessions() {
    let mut store = AuthStore::new("s".to_string());
    let mut reg = registry(true);
    let mut conf = config();
    accept_with(&approved("fresh"), "t".to_string(), PEER, 5, &mut store, &mut reg, &mut conf);
    assert_eq!(store.values().len(), 1);
    assert!(store.is_authenticated("u1"));
    assert!(!store.is_authenticated("u2"));
    assert_eq!(store.find_by_module("fresh").unwrap().0, "u1");
    assert!(store.find_by_module("gone").is_none());
    store.mark_unresponsive("u1");
    assert!(store.get("u1").unwrap().unresponsive);
    store.claim_socket("u1", 9, 70);
    assert!(!store.get("u1").unwrap().unresponsive);
    store.set_shutdown_if_socket("u1", 80, 9);
    assert_eq!(store.get("u1").unwrap().shutdown_at, Some(80));
    let mut again = store.get("u1").unwrap();
    again.priority = 99;
    store.insert(again.clone());
    assert_eq!(store.values().len(), 1);
    assert_eq!(store.get("u1").unwrap().priority, 99);
    again.instance_uuid7 = "u2".to_string();
    store.insert(again);
    assert_eq!(store.values().len(), 2);
    assert_eq!(store.values()[0].instance_uuid7, "u1");
}

#[test]
fn payloads_find_their_way() {
    assert!(matches!(route(&None), Route::Nothing));
    assert!(matches!(
        route(&Some(Payload::ConnectionRequest(connection_request(1)))),
        Route::Nothing
    ));
    assert!(matches!(
        route(&Some(Payload::MessageAck(MessageAck { message_uuid7: "x".to_string() }))),
        Route::Pipeline
    ));
    match route(&Some(Payload::LogLine(LogLine { log: "hi".to_string(), blob: vec![] }))) {
        Route::Record { kind, message } => {
            assert_eq!(kind, "module_log");
            assert_eq!(message, "hi");
        }
        other => panic!("{:?}", other),
    }
    match route(&Some(Payload::ErrorLine(ErrorLine {
        log: "bad".to_string(),
        trace: String::new(),
    }))) {
        Route::Record { kind, .. } => assert_eq!(kind, "module_error"),
        other => panic!("{:?}", other),
    }
    match route(&Some(Payload::DatabaseQuery(DatabaseQuery {
        query_id: "q".to_string(),
        sql: "s".to_string(),
    }))) {
        Route::Query(q) => assert_eq!(q.query_id, "q"),
        other => panic!("{:?}", other),
    }
}

fn chat(text: &str) -> ChatMessage {
    ChatMessage {
        platform: "twitch".to_string(),
        raw_data: vec![],
        raw_message: text.to_string(),
        user_uuid7: "user-1".to_string(),
        command: None,
        channel_id: "c".to_string(),
        user_data: None,
    }
}

fn tts_registry() -> CommandRegistry {
    let mut r = CommandRegistry::new();
    r.register(
        "tts-service",
        Commands {
            commands: vec![Command {
                command_name: "tts".to_string(),
                command_flag: "!".to_string(),
                command_description: "read chat out loud".to_string(),
                command_flags: vec![],
            }],
            alert_on_unknown_command: true,
        },
    );
    r
}

fn pre(text: &str) -> MessagePreProcess {
    MessagePreProcess {
        message_uuid7: String::new(),
        raw_message: Some(chat(text)),
        audio: vec![],
        audio_type: String::new(),
    }
}

#[test]
fn ingest_attaches_commands_and_answers() {
    let r = tts_registry();
    let c = request("adapter", "tok", "u", 0);
    let (out, reply) = ingest(&c, pre("!tts hello"), &r);
    assert_eq!(out.auth_token, "tok");
    assert!(reply.is_none());
    match out.payload {
        Some(Payload::MessagePreProcess(m)) => {
            assert_eq!(m.raw_message.unwrap().command.unwrap().command_name, "tts");
        }
        other => panic!("{:?}", other),
    }
    let (_, reply) = ingest(&c, pre("!nope"), &r);
    let reply = reply.unwrap();
    assert_eq!(reply.targets, vec!["twitch-adapter".to_string()]);
    match reply.container.payload {
        Some(Payload::SendToPlatforms(s)) => {
            assert_eq!(
                s.msg,
                "sorry user-1, that command isn't valid, try '!help' to see all available commands"
            );
            assert_eq!(s.channel_id, "c");
            assert_eq!(s.actor_handle, "cockatiel");
        }
        other => panic!("{:?}", other),
    }
    let (_, reply) = ingest(&c, pre("!HELP"), &r);
    match reply.unwrap().container.payload {
        Some(Payload::SendToPlatforms(s)) => {
            assert_eq!(s.msg, "Available commands:\n  !tts — read chat out loud");
        }
        other => panic!("{:?}", other),
    }
}

#[test]
fn commands_run_by_modules_go_to_their_owners() {
    let r = tts_registry();
    let cmd = |name: &str| Command {
        command_name: name.to_string(),
        command_flag: "!".to_string(),
        command_description: String::new(),
        command_flags: vec![],
    };
    let here = vec!["tts-service".to_string()];
    match invoke_command(&r, "ui", &cmd("tts"), &here) {
        Invocation::Deliver { owner, container } => {
            assert_eq!(owner, "tts-service");
            match container.payload {
                Some(Payload::MessagePreProcess(m)) => {
                    assert_eq!(m.raw_message.unwrap().platform, "command:ui");
                }
                other => panic!("{:?}", other),
            }
        }
        other => panic!("{:?}", other),
    }
    match invoke_command(&r, "ui", &cmd("tts"), &vec![]) {
        Invocation::NotConnected { owner } => assert_eq!(owner, "tts-service"),
        other => panic!("{:?}", other),
    }
    assert!(matches!(invoke_command(&r, "ui", &cmd("x"), &here), Invocation::Unregistered));
}

fn send(platform: &str) -> SendToPlatforms {
    SendToPlatforms {
        msg: "hello".to_string(),
        level: 0,
        module_uuid7: String::new(),
        pid: String::new(),
        platform: platform.to_string(),
        actor_platform: "twitch".to_string(),
        actor_handle: "mod".to_string(),
        actor_uuid7: String::new(),
        channel_id: String::new(),
    }
}

#[test]
fn messages_go_to_the_adapters_that_are_there() {
    let here = vec!["kick-adapter".to_string(), "discord-adapter".to_string()];
    assert_eq!(
        send_targets(&send("all"), &here),
        vec!["kick-adapter".to_string(), "discord-adapter".to_string()]
    );
    assert!(send_targets(&send("twitch"), &here).is_empty());
    assert!(send_targets(&send("mastodon"), &here).is_empty());
    let mut c = request("m", "t", "u", 0);
    c.version = 9;
    let r = relay(&c);
    assert_eq!(r.version, 1);
    assert_eq!(r.module_name, "m");
}

#[test]
fn timeline_records_who_did_what() {
    let db = DatabaseManager::new(DatabaseConfig {
        local_path: "x.db".to_string(),
        remote_url: None,
        sync_interval_secs: 15,
        local_target_mb: 50,
    });
    let s = log_to_timeline(&db, "module_connect", "m", "approved");
    assert_eq!(s.params.len(), 8);
    match &s.params[0] {
        SqlValue::Blob(id) => {
            assert_eq!(id.len(), 16);
            assert_eq!(id[6] >> 4, 7);
        }
        other => panic!("{:?}", other),
    }
    assert!(matches!(&s.params[2], SqlValue::Integer(5)));
    assert!(matches!(&s.params[3], SqlValue::Text(t) if t == "engine"));
    assert!(matches!(&s.params[4], SqlValue::Text(t) if t == "approved"));
    assert!(matches!(&s.params[5], SqlValue::Text(t) if t == "module_lifecycle"));
    assert!(matches!(
        &s.params[6],
        SqlValue::Text(t) if t == "{\"kind\":\"module_connect\",\"source\":\"m\"}"
    ));
    let s = log_send(&db, &send("all"));
    assert!(matches!(
        &s.params[6],
        SqlValue::Text(t)
            if t == "{\"actor_handle\":\"mod\",\"actor_platform\":\"twitch\",\"target\":\"all\"}"
    ));
}

fn session(activity: i64, probe: i64, deadline: i64) -> AuthSession {
    AuthSession {
        module_name: "m".to_string(),
        instance_uuid7: "u".to_string(),
        auth_token: String::new(),
        position: "input".to_string(),
        priority: 1,
        authenticated: true,
        connected_at: Some(0),
        shutdown_at: None,
        last_activity_ms: activity,
        last_probe_at_ms: probe,
        probe_deadline_ms: deadline,
        unresponsive: false,
        peer_loopback: false,
        socket_token: 1,
    }
}

#[test]
fn silent_modules_are_probed() {
    assert_eq!(resolve_probe_times(None, 30, 15), (30, 15));
    assert_eq!(resolve_probe_times(Some((0, 0)), 30, 15), (30, 15));
    assert_eq!(resolve_probe_times(Some((60, 5)), 30, 15), (60, 5));
    assert!(matches!(decide_probe(&session(0, 0, 0), 30, 15, 29_999), ProbeAction::Quiet));
    match decide_probe(&session(0, 0, 0), 30, 15, 30_000) {
        ProbeAction::Probe { deadline_ms } => assert_eq!(deadline_ms, 45_000),
        other => panic!("{:?}", other),
    }
    assert!(matches!(decide_probe(&session(0, 20_000, 0), 30, 15, 30_000), ProbeAction::Quiet));
    assert!(matches!(decide_probe(&session(0, 0, 100), 30, 15, 99), ProbeAction::Quiet));
    assert!(matches!(decide_probe(&session(0, 0, 100), 30, 15, 100), ProbeAction::Late));
    assert!(matches!(
        decide_probe(&session(0, 0, 0), u64::MAX, 15, 30_000),
        ProbeAction::OutOfRange
    ));
    assert!(matches!(
        probe_container().payload,
        Some(Payload::AuthVerify(_))
    ));
}

#[test]
fn unanswered_probe_makes_a_module_unresponsive() {
    let mut store = AuthStore::new("s".to_string());
    store.insert(session(0, 0, 0));
    let s = store.get("u").unwrap();
    assert!(matches!(probe_step(&mut store, &s, 30, 15, 30_000), ProbeAction::Probe { .. }));
    let s = store.get("u").unwrap();
    assert_eq!(s.probe_deadline_ms, 45_000);
    assert!(matches!(probe_step(&mut store, &s, 30, 15, 44_999), ProbeAction::Quiet));
    assert!(matches!(probe_step(&mut store, &s, 30, 15, 45_000), ProbeAction::Late));
    let s = store.get("u").unwrap();
    assert!(s.unresponsive);
    assert!(matches!(probe_step(&mut store, &s, 30, 15, 90_000), ProbeAction::Quiet));
}

#[test]
fn log_is_merged_when_large_and_now_and_then() {
    assert_eq!(checkpoint_due(0, 0), (false, 1));
    assert_eq!(checkpoint_due(0, 3), (true, 0));
    assert_eq!(checkpoint_due(5 * 1024 * 1024, 0), (false, 1));
    assert_eq!(checkpoint_due(5 * 1024 * 1024 + 1, 0), (true, 0));
}

#[test]
fn size_is_warned_of_once() {
    let mb = 1024 * 1024;
    assert!(matches!(decide_size_note(5 * mb, 1, false), SizeNote::Same));
    match decide_size_note(48 * mb, 50, false) {
        SizeNote::Warn { percent } => assert_eq!(percent, 96),
        other => panic!("{:?}", other),
    }
    assert!(matches!(decide_size_note(47 * mb, 50, false), SizeNote::Same));
    assert!(matches!(decide_size_note(48 * mb, 50, true), SizeNote::Same));
    assert!(matches!(decide_size_note(40 * mb, 50, true), SizeNote::Clear));
    match decide_size_note(6 * mb, 0, false) {
        SizeNote::Warn { percent } => assert_eq!(percent, 0),
        other => panic!("{:?}", other),
    }
}

#[test]
fn nothing_is_looked_at_without_a_token() {
    let mut store = AuthStore::new("s".to_string());
    let mut reg = registry(true);
    let mut conf = config();
    let reply = accept(&approved("fresh"), PEER, 1000, &mut store, &mut reg, &mut conf);
    let mut c = request("fresh", &reply.auth_token, "u1", 0);
    c.payload = Some(Payload::DatabaseQuery(DatabaseQuery {
        query_id: "q".to_string(),
        sql: "s".to_string(),
    }));
    assert!(matches!(receive(&mut store, &c), Some(Route::Query(q)) if q.query_id == "q"));
    let mut forged = c.clone();
    forged.auth_token = "x".to_string();
    assert!(receive(&mut store, &forged).is_none());
    assert!(receive_at(&mut store, &c, i64::MAX, 2000).is_none());
    assert!(store.get("u1").unwrap().last_activity_ms > 2000);
    disconnect(&mut store, "u1", 7, 3000);
    assert!(receive(&mut store, &c).is_none());
}
