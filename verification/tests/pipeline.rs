//! The way of a message through the pipeline.
use cockatiel::command_registry::CommandRegistry;
use cockatiel::orchestrator::{keep_connected, Action, DbOp, PipelineOrchestrator, Task};
use cockatiel::pipeline::{AckTracker, PipelineConfig, PipelineMessage, PipelineStage};
use cockatiel::proto::{
    ChatMessage, Command, Commands, Container, MessageAck, MessageInProcess, MessagePostProcess,
    MessagePreProcess, Payload,
};

const MS: u64 = 1_000_000;

fn names(v: &[&str]) -> Vec<String> {
    v.iter().map(|s| s.to_string()).collect()
}

fn config(pre: &[&str], inp: &[&str], post: &[&str]) -> PipelineConfig {
    PipelineConfig {
        pre_process_modules: names(pre),
        in_process_modules: names(inp),
        post_process_modules: names(post),
        ack_timeout_ms: 3000,
        critical_modules: names(&["critical"]),
    }
}

fn message(uuid: &str, command: Option<Command>) -> PipelineMessage {
    PipelineMessage {
        uuid7: uuid.to_string(),
        raw_message: "hello".to_string(),
        platform: "kick".to_string(),
        event_type: 1,
        command: None,
        flags: None,
        parsed_command: command,
        channel_id: "c".to_string(),
        user_uuid7: "u".to_string(),
        user_data: None,
    }
}

/// Runs a task to its end; gives what was written and what was sent to whom.
fn drive(
    o: &mut PipelineOrchestrator,
    task: &mut Task,
    audited: bool,
    connected: &[&str],
    registry: &CommandRegistry,
    now: u64,
) -> Vec<String> {
    let here = names(connected);
    let mut out = Vec::new();
    for _ in 0..1000 {
        match o.step(task, audited, &here, registry, now) {
            Action::Done => return out,
            Action::Next => {}
            Action::AskAudited { uuid7 } => out.push(format!("audited? {}", uuid7)),
            Action::Send { payload, to } => {
                let kind = match payload {
                    Payload::MessagePreProcess(_) => "pre",
                    Payload::MessageInProcess(_) => "in",
                    Payload::MessagePostProcess(_) => "post",
                    _ => "other",
                };
                out.push(format!("{} -> {}", kind, to.join(",")));
            }
            Action::Write(w) => out.push(match w {
                DbOp::InsertEvent { uuid7, .. } => format!("insert {}", uuid7),
                DbOp::SetCommand { command, .. } => format!("command {}", command),
                DbOp::SetUserUuid { user_uuid7, .. } => format!("user {}", user_uuid7),
                DbOp::SetStatus { status, .. } => format!("status {}", status),
                DbOp::StageCompleted { stage, .. } => format!("done {}", stage),
                DbOp::SetProcessed { processed, .. } => format!("processed {}", processed),
                DbOp::SetError { error, .. } => format!("error {}", error),
                DbOp::SetAudio { audio_type, .. } => format!("audio {}", audio_type),
            }),
        }
    }
    panic!("the task does not end");
}

fn ack(uuid: &str) -> Container {
    Container {
        version: 1,
        auth_token: String::new(),
        module_name: "m".to_string(),
        module_instance_uuid7: String::new(),
        payload: Some(Payload::MessageAck(MessageAck { message_uuid7: uuid.to_string() })),
    }
}

#[test]
fn message_passes_all_stages() {
    let all = ["p", "i", "d"];
    let reg = CommandRegistry::new();
    let mut o = PipelineOrchestrator::new(config(&["p"], &["i"], &["d"]));
    let mut t = o.insert_and_start(message("m", None));
    assert_eq!(
        drive(&mut o, &mut t, false, &all, &reg, 0),
        ["insert m", "user u", "status processing", "pre -> p"]
    );
    let mut t = o.handle_ack("m");
    let said = drive(&mut o, &mut t, false, &all, &reg, 1);
    assert_eq!(said.last().unwrap(), "in -> i");
    assert!(said.contains(&"done pre_process".to_string()));
    let reply = Container {
        payload: Some(Payload::MessageInProcess(MessageInProcess {
            message_uuid7: "m".to_string(),
            raw_message: None,
            processed_message: "HELLO".to_string(),
            abandon_message: false,
            audio: vec![1, 2],
            audio_type: String::new(),
        })),
        ..ack("m")
    };
    let (taken, mut t) = o.handle_message_from_module(&reply);
    assert!(taken);
    let said = drive(&mut o, &mut t, false, &all, &reg, 2);
    assert!(said.contains(&"processed HELLO".to_string()));
    assert!(said.contains(&"audio audio/mpeg".to_string()));
    assert!(said.contains(&"done in_process".to_string()));
    assert_eq!(said.last().unwrap(), "post -> d");
    let (_, mut t) = o.handle_message_from_module(&ack("m"));
    let said = drive(&mut o, &mut t, false, &all, &reg, 3);
    assert!(said.contains(&"processed HELLO".to_string()));
    assert_eq!(said.last().unwrap(), "status complete");
    let (_, mut t) = o.handle_message_from_module(&ack("m"));
    assert!(drive(&mut o, &mut t, false, &all, &reg, 4).is_empty());
}

#[test]
fn message_without_displays_completes() {
    let reg = CommandRegistry::new();
    let mut o = PipelineOrchestrator::new(config(&["p"], &[], &["d"]));
    let mut t = o.insert_and_start(message("m", None));
    drive(&mut o, &mut t, false, &["p"], &reg, 0);
    let mut t = o.handle_ack("m");
    let said = drive(&mut o, &mut t, false, &["p"], &reg, 1);
    assert_eq!(said.last().unwrap(), "status complete");
}

#[test]
fn held_message_waits() {
    let reg = CommandRegistry::new();
    let mut o = PipelineOrchestrator::new(config(&["p"], &["i"], &["d"]));
    let mut t = o.insert_and_start(message("m", None));
    drive(&mut o, &mut t, false, &["p", "i", "d"], &reg, 0);
    let mut t = o.handle_ack("m");
    let said = drive(&mut o, &mut t, true, &["p", "i", "d"], &reg, 1);
    assert_eq!(said.last().unwrap(), "audited? m");
}

#[test]
fn command_goes_to_its_owner_and_the_catch_alls() {
    let mut reg = CommandRegistry::new();
    let tts = Command {
        command_name: "tts".to_string(),
        command_flag: "!".to_string(),
        command_description: String::new(),
        command_flags: vec![],
    };
    reg.register("owner", Commands { commands: vec![tts.clone()], alert_on_unknown_command: false });
    reg.register("all", Commands { commands: vec![], alert_on_unknown_command: false });
    let mut o = PipelineOrchestrator::new(config(&["p"], &[], &[]));
    let mut t = o.insert_and_start(message("m", Some(tts)));
    let said = drive(&mut o, &mut t, false, &["p", "owner", "all"], &reg, 0);
    assert_eq!(said.last().unwrap(), "pre -> owner,all");
}

#[test]
fn catch_alls_get_every_message() {
    let mut reg = CommandRegistry::new();
    reg.register("all", Commands { commands: vec![], alert_on_unknown_command: false });
    reg.register("p", Commands { commands: vec![], alert_on_unknown_command: false });
    reg.register("away", Commands { commands: vec![], alert_on_unknown_command: false });
    let mut o = PipelineOrchestrator::new(config(&["p", "q", "p"], &[], &[]));
    let mut t = o.insert_and_start(message("m", None));
    let said = drive(&mut o, &mut t, false, &["p", "q", "all"], &reg, 0);
    assert_eq!(said.last().unwrap(), "pre -> p,q,p,all");
}

#[test]
fn late_modules_are_passed_over() {
    let reg = CommandRegistry::new();
    let mut o = PipelineOrchestrator::new(config(&["p"], &["i"], &["d"]));
    let mut t = o.insert_and_start(message("m", None));
    drive(&mut o, &mut t, false, &["p", "i", "d"], &reg, 0);
    let mut t = o.handle_timeout(3000 * MS);
    assert!(drive(&mut o, &mut t, false, &["p", "i", "d"], &reg, 3000 * MS).is_empty());
    let mut t = o.handle_timeout(3000 * MS + 1);
    let said = drive(&mut o, &mut t, false, &["p", "i", "d"], &reg, 3001 * MS);
    assert_eq!(said.last().unwrap(), "in -> i");
}

#[test]
fn late_critical_module_fails_the_message() {
    let reg = CommandRegistry::new();
    let mut o = PipelineOrchestrator::new(config(&["critical"], &["i"], &["d"]));
    let mut t = o.insert_and_start(message("m", None));
    drive(&mut o, &mut t, false, &["critical", "i", "d"], &reg, 0);
    let mut t = o.handle_timeout(3001 * MS);
    let said = drive(&mut o, &mut t, false, &["critical", "i", "d"], &reg, 3001 * MS);
    assert!(said
        .contains(&"error Critical module 'critical' timed out at stage 'pre_process'".to_string()));
    assert!(!said.iter().any(|s| s.starts_with("in ->")));
}

#[test]
fn new_messages_get_ids() {
    let o = PipelineOrchestrator::new(config(&["p"], &[], &[]));
    let chat = ChatMessage {
        platform: "kick".to_string(),
        raw_data: vec![],
        raw_message: "hi".to_string(),
        user_uuid7: String::new(),
        command: None,
        channel_id: String::new(),
        user_data: None,
    };
    let c = Container {
        payload: Some(Payload::MessagePreProcess(MessagePreProcess {
            message_uuid7: String::new(),
            raw_message: Some(chat),
            audio: vec![],
            audio_type: String::new(),
        })),
        ..ack("x")
    };
    let reg = CommandRegistry::new();
    let mut p = PipelineOrchestrator::new(config(&["p"], &[], &[]));
    let (taken, mut t) = o.handle_message_from_module(&c);
    assert!(taken);
    let said = drive(&mut p, &mut t, false, &["p"], &reg, 0);
    assert_eq!(said[0].len(), "insert ".len() + 36);
    assert_eq!(&said[0]["insert ".len() + 14..][..1], "7");
    let (taken, mut t) = o.handle_message_as(&c, "mine".to_string());
    assert!(taken);
    assert_eq!(drive(&mut p, &mut t, false, &["p"], &reg, 0)[0], "insert mine");
    let other = Container { payload: None, ..ack("x") };
    assert!(!o.handle_message_from_module(&other).0);
}

#[test]
fn displays_audio_is_kept_but_not_sent() {
    let reg = CommandRegistry::new();
    let mut o = PipelineOrchestrator::new(config(&[], &[], &["d"]));
    let mut t = o.insert_and_start(message("m", None));
    drive(&mut o, &mut t, false, &["d"], &reg, 0);
    let reply = Container {
        payload: Some(Payload::MessagePostProcess(MessagePostProcess {
            message_uuid7: "m".to_string(),
            raw_message: None,
            processed_message: "x".to_string(),
            audio: vec![7],
            audio_type: "audio/wav".to_string(),
        })),
        ..ack("m")
    };
    let (_, mut t) = o.handle_message_from_module(&reply);
    let said = drive(&mut o, &mut t, false, &["d"], &reg, 1);
    assert!(said.contains(&"audio audio/wav".to_string()));
    assert!(!said.iter().any(|s| s.starts_with("post ->")));
}

#[test]
fn settings_can_change() {
    let mut o = PipelineOrchestrator::new(config(&["a"], &[], &[]));
    assert_eq!(o.config_snapshot().pre_process_modules, names(&["a"]));
    o.set_config(config(&["b"], &[], &[]));
    assert_eq!(o.config_snapshot().pre_process_modules, names(&["b"]));
    assert_eq!(keep_connected(&names(&["a", "b", "c"]), &names(&["c", "a"])), names(&["a", "c"]));
}

#[test]
fn answers_are_counted() {
    let mut t = AckTracker::new();
    t.track("m".to_string(), "pre_process".to_string(), "a".to_string(), 10, 0);
    t.track("m".to_string(), "pre_process".to_string(), "b".to_string(), 20, 0);
    assert!(t.has_pending("m"));
    let late = t.check_timeouts(15 * MS);
    assert_eq!(late.len(), 1);
    assert_eq!(late[0].module_name, "a");
    assert!(t.check_timeouts(15 * MS).is_empty());
    let done = t.ack("m");
    assert_eq!(done.len(), 1);
    assert_eq!(done[0].module_name, "b");
    assert!(!t.has_pending("m"));
    assert!(t.ack("m").is_empty());
}

#[test]
fn stages_and_defaults() {
    assert_eq!(PipelineStage::PreProcessing.as_str(), "processing");
    let c = PipelineConfig::default();
    assert_eq!(c.ack_timeout_ms, 3000);
}
