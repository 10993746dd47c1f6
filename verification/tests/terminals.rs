//! Terminals, the help module, payload handlers and random numbers.
use cockatiel::clock::{now_ms, now_seconds, to_millis, to_seconds};
use cockatiel::config::{Config, ModuleEntry};
use cockatiel::engine_state::{log_event, log_event_broadcast, EngineState, TimelineDisplayEvent};
use cockatiel::handlers::connection_request::Joining;
use cockatiel::handlers::{
    auth_new, ban, command, commands, connection_request, err, message_inprocess,
    message_postprocess, message_preprocess, shutdown, timeline_event, user_styling_data,
};
use cockatiel::help::HelpMenu;
use cockatiel::keymap::{KeyCode, KeyEvent, KeyModifiers};
use cockatiel::module_client::{accepted, connection_request as module_request};
use cockatiel::panes::{clamp_split, following_pane, grow, shrink, ActivePane, MouseKind, ResizeDirection};
use cockatiel::proto::{
    ChatMessage, Command, Commands, ConnectionRequestReturn, Container, ErrorLine, Flag, LogLine,
    MessageInProcess, MessagePostProcess, MessagePreProcess, Payload, ProcessPosition, Shutdown,
    TimelineEvent, UserData,
};
use cockatiel::random::Random;
use cockatiel::tui::{format_container, App, DragTarget, Logger};
use cockatiel::user_view::{handle_key_events, App as UserApp};

fn key(code: KeyCode, shift: bool) -> KeyEvent {
    KeyEvent {
        code,
        modifiers: KeyModifiers {
            control: false,
            shift,
            alt: false,
            super_key: false,
            hyper: false,
            meta: false,
        },
    }
}

#[test]
fn edges_stay_on_the_screen() {
    assert_eq!((grow(50), grow(89), grow(90)), (52, 90, 90));
    assert_eq!((shrink(50), shrink(11), shrink(10)), (48, 10, 10));
    assert_eq!((clamp_split(3), clamp_split(40), clamp_split(99)), (10, 40, 90));
    let mut p = ActivePane::TopLeft;
    for want in [
        ActivePane::TopRight,
        ActivePane::BottomRight,
        ActivePane::BottomLeft,
        ActivePane::TopLeft,
    ] {
        p = following_pane(p);
        assert_eq!(p, want);
    }
}

#[test]
fn operator_terminal() {
    let mut a = App::new();
    assert_eq!(a.shares(), [50, 50, 60, 40, 30, 70]);
    assert_eq!(a.logger.len(), 2);
    a.resize_active(ResizeDirection::Right);
    a.resize_active(ResizeDirection::Up);
    assert_eq!((a.top_split_x, a.split_y), (62, 48));
    let mut wide = App::new();
    wide.top_split_x = 200;
    wide.split_y = 3;
    wide.resize_active(ResizeDirection::Right);
    wide.resize_active(ResizeDirection::Down);
    assert_eq!((wide.top_split_x, wide.split_y), (90, 5));
    wide.handle_mouse(MouseKind::LeftDown, 10, 4);
    assert_eq!(wide.drag_target, DragTarget::HorizontalSplit);
    a.route_key(key(KeyCode::Tab, false));
    assert_eq!(a.active_pane, ActivePane::TopRight);
    a.resize_active(ResizeDirection::Right);
    assert_eq!(a.top_split_x, 62);
    a.route_key(key(KeyCode::Char('q'), false));
    assert!(!a.should_quit);
    a.route_key(key(KeyCode::Esc, false));
    assert!(a.should_quit);
    a.handle_mouse(MouseKind::LeftDown, 10, 51);
    assert_eq!(a.drag_target, DragTarget::HorizontalSplit);
    a.handle_mouse(MouseKind::LeftDrag, 10, 95);
    assert_eq!(a.split_y, 90);
    a.handle_mouse(MouseKind::LeftUp, 10, 95);
    a.handle_mouse(MouseKind::LeftDrag, 10, 30);
    assert_eq!(a.split_y, 90);
    a.handle_mouse(MouseKind::LeftDown, 70, 20);
    assert_eq!(a.active_pane, ActivePane::TopRight);
    assert_eq!(a.drag_target, DragTarget::Nothing);
    assert!(a.title.content().contains("Cockatiel"));
}

#[test]
fn operator_log_keeps_a_hundred_lines() {
    let mut l = Logger::new();
    assert_eq!(l.len(), 2);
    for i in 0..150 {
        l.display(format!("line {}", i));
    }
    assert_eq!(l.len(), 100);
    assert!(l.content().starts_with("line 50\n"));
    assert!(l.content().ends_with("line 149"));
}

#[test]
fn payloads_are_shown() {
    let show = |p: Payload| format_container("m", "t", &Some(p));
    assert_eq!(format_container("m", "t", &None), "[m] [t] Type: t");
    assert_eq!(
        show(Payload::LogLine(LogLine { log: "hi".to_string(), blob: vec![] })),
        "[m] [t] hi"
    );
    assert_eq!(
        show(Payload::ErrorLine(ErrorLine { log: "e".to_string(), trace: "x".to_string() })),
        "[m] [t] Error: e | Trace: x"
    );
    assert_eq!(
        show(Payload::Shutdown(Shutdown { reason: "done".to_string() })),
        "[m] [t] Reason: done"
    );
    assert_eq!(
        show(Payload::MessagePostProcess(post("!help", "u"))),
        "[m] [t] Platform: kick | Final: done"
    );
}

#[test]
fn user_terminal() {
    let mut a = UserApp::new();
    handle_key_events(key(KeyCode::Left, true), &mut a);
    handle_key_events(key(KeyCode::Left, false), &mut a);
    assert_eq!(a.split_x, 58);
    handle_key_events(key(KeyCode::Char('J'), false), &mut a);
    handle_key_events(key(KeyCode::Char('j'), true), &mut a);
    handle_key_events(key(KeyCode::Char('j'), false), &mut a);
    assert_eq!(a.split_y, 54);
    handle_key_events(key(KeyCode::Tab, false), &mut a);
    assert_eq!(a.active_pane, ActivePane::TopRight);
    a.handle_mouse(MouseKind::LeftDrag, 20, 20);
    assert_eq!(a.split_x, 58);
    a.handle_mouse(MouseKind::LeftDown, 20, 90);
    assert_eq!(a.active_pane, ActivePane::BottomLeft);
    a.handle_mouse(MouseKind::LeftDrag, 5, 95);
    assert_eq!((a.split_x, a.split_y), (10, 90));
    assert_eq!(a.active_pane, ActivePane::BottomLeft);
    handle_key_events(key(KeyCode::Char('q'), true), &mut a);
    assert!(!a.should_quit);
    handle_key_events(key(KeyCode::Char('c'), true), &mut a);
    assert!(a.should_quit);
    assert!(a.quadrant_context.content().starts_with("Controls & Navigation:\n- Tab"));
    assert_eq!(a.logger.title(), " Logger Window ");
}

fn chat(text: &str, user: &str) -> ChatMessage {
    ChatMessage {
        platform: "kick".to_string(),
        raw_data: vec![],
        raw_message: text.to_string(),
        user_uuid7: user.to_string(),
        command: None,
        channel_id: String::new(),
        user_data: None,
    }
}

fn post(text: &str, user: &str) -> MessagePostProcess {
    MessagePostProcess {
        message_uuid7: "m".to_string(),
        raw_message: Some(chat(text, user)),
        processed_message: "done".to_string(),
        audio: vec![],
        audio_type: String::new(),
    }
}

fn tts() -> Commands {
    Commands {
        commands: vec![Command {
            command_name: "tts".to_string(),
            command_flag: "tts".to_string(),
            command_description: "speak".to_string(),
            command_flags: vec![Flag {
                flag_name: "v".to_string(),
                flag_description: "voice".to_string(),
                limiting_type: 0,
                min_val: 0,
                max_val: 0,
                options: vec![],
                value: String::new(),
            }],
        }],
        alert_on_unknown_command: false,
    }
}

#[test]
fn help_module_answers_others() {
    let mut h = HelpMenu::new();
    assert_eq!(h.format_help_menu(), "No commands are currently available.");
    h.register("a", tts());
    h.register("a", tts());
    let menu = "Available commands:\n\n!tts - speak\n  -v: voice\n\n";
    assert_eq!(h.format_help_menu(), menu);
    assert!(h.respond(&post("hello", "u"), "i").is_none());
    let c = h.respond(&post("  !help me", "u"), "i").unwrap();
    assert_eq!(c.module_name, "help-module");
    match c.payload {
        Some(Payload::MessagePostProcess(m)) => {
            assert_eq!(m.processed_message, menu);
            assert!(h.respond(&m, "i").is_none());
        }
        other => panic!("{:?}", other),
    }
}

#[test]
fn modules_ask_to_connect() {
    let c = module_request("timeline-module", ProcessPosition::Postprocess, "u", 12);
    assert_eq!(c.module_instance_uuid7, "u");
    match c.payload {
        Some(Payload::ConnectionRequest(r)) => {
            assert_eq!((r.pin, r.priority), (12, 1));
            assert_eq!(r.process_position, ProcessPosition::Postprocess);
        }
        other => panic!("{:?}", other),
    }
    let answer = |new_port| ConnectionRequestReturn { new_port, module_instance_uuid7: String::new() };
    assert!(accepted(&answer(0)) && !accepted(&answer(1)));
}

#[test]
fn engine_log_keeps_a_hundred_lines() {
    let mut s = EngineState::new();
    for i in 0..101 {
        s.push_event(TimelineDisplayEvent {
            id: i.to_string(),
            timestamp: "0".to_string(),
            text: String::new(),
        });
    }
    assert_eq!(s.timeline.len(), 100);
    assert_eq!(s.timeline[0].id, "1");
    log_event(&mut s, "hello");
    let last = &s.timeline[99];
    assert_eq!(last.text, "hello");
    assert_eq!(last.id.len(), 36);
    assert!(last.timestamp.parse::<u64>().unwrap() > 1_600_000_000);
    assert!(s.modules.is_empty());
    assert!(matches!(
        log_event_broadcast("x").payload,
        Some(Payload::LogLine(l)) if l.log == "x"
    ));
}

fn config() -> Config {
    let entry = |name: &str, priority| ModuleEntry { name: name.to_string(), priority };
    Config {
        timeline_database_location: String::new(),
        timeline_database_backup_location: String::new(),
        timeline_database_target_mb: 50,
        port: 1,
        inputs: vec![],
        preprocess_modules: vec![entry("p", 1)],
        inprocess_modules: vec![entry("i2", 2), entry("i1", 1)],
        postprocess_modules: vec![entry("d", 1)],
        module_probe_interval_secs: 30,
        module_probe_response_secs: 15,
        module_approval_policy: String::new(),
    }
}

fn container() -> Container {
    Container {
        version: 1,
        auth_token: "t".to_string(),
        module_name: "m".to_string(),
        module_instance_uuid7: "u".to_string(),
        payload: None,
    }
}

#[test]
fn handlers_log_what_authenticated_modules_send() {
    let log = LogLine { log: "x".to_string(), blob: vec![] };
    assert_eq!(auth_new::handle(true, "m", &log), Some("[m] x".to_string()));
    assert_eq!(auth_new::handle(false, "m", &log), None);
    assert_eq!(ban::handle(true, "m", &log), Some("[m] x".to_string()));
    assert_eq!(
        command::handle(true, "m", &tts().commands[0]),
        Some("m registered 1 commands".to_string())
    );
    assert_eq!(commands::handle(true, "m", &tts()), Some("m registered 1 commands".to_string()));
    let e = ErrorLine { log: "bad".to_string(), trace: String::new() };
    assert_eq!(err::handle(true, "m", &e), Some("[m] ERROR: bad".to_string()));
    let s = Shutdown { reason: "bye".to_string() };
    assert_eq!(shutdown::handle(true, "m", &s), (Some("m shut down: bye".to_string()), true));
    assert_eq!(shutdown::handle(false, "m", &s), (None, true));
    let u = UserData {
        uuid: String::new(),
        username: "ann".to_string(),
        is_sponsor: false,
        is_moderator: false,
        is_admin: false,
        is_owner: false,
        bans: vec![],
        commendations: vec![],
        styling: None,
        platform_ids: vec![],
    };
    assert_eq!(
        user_styling_data::handle(true, &u),
        Some("User styling data update: ann".to_string())
    );
}

#[test]
fn handlers_pass_messages_on() {
    let c = config();
    let m = MessagePreProcess {
        message_uuid7: String::new(),
        raw_message: Some(chat("hi", "u")),
        audio: vec![],
        audio_type: String::new(),
    };
    let d = message_preprocess::handle(&m, &container(), "i", &c);
    assert_eq!(d.first.module_instance_uuid7, "i");
    assert_eq!(d.first_to[0].name, "p");
    assert_eq!(d.next_to.len(), 1);
    assert_eq!(d.next_to[0].name, "i1");
    let mut bare = config();
    bare.inprocess_modules = vec![];
    let d = message_preprocess::handle(&m, &container(), "i", &bare);
    assert_eq!(d.next_to[0].name, "d");
    assert!(matches!(d.next.payload, Some(Payload::MessagePostProcess(_))));

    let m = MessageInProcess {
        message_uuid7: "m".to_string(),
        raw_message: None,
        processed_message: "x".to_string(),
        abandon_message: false,
        audio: vec![],
        audio_type: String::new(),
    };
    assert_eq!(
        message_inprocess::handle(false, "i1", &container(), &m, &c).unwrap_err(),
        "Not authenticated"
    );
    assert_eq!(message_inprocess::handle(true, "i1", &container(), &m, &c).unwrap().0, 1);
    assert_eq!(message_inprocess::handle(true, "i2", &container(), &m, &c).unwrap().0, 2);
    assert_eq!(message_inprocess::handle(true, "x", &container(), &m, &c).unwrap().0, 0);
    let (line, to) = message_postprocess::handle(&post("hi", "u"), &c);
    assert_eq!(line, "Message finalized from u");
    assert_eq!(to[0].name, "d");
    let e = TimelineEvent {
        c: String::new(),
        d: vec![],
        e: String::new(),
        f: String::new(),
        i: "id".to_string(),
        o: String::new(),
        p: String::new(),
        r: String::new(),
        s: String::new(),
        t: String::new(),
        u: String::new(),
        v: 1,
    };
    assert_eq!(timeline_event::handle(true, &e, &c).unwrap().0, "Timeline: id");
    assert!(timeline_event::handle(false, &e, &c).is_none());
}

#[test]
fn handlers_connect_modules() {
    let mut c = config();
    let none: Vec<String> = vec![];
    let fresh = || "fresh".to_string();
    let r = connection_request::handle(1, 2, "m", "", "post", 4, &none, fresh(), &mut c);
    assert!(matches!(r, Joining::Rejected { .. }));
    assert_eq!(c.postprocess_modules.len(), 1);
    let taken = vec!["fresh".to_string()];
    let r = connection_request::handle(2, 2, "m", "fresh", "post", 4, &taken, fresh(), &mut c);
    assert!(matches!(r, Joining::TryAgain));
    match connection_request::handle(2, 2, "m", "", "DISPLAY", 4, &none, fresh(), &mut c) {
        Joining::Connected { instance_uuid7, position, reply } => {
            assert_eq!((instance_uuid7.as_str(), position.as_str()), ("fresh", "postprocess"));
            assert!(matches!(
                reply.payload,
                Some(Payload::ConnectionRequestReturn(q)) if q.module_instance_uuid7 == "fresh"
            ));
        }
        other => panic!("{:?}", other),
    }
    assert_eq!(c.postprocess_modules.len(), 2);
    match connection_request::handle(2, 2, "n", "mine", "whatever", 4, &none, fresh(), &mut c) {
        Joining::Connected { instance_uuid7, position, reply } => {
            assert_eq!((instance_uuid7.as_str(), position.as_str()), ("mine", "input"));
            assert!(matches!(
                reply.payload,
                Some(Payload::ConnectionRequestReturn(q)) if q.module_instance_uuid7.is_empty()
            ));
        }
        other => panic!("{:?}", other),
    }
    for (name, position) in [
        ("preprocess", "preprocess"), ("inprocess", "inprocess"), ("outputs", "postprocess"),
        ("inputs", "input"),
    ] {
        assert_eq!(connection_request::read_position(name), position);
    }
}

#[test]
fn random_numbers_follow_their_seed() {
    let mut a = Random::seeded(7);
    let mut b = Random::seeded(7);
    let first = a.next_u32();
    assert_eq!(first, 1103515245u32.wrapping_mul(7u32.wrapping_add(12345)));
    assert_eq!(b.num_of_len(10), first);
    assert_ne!(a.next_u32(), first);
    let n = Random::seeded(3).num_of_len(2);
    let whole = Random::seeded(3).next_u32().to_string();
    assert_eq!(n.to_string(), whole[2..].trim_start_matches('0').to_string());
    assert_ne!(a.new_uuid7(), b.new_uuid7());
    let id = Random::new().new_uuid7();
    assert_eq!(id.len(), 36);
    for (i, c) in id.chars().enumerate() {
        if [8, 13, 18, 23].contains(&i) {
            assert_eq!(c, '-');
        } else {
            assert!(c.is_ascii_digit() || ('a'..='f').contains(&c));
        }
    }
    assert_eq!(&id[14..15], "7");
}

#[test]
fn readings_of_the_clock() {
    assert_eq!((to_seconds(None), to_millis(None)), (0, 0));
    assert_eq!(to_seconds(Some(1_999_999_999)), 1);
    assert_eq!(to_millis(Some(1_999_999_999)), 1999);
    assert_eq!(to_seconds(Some(u128::MAX)), i64::MAX);
    assert!(now_seconds() > 0 && now_ms() > 0);
}
