//! Questions to the user.
use cockatiel::json::parse_json;
use cockatiel::prompts::{
    approval, approval_prompt, audit_prompt, auth_question, end_review, handle_audit_flag, is_yes,
    prompt_user_to_allow, prompt_user_to_auth_module, AuditEnd, ModuleAuthInfo, PromptAnswer,
    PromptOutcome, PromptRoutes,
};
use cockatiel::proto::{AuditFlag, Container, Payload, Prompt, PromptResponse, PromptType};

fn question(id: &str) -> Prompt {
    approval_prompt(id.to_string(), "kick-adapter", "u", "input", 4, Some("Reads Kick."))
}

fn from(name: &str, payload: Payload) -> Container {
    Container {
        version: 3,
        auth_token: "tok".to_string(),
        module_name: name.to_string(),
        module_instance_uuid7: "i".to_string(),
        payload: Some(payload),
    }
}

fn response(id: &str, accepted: bool) -> PromptResponse {
    PromptResponse { prompt_id_uuid7: id.to_string(), accepted }
}

#[test]
fn question_about_a_module() {
    let p = question("q");
    assert_eq!(p.prompt, "Allow this module to connect?");
    assert_eq!(
        p.details,
        "Module 'kick-adapter' [u] wants to connect on position 'input' (priority 4).\n\nWhat it is: Reads Kick."
    );
    assert_eq!(p.link, "https://kick.com/settings/developer");
    assert_eq!(p.timeout, 30);
    assert_eq!(p.prompt_type, PromptType::Boolean);
    assert!(p.instructions.starts_with("This is the first time 'kick-adapter' has connected"));
    let p = approval_prompt("q".to_string(), "m", "u", "input", 4, Some(""));
    assert!(p.details.ends_with("(priority 4)."));
    assert_eq!(p.link, "https://github.com/vulbyte/cockatiel");
    let a = prompt_user_to_allow("m", "u", "input", 1, None);
    let b = prompt_user_to_allow("m", "u", "input", 1, None);
    assert_eq!(a.prompt_id_uuid7.len(), 36);
    assert_ne!(a.prompt_id_uuid7, b.prompt_id_uuid7);
}

#[test]
fn engine_question_is_closed_by_its_answer() {
    let mut routes = PromptRoutes::new();
    assert!(routes.ask(&question("q"), 0).is_none());
    let (c, seconds) = routes.ask(&question("q"), 2).unwrap();
    assert_eq!(c.module_name, "engine");
    assert_eq!(seconds, 30);
    let r = from("ui", Payload::PromptResponse(response("q", true)));
    assert!(matches!(
        routes.answer(&r, &response("q", true)),
        PromptAnswer::Engine { accepted: true }
    ));
    assert!(matches!(routes.answer(&r, &response("q", false)), PromptAnswer::Nobody));
    assert_eq!(routes.close("q", Some(true)), PromptOutcome::Decided(true));
    assert_eq!(routes.close("q", None), PromptOutcome::TimedOut);
}

#[test]
fn question_without_time_stays_open_half_a_minute() {
    let mut routes = PromptRoutes::new();
    let mut p = question("q");
    p.timeout = 0;
    assert_eq!(routes.ask(&p, 1).unwrap().1, 30);
    p.timeout = -4;
    assert_eq!(routes.ask(&p, 1).unwrap().1, 30);
    p.timeout = 120;
    assert_eq!(routes.ask(&p, 1).unwrap().1, 120);
}

#[test]
fn module_question_goes_to_the_others() {
    let mut routes = PromptRoutes::new();
    let c = from("asker", Payload::Prompt(question("q")));
    let names = vec!["a".to_string(), "asker".to_string(), "b".to_string()];
    let (out, to) = routes.forward(&c, &question("q"), "asker", 9, &names);
    assert_eq!(out.version, 1);
    assert_eq!(out.auth_token, "tok");
    assert_eq!(to, vec!["a".to_string(), "b".to_string()]);
    let r = from("b", Payload::PromptResponse(response("q", false)));
    match routes.answer(&r, &response("q", false)) {
        PromptAnswer::Module { socket_token, container } => {
            assert_eq!(socket_token, 9);
            assert_eq!(container.module_name, "b");
        }
        other => panic!("{:?}", other),
    }
    assert!(matches!(routes.answer(&r, &response("other", true)), PromptAnswer::Nobody));
}

#[test]
fn silence_lets_nobody_in() {
    assert_eq!(approval(PromptOutcome::Decided(true)), Some(true));
    assert_eq!(approval(PromptOutcome::Decided(false)), Some(false));
    assert_eq!(approval(PromptOutcome::TimedOut), Some(false));
    assert_eq!(approval(PromptOutcome::NoUi), None);
    assert!(matches!(
        end_review(PromptOutcome::Decided(true)),
        AuditEnd::Released { approve: true }
    ));
    assert!(matches!(end_review(PromptOutcome::TimedOut), AuditEnd::Held));
    assert!(matches!(end_review(PromptOutcome::NoUi), AuditEnd::Held));
}

#[test]
fn terminal_takes_yes_in_any_case() {
    assert!(is_yes("y") && is_yes("yes") && !is_yes("Y"));
    assert!(prompt_user_to_auth_module(Some(" YES\n")));
    assert!(prompt_user_to_auth_module(Some("y")));
    assert!(!prompt_user_to_auth_module(Some("yep")));
    assert!(!prompt_user_to_auth_module(Some("")));
    assert!(!prompt_user_to_auth_module(None));
    let info = ModuleAuthInfo {
        name: "m".to_string(),
        instance_uuid7: "u".to_string(),
        position: "input".to_string(),
        priority: 2,
    };
    assert_eq!(
        auth_question(&info),
        "\n[Cockatiel Auth] New module requesting connection:\n  Name:     m\n  UUID:     u\n  Position: input\n  Priority: 2\n\n  Add module? (y/n): "
    );
}

#[test]
fn question_about_a_held_message() {
    let flag = AuditFlag {
        message_uuid7: "m1".to_string(),
        reason: "language".to_string(),
        origin: String::new(),
    };
    let p = audit_prompt("q".to_string(), &flag, &None);
    assert_eq!(p.details, "Message [m1] held for audit (reason: language)");
    assert_eq!(p.origin, "engine");
    assert_eq!(p.link, "http://localhost:3000/message/m1");
    assert_eq!(p.timeout, 120);
    let entry = parse_json(
        "{\"platform\": \"kick\", \"raw_message\": \"hola\", \"user_uuid7\": null, \"reason\": \"language\"}",
    )
    .unwrap();
    let p = audit_prompt("q".to_string(), &flag, &Some(entry));
    assert_eq!(p.details, "[kick] ?: \"hola\"\n\nReason: language");
    assert!(handle_audit_flag(&flag, true, true, &None).is_none());
    assert!(handle_audit_flag(&flag, false, false, &None).is_none());
    assert_eq!(handle_audit_flag(&flag, false, true, &None).unwrap().prompt, "Audit message");
}
