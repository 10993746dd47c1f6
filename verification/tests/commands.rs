//! Chat commands: how they are parsed, whom they belong to and what is done about them.
use cockatiel::chat_commands::{classify_command, CommandAction};
use cockatiel::command_registry::{parse_command, CommandRegistry, ModuleCommandReg};
use cockatiel::module_manager::ModuleRegistry;
use cockatiel::proto::{Command, Commands, Flag};

fn flag(name: &str, description: &str) -> Flag {
    Flag {
        flag_name: name.to_string(),
        flag_description: description.to_string(),
        limiting_type: 0,
        min_val: 0.0f64.to_bits(),
        max_val: 0.0f64.to_bits(),
        options: vec![],
        value: String::new(),
    }
}

fn command(name: &str, description: &str, flags: Vec<Flag>) -> Command {
    Command {
        command_name: name.to_string(),
        command_flag: "!".to_string(),
        command_description: description.to_string(),
        command_flags: flags,
    }
}

fn sample_registry() -> CommandRegistry {
    let mut r = CommandRegistry::new();
    r.register(
        "tts-service",
        Commands {
            commands: vec![command(
                "tts",
                "read chat out loud",
                vec![flag("p", "priority"), flag("v", "voice")],
            )],
            alert_on_unknown_command: true,
        },
    );
    r.register(
        "reprimand",
        Commands {
            commands: vec![command("reprimand", "reprimand a user", vec![])],
            alert_on_unknown_command: false,
        },
    );
    r
}

/// `!reprimand` is quiet, `!tts` alerts; neither has options.
fn plain_registry() -> CommandRegistry {
    let mut r = CommandRegistry::new();
    r.register(
        "reprimand",
        Commands {
            commands: vec![command("reprimand", "reprimand", vec![])],
            alert_on_unknown_command: false,
        },
    );
    r.register(
        "tts-service",
        Commands {
            commands: vec![command("tts", "tts", vec![])],
            alert_on_unknown_command: true,
        },
    );
    r
}

/// The same, and `!tts` has the options `p` and `r`.
fn option_registry() -> CommandRegistry {
    let mut r = CommandRegistry::new();
    r.register(
        "reprimand",
        Commands {
            commands: vec![command("reprimand", "reprimand", vec![])],
            alert_on_unknown_command: false,
        },
    );
    r.register(
        "tts-service",
        Commands {
            commands: vec![command("tts", "tts", vec![flag("p", ""), flag("r", "")])],
            alert_on_unknown_command: true,
        },
    );
    r
}

fn option_values(c: &Command) -> Vec<(String, String)> {
    c.command_flags.iter().map(|f| (f.flag_name.clone(), f.value.clone())).collect()
}

fn pair(a: &str, b: &str) -> (String, String) {
    (a.to_string(), b.to_string())
}

#[test]
fn parses_command_with_flags_both_forms() {
    let r = sample_registry();
    let p = parse_command("!tts -p 2 -r:1.4 -v 88 hey! how are you today?", &r).unwrap();
    assert_eq!(p.command.command_name, "tts");
    assert_eq!(p.command.command_flag, "!");
    assert_eq!(
        option_values(&p.command),
        vec![pair("p", "2"), pair("r", "1.4"), pair("v", "88")]
    );
    assert_eq!(p.args, "hey! how are you today?");
}

#[test]
fn parses_reprimand_with_mention_and_reason() {
    let r = sample_registry();
    let p = parse_command("!reprimand @user saying offensive things", &r).unwrap();
    assert_eq!(p.command.command_name, "reprimand");
    assert!(p.command.command_flags.is_empty());
    assert_eq!(p.args, "@user saying offensive things");
}

#[test]
fn bare_flag_is_boolean() {
    let r = sample_registry();
    let p = parse_command("!tts -v hey there", &r).unwrap();
    assert_eq!(p.command.command_flags[0].value, "hey");
    let p2 = parse_command("!tts -v", &r).unwrap();
    assert_eq!(p2.command.command_flags[0].value, "true");
}

#[test]
fn unknown_command_parses_but_has_no_owner() {
    let r = sample_registry();
    let p = parse_command("!unknown foo", &r).unwrap();
    assert_eq!(p.command.command_name, "unknown");
    assert!(r.owner("!", "unknown").is_none());
    assert_eq!(r.alert_owner_for("!").unwrap(), "tts-service");
}

#[test]
fn non_flag_message_is_none() {
    let r = sample_registry();
    assert!(parse_command("hello world", &r).is_none());
    assert!(parse_command(">tts hi", &r).is_none());
}

#[test]
fn catch_all_and_owner() {
    let mut r = sample_registry();
    r.register(
        "catch-all-mod",
        Commands { commands: vec![], alert_on_unknown_command: false },
    );
    assert_eq!(r.catch_alls(), vec!["catch-all-mod".to_string()]);
    assert_eq!(r.owner("!", "tts").unwrap(), "tts-service");
    assert_eq!(r.owner("!", "reprimand").unwrap(), "reprimand");
    assert_eq!(r.all_commands().len(), 2);
}

#[test]
fn main_help_classifies_to_help() {
    let r = plain_registry();
    assert!(matches!(classify_command("!help", &r), CommandAction::Help));
    assert!(matches!(classify_command("!help what can I do", &r), CommandAction::Help));
}

#[test]
fn main_known_command_attaches() {
    let r = plain_registry();
    match classify_command("!reprimand @user reason", &r) {
        CommandAction::Attach(c) => {
            assert_eq!(c.command_name, "reprimand");
            assert_eq!(c.command_flag, "!");
        }
        other => panic!("expected Attach, got {:?}", std::mem::discriminant(&other)),
    }
}

#[test]
fn main_unknown_on_alerting_flag_alerts() {
    let r = plain_registry();
    assert!(matches!(classify_command("!bogus whatever", &r), CommandAction::Alert));
}

#[test]
fn main_plain_message_is_none() {
    let r = plain_registry();
    assert!(matches!(classify_command("just chatting", &r), CommandAction::Nothing));
}

#[test]
fn command_tests_help_classifies_to_help() {
    let r = option_registry();
    assert!(matches!(classify_command("!help", &r), CommandAction::Help));
    assert!(matches!(classify_command("!help what can I do", &r), CommandAction::Help));
}

#[test]
fn command_tests_known_command_attaches() {
    let r = option_registry();
    match classify_command("!reprimand @user reason", &r) {
        CommandAction::Attach(c) => {
            assert_eq!(c.command_name, "reprimand");
            assert_eq!(c.command_flag, "!");
        }
        other => panic!("expected Attach, got {:?}", std::mem::discriminant(&other)),
    }
}

#[test]
fn command_tests_unknown_on_alerting_flag_alerts() {
    let r = option_registry();
    assert!(matches!(classify_command("!bogus whatever", &r), CommandAction::Alert));
}

#[test]
fn command_tests_plain_message_is_none() {
    let r = option_registry();
    assert!(matches!(classify_command("just chatting", &r), CommandAction::Nothing));
}

#[test]
fn parser_never_panics_on_adversarial_input() {
    let r = option_registry();
    let inputs = [
        "!",
        "!!",
        "!   ",
        "!tts -p -p -p",
        "!tts -",
        "!tts -p:",
        "!tts -p :",
        "!tts -p 2 -r 1.4 -v 88 hey!",
        "!tts -p:2 -r:1.4 -v:88 hey!",
        "!reprimand @user",
        "!reprimand    ",
        "!💥💥",
        "!tts 🎉",
        "!tts -p 2",
        &"!tts -x ".repeat(500),
        "!tts \"quoted value\" more",
        "!tts -p\n2",
        "!tts\t-p\t2",
    ];
    for input in inputs {
        let parsed = parse_command(input, &r);
        let _ = classify_command(input, &r);
        if let Some(p) = &parsed {
            assert!(!p.command.command_name.is_empty());
        }
    }
}

#[test]
fn parser_flag_values_round_trip() {
    let r = option_registry();
    let p = parse_command("!tts -p 2 -r:1.4 hey", &r).unwrap();
    assert_eq!(p.args, "hey");
    let vals = option_values(&p.command);
    assert_eq!(
        vals,
        vec![("p".to_string(), "2".to_string()), ("r".to_string(), "1.4".to_string())]
    );
}

#[test]
fn prefixes_of_registered_commands_are_known() {
    let mut r = CommandRegistry::new();
    assert!(!r.flag_known("!"));
    let commands = vec![command("tts", "speak", vec![])];
    r.register("tts", Commands { commands, alert_on_unknown_command: false });
    assert!(r.flag_known("!"));
    assert!(!r.flag_known("?"));
    r.register("tts", Commands { commands: vec![], alert_on_unknown_command: false });
    assert!(!r.flag_known("!"));
}

#[test]
fn option_forms_agree() {
    let r = option_registry();
    for tail in ["", " ", " hey there", " -r:1 x", "\tend "] {
        let a = parse_command(&format!("!tts -p:2{}", tail), &r).unwrap();
        let b = parse_command(&format!("!tts -p 2{}", tail), &r).unwrap();
        assert_eq!(option_values(&a.command), option_values(&b.command));
        assert_eq!(a.command.command_name, b.command.command_name);
        assert_eq!(a.args, b.args);
    }
}

#[test]
fn registering_changes_owners_and_catch_alls() {
    let mut r = plain_registry();
    r.register("quiet", Commands { commands: vec![], alert_on_unknown_command: false });
    assert_eq!(r.catch_alls(), ["quiet"]);
    let tts = vec![command("tts", "mine", vec![])];
    r.register("quiet", Commands { commands: tts, alert_on_unknown_command: false });
    assert!(r.catch_alls().is_empty());
    assert_eq!(r.owner("!", "tts").unwrap(), "quiet");
    assert_eq!(r.owner("!", "reprimand").unwrap(), "reprimand");
    let all: Vec<String> = r.all_commands().iter().map(|c| c.command_name.clone()).collect();
    assert_eq!(all, ["reprimand", "tts"]);
    r.register("quiet", Commands { commands: vec![], alert_on_unknown_command: false });
    assert_eq!(r.catch_alls(), ["quiet"]);
    assert!(r.owner("!", "tts").is_none());
}

#[test]
fn registries_start_empty() {
    let r = CommandRegistry::default();
    assert!(r.all_commands().is_empty() && r.catch_alls().is_empty());
    let reg = ModuleCommandReg::default();
    assert!(reg.commands.is_empty() && !reg.catch_all && !reg.alert_on_unknown);
    assert!(ModuleRegistry::default().get("a").is_none());
}
