use yamete_kudasai_system::command::{exit_code, parse_command, parse_sound_arg, toggle_command, Command};

fn args(v: &[&str]) -> Vec<String> {
    v.iter().map(|s| s.to_string()).collect()
}

#[test]
fn sound_arg_after_flag() {
    assert_eq!(parse_sound_arg(&args(&["--install", "--sound", "http://x/a.mp3"])), Some("http://x/a.mp3".to_string()));
    assert_eq!(parse_sound_arg(&args(&["--install"])), None);
    assert_eq!(parse_sound_arg(&args(&["--install", "--sound"])), None);
    assert_eq!(parse_sound_arg(&args(&["--sound", "a", "--sound", "b"])), Some("a".to_string()));
}

#[test]
fn commands_are_recognised() {
    match parse_command(&args(&["--install", "--sound", "u"])) {
        Command::Install { sound_url } => assert_eq!(sound_url.as_deref(), Some("u")),
        _ => panic!("expected install"),
    }
    assert!(matches!(parse_command(&args(&["--install"])), Command::Install { sound_url: None }));
    assert!(matches!(parse_command(&args(&["--uninstall"])), Command::Uninstall));
    assert!(matches!(parse_command(&args(&["--agent"])), Command::Agent));
    assert!(matches!(parse_command(&args(&["--agent-loop"])), Command::Agent));
    assert!(matches!(parse_command(&args(&["--status"])), Command::Status));
    assert!(matches!(parse_command(&args(&["--self-test"])), Command::SelfTest));
    assert!(matches!(parse_command(&args(&["--help"])), Command::Usage));
    assert!(matches!(parse_command(&args(&["--sound", "x", "--install"])), Command::Usage));
    assert!(matches!(parse_command(&args(&[])), Command::Toggle));
}

#[test]
fn toggle_installs_or_uninstalls() {
    assert!(matches!(toggle_command(true), Command::Uninstall));
    assert!(matches!(toggle_command(false), Command::Install { sound_url: None }));
}

#[test]
fn exit_codes() {
    assert_eq!(exit_code(&Ok("done".to_string())), 0);
    assert_eq!(exit_code(&Err("bad".to_string())), 1);
}
