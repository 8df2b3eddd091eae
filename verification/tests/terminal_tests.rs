use scrcpy_core::terminal::plan_terminal_command;

#[test]
fn device_serial_is_injected_for_bare_commands() {
    let plan = plan_terminal_command(&Some("serial1".to_string()), "shell ls").unwrap();
    assert_eq!(plan.binary, "adb");
    assert_eq!(plan.args, vec!["-s".to_string(), "serial1".to_string(), "shell".to_string(), "ls".to_string()]);
}

#[test]
fn explicit_binary_prefix_is_consumed_case_insensitively() {
    let plan = plan_terminal_command(&None, "SCRCPY --version").unwrap();
    assert_eq!(plan.binary, "scrcpy");
    assert_eq!(plan.args, vec!["--version".to_string()]);

    let plan = plan_terminal_command(&None, "adb version").unwrap();
    assert_eq!(plan.binary, "adb");
    assert_eq!(plan.args, vec!["version".to_string()]);
}

#[test]
fn existing_serial_flag_suppresses_injection() {
    let plan = plan_terminal_command(&Some("serial1".to_string()), "adb -s other shell ls").unwrap();
    assert_eq!(plan.args[0], "-s");
    assert_eq!(plan.args[1], "other");

    let plan = plan_terminal_command(&Some("serial1".to_string()), "adb --serial other shell").unwrap();
    assert!(!plan.args.contains(&"serial1".to_string()));
}

#[test]
fn global_bridge_subcommands_get_no_serial() {
    for cmd in ["adb devices", "adb connect 10.0.0.2:5555", "adb pair 10.0.0.2:37000 123456"] {
        let plan = plan_terminal_command(&Some("serial1".to_string()), cmd).unwrap();
        assert!(!plan.args.contains(&"serial1".to_string()), "injected for {cmd}");
    }
}

#[test]
fn scrcpy_commands_also_get_the_serial() {
    let plan = plan_terminal_command(&Some("serial1".to_string()), "scrcpy --fullscreen").unwrap();
    assert_eq!(plan.binary, "scrcpy");
    assert_eq!(plan.args, vec!["-s".to_string(), "serial1".to_string(), "--fullscreen".to_string()]);
}

#[test]
fn empty_command_is_rejected() {
    assert_eq!(plan_terminal_command(&None, "").unwrap_err(), "No command provided");
    assert_eq!(plan_terminal_command(&None, "   ").unwrap_err(), "No command provided");
}

#[test]
fn unclosed_quotes_fall_back_to_whitespace_splitting() {
    let plan = plan_terminal_command(&None, "shell \"echo hi").unwrap();
    assert_eq!(plan.args, vec!["shell".to_string(), "\"echo".to_string(), "hi".to_string()]);
}

#[test]
fn quoted_arguments_stay_whole() {
    let plan = plan_terminal_command(&None, "shell \"echo hello world\"").unwrap();
    assert_eq!(plan.args, vec!["shell".to_string(), "echo hello world".to_string()]);
}

#[test]
fn empty_device_never_injects() {
    let plan = plan_terminal_command(&Some(String::new()), "shell ls").unwrap();
    assert_eq!(plan.args[0], "shell");
}
