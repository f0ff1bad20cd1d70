use pmp_iq::process::{CommandError, CommandOutput};

#[test]
fn output_success_checks_status() {
    let ok = CommandOutput { status: 0, stdout: String::new(), stderr: String::new() };
    assert!(ok.success());
    let bad = CommandOutput { status: 1, stdout: String::new(), stderr: String::new() };
    assert!(!bad.success());
}

#[test]
fn signal_killed_process_has_status_minus_one() {
    let o = CommandOutput::from_exit(None, "out".into(), String::new());
    assert_eq!(o.status, -1);
    assert!(!o.success());
    assert_eq!(CommandOutput::from_exit(Some(3), String::new(), String::new()).status, 3);
}

#[test]
fn command_error_messages() {
    assert_eq!(CommandError::Spawn("no such file".into()).message(), "failed to spawn process: no such file");
    assert_eq!(CommandError::Io("broken pipe".into()).message(), "process io error: broken pipe");
}
