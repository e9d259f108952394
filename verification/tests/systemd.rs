use pullix::nix_commands::CommandOutput;
use pullix::systemd::{
    read_service, says_changed, ServiceHandler, SystemdServiceHandler, SystemdUserServiceHandler,
};

fn outcome(success: bool, stdout: &[u8], stderr: &[u8]) -> Result<CommandOutput, String> {
    Ok(CommandOutput {
        success,
        stdout: stdout.to_vec(),
        stderr: stderr.to_vec(),
    })
}

#[test]
fn services_are_asked_about_where_they_run() {
    let system = SystemdServiceHandler.is_service_changed("pullix.service");
    assert_eq!(system.program, "systemctl");
    assert_eq!(
        system.args,
        vec!["show", "pullix.service", "--property=NeedDaemonReload"]
    );
    let user = SystemdUserServiceHandler.is_service_changed("pullix.service");
    assert_eq!(user.program, "systemctl");
    assert_eq!(
        user.args,
        vec!["--user", "show", "pullix.service", "--property=NeedDaemonReload"]
    );
}

#[test]
fn the_answer_says_whether_a_service_was_changed() {
    assert!(read_service(outcome(true, b"NeedDaemonReload=yes\n", b"")).unwrap());
    assert!(!read_service(outcome(true, b"NeedDaemonReload=no\n", b"")).unwrap());
    assert!(!read_service(outcome(true, b"", b"NeedDaemonReload=yes")).unwrap());
    assert!(says_changed("xNeedDaemonReload=yesx"));
    assert!(!says_changed("NeedDaemonReload=ye"));
}

#[test]
fn a_command_that_fails_is_an_error() {
    let error = read_service(outcome(false, b"NeedDaemonReload=yes", b"bad \xff")).unwrap_err();
    assert_eq!(error.to_string(), "systemctl show failed: bad \u{fffd}");
    let error = read_service(Err("No such file".to_string())).unwrap_err();
    assert_eq!(error.to_string(), "Failed to run systemctl show command");
}
