use pullix::config::{Config, ConfigFlake, WebhooksConfig};
use pullix::flake::{FlakeRef, FlakeType};
use pullix::nix_commands::{
    deploy, derivation_path, CommandLine, CommandOutput, DeployStep, NixCommandError, NixCommands,
    NixDeployment, OutputText, Prod, Stage, Test,
};

fn flake(type_: FlakeType) -> FlakeRef {
    FlakeRef {
        type_,
        repo: "o/r".to_string(),
        ref_: Some("main".to_string()),
        rev: Some("abc".to_string()),
        host: None,
    }
}

fn config() -> Config {
    Config {
        flake_repo: ConfigFlake {
            type_: FlakeType::File,
            repo: "".to_string(),
            host: None,
            test_spec: None,
            prod_spec: None,
        },
        poll_interval_secs: 60,
        app_dir: "/srv/pullix".to_string(),
        hostname: "foo".to_string(),
        otel_http_endpoint: None,
        private_key: None,
        keep_last: 100,
        home_manager_switch: false,
        home_manager_command: "home-manager".to_string(),
        github_token: None,
        home_manager: None,
        webhooks: WebhooksConfig::default(),
    }
}

fn output(success: bool, stdout: &[u8], stderr: &[u8]) -> Result<CommandOutput, String> {
    Ok(CommandOutput {
        success,
        stdout: stdout.to_vec(),
        stderr: stderr.to_vec(),
    })
}

fn command(step: DeployStep) -> CommandLine {
    match step {
        DeployStep::Run { command } => command,
        other => panic!("Expected a command, got {:?}", other),
    }
}

fn error(step: DeployStep) -> NixCommandError {
    match step {
        DeployStep::Done { result: Err(error) } => error,
        other => panic!("Expected a failure, got {:?}", other),
    }
}

fn building() -> NixDeployment {
    NixDeployment {
        hostname: "foo".to_string(),
        switch_args: vec!["test".to_string()],
        stage: Stage::Building,
    }
}

#[test]
fn errors_say_what_failed() {
    assert_eq!(
        NixCommandError::to_execution("no such file").to_string(),
        "Execution failed: no such file"
    );
    let build = NixCommandError::Build {
        hostname: "foo".to_string(),
        stderr: "err".to_string(),
        stdout: "out".to_string(),
    };
    assert_eq!(build.to_string(), "Build failed: foo\nstdout: out\nstderr: err");
    let switch = NixCommandError::Switch {
        hostname: "foo".to_string(),
        stderr: "err".to_string(),
        stdout: "out".to_string(),
    };
    assert_eq!(switch.to_string(), "Switch failed: foo\nstdout: out\nstderr: err");
}

#[test]
fn reports_are_dated_when_another_follows() {
    let config = config();
    assert_eq!(
        NixCommandError::last_error_path(&config),
        "/srv/pullix/last_report.json"
    );
    assert_eq!(
        NixCommandError::error_path(&config, 1700000000),
        "/srv/pullix/1700000000_report.json"
    );
    assert_eq!(
        NixCommandError::error_path(&config, 0),
        "/srv/pullix/0_report.json"
    );
    assert_eq!(
        NixCommandError::error_path(&config, u64::MAX),
        format!("/srv/pullix/{}_report.json", u64::MAX)
    );
    let first = NixCommandError::report_plan(&config, false, 7);
    assert_eq!(first.set_aside, None);
    assert_eq!(first.write_to, "/srv/pullix/last_report.json");
    let second = NixCommandError::report_plan(&config, true, 7);
    assert_eq!(second.set_aside.as_deref(), Some("/srv/pullix/7_report.json"));
    assert_eq!(second.write_to, "/srv/pullix/last_report.json");
}

#[test]
fn the_last_store_path_counts() {
    let cases = [
        ("", None),
        ("/nix/store/a", Some("/nix/store/a")),
        ("/nix/store/a\n/nix/store/b\n", Some("/nix/store/b")),
        ("/nix/store/a\nwarning\n", Some("/nix/store/a")),
        ("/nix/store/a\r\n/nix/store/b\r\n", Some("/nix/store/b")),
        ("/nix/store/a\r", Some("/nix/store/a\r")),
        (" /nix/store/a", None),
        ("/nix/stor", None),
        ("\n\n/nix/store/a\n\n", Some("/nix/store/a")),
    ];
    for (text, expected) in cases {
        assert_eq!(derivation_path(text).as_deref(), expected);
    }
}

#[test]
fn a_deployment_builds_and_then_switches() {
    let (mut deployment, step) = Prod.deploy(&flake(FlakeType::GitHub), "foo");
    let build = command(step);
    assert_eq!(build.program, "nix");
    assert_eq!(
        build.args,
        vec![
            "build",
            "github:o/r?rev=abc#nixosConfigurations.foo.config.system.build.toplevel",
            "--print-out-paths",
        ]
    );
    assert_eq!(deployment.stage, Stage::Building);
    let step = deployment.advance(output(true, b"\n \t/nix/store/x-system \n", b""));
    let switch = command(step);
    assert_eq!(switch.program, "/nix/store/x-system/bin/switch-to-configuration");
    assert_eq!(switch.args, vec!["switch"]);
    assert_eq!(deployment.stage, Stage::Switching);
    let step = deployment.advance(output(true, b"", b""));
    assert!(matches!(step, DeployStep::Done { result: Ok(()) }));
    assert_eq!(deployment.stage, Stage::Finished);
}

#[test]
fn a_test_deployment_is_not_made_the_boot_default() {
    let (mut deployment, _) = Test.deploy(&flake(FlakeType::GitHub), "foo");
    let switch = command(deployment.advance(output(true, b"/nix/store/y", b"")));
    assert_eq!(switch.args, vec!["test"]);
}

#[test]
fn a_flake_that_cannot_be_built_fails_at_once() {
    let (deployment, step) = deploy(&flake(FlakeType::Tarball), "foo", vec![]);
    assert_eq!(deployment.stage, Stage::Finished);
    assert_eq!(
        error(step).to_string(),
        "Execution failed: tarball type is not supported for nixos-rebuild --flake"
    );
}

#[test]
fn a_failed_build_is_reported_with_its_output() {
    let mut deployment = building();
    let failure = error(deployment.advance(output(false, b"out \xff", b"err \xc3\xa9")));
    assert_eq!(
        failure.to_string(),
        "Build failed: foo\nstdout: out \u{fffd}\nstderr: err é"
    );
    assert!(matches!(failure, NixCommandError::Build { .. }));
    assert_eq!(deployment.stage, Stage::Finished);
}

#[test]
fn a_build_without_a_store_path_fails() {
    let mut deployment = building();
    let failure = error(deployment.advance(output(true, b"nothing here", b"")));
    assert_eq!(
        failure.to_string(),
        "Execution failed: No derivation path found in build output"
    );
}

#[test]
fn a_failed_switch_is_reported_with_its_output() {
    let mut deployment = building();
    deployment.stage = Stage::Switching;
    let failure = error(deployment.advance(output(false, b"out", b"err")));
    assert!(matches!(failure, NixCommandError::Switch { .. }));
    assert_eq!(
        failure.to_string(),
        "Switch failed: foo\nstdout: out\nstderr: err"
    );
}

#[test]
fn a_command_that_does_not_run_is_reported() {
    for stage in [Stage::Building, Stage::Switching] {
        let mut deployment = building();
        deployment.stage = stage;
        let failure = error(deployment.advance(Err("No such file".to_string())));
        assert_eq!(failure.to_string(), "Execution failed: No such file");
    }
}

#[test]
fn the_steps_follow_from_the_text_of_the_output() {
    let deployment = building();
    let text = |success: bool, result: &str| OutputText {
        success,
        stdout: "out".to_string(),
        stderr: "err".to_string(),
        result: result.to_string(),
    };
    let switch = command(deployment.after_build(&text(true, "/nix/store/a")));
    assert_eq!(switch.program, "/nix/store/a/bin/switch-to-configuration");
    assert!(matches!(
        error(deployment.after_build(&text(false, "/nix/store/a"))),
        NixCommandError::Build { .. }
    ));
    assert!(matches!(
        deployment.after_switch(&text(true, "")),
        DeployStep::Done { result: Ok(()) }
    ));
    assert!(matches!(
        error(deployment.after_switch(&text(false, ""))),
        NixCommandError::Switch { .. }
    ));
}

#[test]
fn output_is_read_as_text() {
    let text = CommandOutput {
        success: true,
        stdout: b"\x0c \xc3\xa9\xff \r\n\x0b".to_vec(),
        stderr: vec![],
    }
    .read();
    assert!(text.success);
    assert_eq!(text.stdout, "\u{c} é\u{fffd} \r\n\u{b}");
    assert_eq!(text.stderr, "");
    assert_eq!(text.result, "é\u{fffd} \r\n\u{b}");
}
