use pullix::config::{
    default_app_dir, default_poll_interval, linux_hostname, no_home_manager_switch,
    no_private_key, no_prometheus_endpoint, Config, ConfigFlake, HomeManagerConfig, PrivateKey,
    WebhooksConfig,
};
use pullix::flake::FlakeType;

fn config() -> Config {
    Config {
        flake_repo: ConfigFlake {
            type_: FlakeType::File,
            repo: "".to_string(),
            host: None,
            test_spec: None,
            prod_spec: None,
        },
        poll_interval_secs: default_poll_interval(),
        app_dir: default_app_dir(),
        hostname: linux_hostname("foo\n"),
        otel_http_endpoint: no_prometheus_endpoint(),
        private_key: no_private_key(),
        keep_last: 100,
        home_manager_switch: no_home_manager_switch(),
        home_manager_command: "home-manager".to_string(),
        github_token: None,
        home_manager: None,
        webhooks: WebhooksConfig::default(),
    }
}

#[test]
fn defaults() {
    let config = config();
    assert_eq!(config.poll_interval_secs, 60);
    assert_eq!(config.app_dir, "/var/lib/pullix");
    assert_eq!(config.hostname, "foo");
    assert!(config.otel_http_endpoint.is_none());
    assert!(config.private_key.is_none());
    assert!(!config.home_manager_switch);
    assert!(config.webhooks.on_test_success.is_none());
    assert!(config.webhooks.on_test_failure.is_none());
    assert!(config.webhooks.on_prod_success.is_none());
    assert!(config.webhooks.on_prod_failure.is_none());
}

#[test]
fn state_files_follow_what_is_deployed() {
    let mut config = config();
    assert_eq!(
        config.nixos_state_path(),
        "/var/lib/pullix/state.json"
    );
    assert_eq!(
        config.home_manager_state_path(),
        "/var/lib/pullix/home_manager_deployments.json"
    );
    assert_eq!(config.actual_state_path(), config.nixos_state_path());
    config.home_manager = Some(HomeManagerConfig {
        username: "foo".to_string(),
        package: "".to_string(),
    });
    assert_eq!(config.actual_state_path(), config.home_manager_state_path());
}

#[test]
fn a_key_takes_up_its_passphrase_as_it_is() {
    let mut key = PrivateKey::new("/keys/id".to_string(), "/keys/pass".to_string());
    assert_eq!(key.passphrase(), "");
    key.setup("secret\n".to_string());
    assert_eq!(key.passphrase(), "secret\n");
    assert_eq!(key.path, "/keys/id");
    assert_eq!(key.passphrase_path, "/keys/pass");
}

#[test]
fn a_host_name_is_trimmed_at_its_end_only() {
    for (reported, name) in [
        ("foo", "foo"),
        ("foo \t\r\n", "foo"),
        (" foo", " foo"),
        ("\u{a0}\n", ""),
        ("", ""),
    ] {
        assert_eq!(linux_hostname(reported), name);
    }
}
