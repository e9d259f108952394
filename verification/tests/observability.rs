use pullix::config::{Config, ConfigFlake, HomeManagerConfig, WebhooksConfig};
use pullix::deploy::Deployed;
use pullix::flake::FlakeType;
use pullix::git::Commit;
use pullix::metrics::{self, Label};
use pullix::observability::{
    last_commit_labels, remote_state_labels, setup, DeploymentType, MissingEndpoint,
};

fn config(endpoint: Option<&str>) -> Config {
    Config {
        flake_repo: ConfigFlake {
            type_: FlakeType::File,
            repo: "".to_string(),
            host: None,
            test_spec: None,
            prod_spec: None,
        },
        poll_interval_secs: 17,
        app_dir: "/srv/pullix".to_string(),
        hostname: "foo".to_string(),
        otel_http_endpoint: endpoint.map(|url| url.to_string()),
        private_key: None,
        keep_last: 100,
        home_manager_switch: false,
        home_manager_command: "home-manager".to_string(),
        github_token: None,
        home_manager: None,
        webhooks: WebhooksConfig::default(),
    }
}

fn shown(labels: Vec<Label>) -> Vec<String> {
    labels
        .iter()
        .map(|label| format!("{}={}", label.key, label.value))
        .collect()
}

#[test]
fn the_remote_state_names_unknown_references() {
    let main = Commit::from("m");
    let prod = Commit::from("p");
    let test = Commit::from("t");
    assert_eq!(
        shown(metrics::remote_state_labels(&main, Some(&prod), Some(&test))),
        vec!["main_commit=m", "prod_commit=p", "test_commit=t"]
    );
    assert_eq!(
        shown(metrics::remote_state_labels(&main, None, None)),
        vec!["main_commit=m", "prod_commit=unknown", "test_commit=unknown"]
    );
    assert_eq!(
        shown(remote_state_labels(&main, Some(&prod), None, DeploymentType::NixOS)),
        vec![
            "main_commit=m",
            "prod_commit=p",
            "test_commit=unknown",
            "deployment_type=NixOS"
        ]
    );
}

#[test]
fn the_last_deployment_is_told_by_outcome() {
    let commit = || Commit::from("c");
    assert!(metrics::last_commit_labels(&Deployed::Init).is_none());
    assert!(last_commit_labels(&Deployed::Init, DeploymentType::NixOS).is_none());
    for (entry, outcome) in [
        (Deployed::TestAligned(commit()), "test"),
        (Deployed::ProdAligned(commit()), "prod"),
        (Deployed::TestFailed(commit()), "fail"),
        (Deployed::ProdFailed(commit()), "fail"),
    ] {
        let deployed = format!("deployed={outcome}");
        assert_eq!(
            shown(metrics::last_commit_labels(&entry).unwrap()),
            vec![deployed.as_str(), "commit=c"]
        );
        assert_eq!(
            shown(last_commit_labels(&entry, DeploymentType::HomeManager).unwrap()),
            vec![deployed.as_str(), "commit=c", "deployment_type=HomeManager"]
        );
    }
}

#[test]
fn the_kind_follows_the_configuration() {
    let mut config = config(None);
    assert_eq!(DeploymentType::of(&config).to_string(), "NixOS");
    config.home_manager = Some(HomeManagerConfig {
        username: "foo".to_string(),
        package: "".to_string(),
    });
    assert_eq!(DeploymentType::of(&config).to_string(), "HomeManager");
}

#[test]
fn exports_go_below_the_endpoint() {
    let plan = setup(&config(Some("http://otel:4318"))).unwrap();
    assert_eq!(plan.traces_url, "http://otel:4318/v1/traces");
    assert_eq!(plan.metrics_url, "http://otel:4318/v1/metrics");
    assert_eq!(plan.interval_secs, 17);
    assert_eq!(
        metrics::setup_otel(&config(Some("http://otel:4318"))).as_deref(),
        Some("http://otel:4318")
    );
}

#[test]
fn without_an_endpoint_nothing_is_exported() {
    assert!(matches!(setup(&config(None)), Err(MissingEndpoint)));
    assert_eq!(MissingEndpoint.to_string(), "Otel endpoint not provided.");
    assert!(metrics::setup_otel(&config(None)).is_none());
}
