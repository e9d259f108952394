use pullix::config::{Config, ConfigFlake, HomeManagerConfig, UrlSpecConfig, WebhooksConfig};
use pullix::deploy::{Deployed, Deployments, Environment, ShouldDeploy};
use pullix::flake::FlakeType;
use pullix::git::{Commit, LatestCommits};
use pullix::nix_commands::NixCommandError;

fn make_config() -> Config {
    Config {
        flake_repo: ConfigFlake {
            type_: FlakeType::GitHub,
            repo: "o/r".to_string(),
            host: None,
            test_spec: Some(UrlSpecConfig {
                ref_: Some("test".to_string()),
                rev: None,
            }),
            prod_spec: Some(UrlSpecConfig {
                ref_: Some("prod".to_string()),
                rev: None,
            }),
        },
        poll_interval_secs: 60,
        app_dir: "/srv/pullix".to_string(),
        hostname: "foo".to_string(),
        otel_http_endpoint: None,
        private_key: None,
        keep_last: 100,
        home_manager_switch: false,
        home_manager_command: "home-manager".to_string(),
        github_token: None,
        home_manager: None,
        webhooks: WebhooksConfig::default(),
    }
}

fn entries(deployments: &Deployments) -> Vec<String> {
    deployments
        .history
        .iter()
        .map(|entry| match entry {
            Deployed::Init => "init".to_string(),
            Deployed::TestAligned(c) => format!("test {}", c.as_str()),
            Deployed::ProdAligned(c) => format!("prod {}", c.as_str()),
            Deployed::TestFailed(c) => format!("test failed {}", c.as_str()),
            Deployed::ProdFailed(c) => format!("prod failed {}", c.as_str()),
        })
        .collect()
}

fn failure() -> Result<(), NixCommandError> {
    Err(NixCommandError::to_execution("Example error"))
}

fn decided(action: &ShouldDeploy) -> Vec<String> {
    entries(action.deployments().unwrap())
}

fn make_latest_commits_prod_last(test_hash: &str, prod_hash: &str) -> LatestCommits {
    LatestCommits::new(Commit::from(test_hash), Commit::from(prod_hash), -1)
}
fn make_latest_commits_test_last(test_hash: &str, prod_hash: &str) -> LatestCommits {
    LatestCommits::new(Commit::from(test_hash), Commit::from(prod_hash), 1)
}

#[test]
fn test_should_deploy_empty_history() {
    // Empty history should deploy to prod
    let deployments = Deployments { history: vec![] };
    let current = make_latest_commits_prod_last("test123", "prod123");

    match deployments.should_deploy(&current) {
        ShouldDeploy::ToProd {
            deployments: deps,
            commit,
        } => {
            assert_eq!(deps.history.len(), 1);
            assert_eq!(commit, "prod123".into());
            assert!(matches!(
                deps.history.last(),
                Some(Deployed::ProdAligned(_))
            ));
            if let Some(Deployed::ProdAligned(c)) = deps.history.last() {
                assert_eq!(c, &"prod123".into());
            }
        }
        _ => panic!("Expected ToProd deployment"),
    }
}

#[test]
fn test_should_deploy_after_init() {
    // After Init, should deploy to prod
    let deployments = Deployments {
        history: vec![Deployed::Init],
    };
    let current = make_latest_commits_prod_last("test456", "prod456");

    match deployments.should_deploy(&current) {
        ShouldDeploy::ToProd {
            deployments: deps,
            commit,
        } => {
            assert_eq!(deps.history.len(), 2);
            assert_eq!(commit, "prod456".into());
            assert!(matches!(deps.history[0], Deployed::Init));
            assert!(matches!(
                deps.history.last(),
                Some(Deployed::ProdAligned(_))
            ));
            if let Some(Deployed::ProdAligned(c)) = deps.history.last() {
                assert_eq!(c, &"prod456".into());
            }
        }
        _ => panic!("Expected ToProd deployment"),
    }
}

#[test]
fn test_should_deploy_after_test_aligned() {
    // After TestAligned, should deploy to test if test commit is new
    let deployments = Deployments {
        history: vec![
            Deployed::Init,
            Deployed::TestAligned(Commit::from("test789")),
        ],
    };
    let current = make_latest_commits_test_last("test999", "prod789");

    match deployments.should_deploy(&current) {
        ShouldDeploy::ToTest {
            deployments: deps,
            commit,
        } => {
            assert_eq!(deps.history.len(), 3);
            assert_eq!(commit, "test999".into());
            assert!(matches!(
                deps.history.last(),
                Some(Deployed::TestAligned(_))
            ));
            if let Some(Deployed::TestAligned(c)) = deps.history.last() {
                assert_eq!(c, &"test999".into());
            }
        }
        _ => panic!("Expected ToTest deployment"),
    }
}

#[test]
fn test_should_deploy_after_prod_aligned() {
    // After ProdAligned, should deploy to test first if test commit is new
    let deployments = Deployments {
        history: vec![
            Deployed::Init,
            Deployed::ProdAligned(Commit::from("prod111")),
        ],
    };
    let current = make_latest_commits_test_last("test222", "prod333");

    match deployments.should_deploy(&current) {
        ShouldDeploy::ToTest {
            deployments: deps,
            commit,
        } => {
            assert_eq!(deps.history.len(), 3);
            assert_eq!(commit, "test222".into());
            assert!(matches!(
                deps.history.last(),
                Some(Deployed::TestAligned(_))
            ));
            if let Some(Deployed::TestAligned(c)) = deps.history.last() {
                assert_eq!(c, &"test222".into());
            }
        }
        _ => panic!("Expected ToTest deployment"),
    }
}

#[test]
fn test_should_deploy_complex_history() {
    // Test with a complex deployment history
    let deployments = Deployments {
        history: vec![
            Deployed::Init,
            Deployed::ProdAligned(Commit::from("prod100")),
            Deployed::TestAligned(Commit::from("test200")),
        ],
    };
    let current = make_latest_commits_test_last("test300", "prod300");

    match deployments.should_deploy(&current) {
        ShouldDeploy::ToTest {
            deployments: deps,
            commit,
        } => {
            assert_eq!(deps.history.len(), 4);
            assert_eq!(commit, "test300".into());
            // Verify the history is preserved
            assert!(matches!(deps.history[0], Deployed::Init));
            assert!(matches!(deps.history[1], Deployed::ProdAligned(_)));
            assert!(matches!(deps.history[2], Deployed::TestAligned(_)));
            assert!(matches!(deps.history[3], Deployed::TestAligned(_)));

            if let Some(Deployed::TestAligned(c)) = deps.history.last() {
                assert_eq!(c, &"test300".into());
            }
        }
        _ => panic!("Expected ToTest deployment"),
    }
}

#[test]
fn test_should_not_deploy_a_previous_failed_commit() {
    let deployments = Deployments {
        history: vec![
            Deployed::Init,
            Deployed::ProdAligned(Commit::from("prod100")),
            Deployed::TestFailed(Commit::from("test200")),
        ],
    };
    let current = make_latest_commits_test_last("test200", "prod100");

    match deployments.should_deploy(&current) {
        ShouldDeploy::Nothing => {}
        _ => panic!("Expected Nothing to deploy"),
    }
}

#[test]
fn test_should_deploy_new_commit_after_failed_commit() {
    // Test with a complex deployment history
    let deployments = Deployments {
        history: vec![
            Deployed::Init,
            Deployed::ProdAligned(Commit::from("prod100")),
            Deployed::TestFailed(Commit::from("test200")),
        ],
    };
    let current = make_latest_commits_test_last("test300", "prod100");

    match deployments.should_deploy(&current) {
        ShouldDeploy::ToTest {
            deployments,
            commit,
        } => {
            assert!(matches!(
                deployments.last_deployment(),
                Some(Deployed::TestAligned(_))
            ));
            assert_eq!(commit, Commit::from("test300"));
        }
        _ => panic!("Expected ToTest deployment"),
    }
}

#[test]
fn test_should_deploy_preserves_all_history() {
    // Verify that history is preserved across multiple deployments
    let mut deployments = Deployments {
        history: vec![Deployed::Init],
    };

    let commits1 = make_latest_commits_prod_last("test1", "prod1");
    deployments = match deployments.should_deploy(&commits1) {
        ShouldDeploy::ToProd {
            deployments: deps, ..
        } => deps,
        _ => panic!("Expected ToProd"),
    };
    assert_eq!(deployments.history.len(), 2);

    let commits2 = make_latest_commits_test_last("test2", "prod2");
    deployments = match deployments.should_deploy(&commits2) {
        ShouldDeploy::ToTest {
            deployments: deps, ..
        } => deps,
        _ => panic!("Expected ToTest since test2 is new"),
    };
    assert_eq!(deployments.history.len(), 3);

    // Verify all entries are still there
    assert!(matches!(deployments.history[0], Deployed::Init));
    assert!(matches!(deployments.history[1], Deployed::ProdAligned(_)));
    assert!(matches!(deployments.history[2], Deployed::TestAligned(_)));
}

#[test]
fn test_should_deploy_nothing_when_commits_already_deployed() {
    // Should return Nothing when both commits have been deployed
    let deployments = Deployments {
        history: vec![
            Deployed::Init,
            Deployed::TestAligned(Commit::from("test123")),
            Deployed::ProdAligned(Commit::from("prod123")),
        ],
    };
    let current = make_latest_commits_prod_last("test123", "prod123");

    match deployments.should_deploy(&current) {
        ShouldDeploy::Nothing => {
            // Expected behavior
        }
        _ => panic!("Expected Nothing since both commits are already deployed"),
    }
}

#[test]
fn test_should_deploy_to_prod_when_test_deployed_but_prod_new() {
    // Should deploy to prod when test is already deployed but prod is new
    let deployments = Deployments {
        history: vec![
            Deployed::Init,
            Deployed::TestAligned(Commit::from("test123")),
        ],
    };
    let current = make_latest_commits_prod_last("test123", "prod456");

    match deployments.should_deploy(&current) {
        ShouldDeploy::ToProd {
            deployments: deps,
            commit,
        } => {
            assert_eq!(commit, "prod456".into());
            assert_eq!(deps.history.len(), 3);
            assert!(matches!(
                deps.history.last(),
                Some(Deployed::ProdAligned(_))
            ));
        }
        _ => panic!("Expected ToProd since prod commit is new"),
    }
}

#[test]
fn test_should_deploy_to_prod_when_test_deployed_and_prod_rebased_on_test() {
    // Should deploy to prod when test is already deployed and prod is rebased on same test commit
    let deployments = Deployments {
        history: vec![
            Deployed::Init,
            Deployed::TestAligned(Commit::from("test123")),
        ],
    };
    let current = LatestCommits::new(Commit::from("test123"), Commit::from("test123"), 0);

    match deployments.should_deploy(&current) {
        ShouldDeploy::ToProd {
            deployments: deps,
            commit,
        } => {
            assert_eq!(commit, "test123".into());
            assert_eq!(deps.history.len(), 3);
            assert!(matches!(
                deps.history.last(),
                Some(Deployed::ProdAligned(_))
            ));
        }
        debug_data => panic!(
            "Expected ToProd since prod commit not deployed yet. Actual is {:?}",
            debug_data
        ),
    }
}

#[test]
fn test_should_deploy_nothing_when_prod_deployed_and_test_rebased_on_prod() {
    let deployments = Deployments {
        history: vec![
            Deployed::Init,
            Deployed::ProdAligned(Commit::from("prod123")),
        ],
    };
    let current = LatestCommits::new(Commit::from("prod123"), Commit::from("prod123"), 0);

    match deployments.should_deploy(&current) {
        ShouldDeploy::Nothing => {}
        debug_data => panic!(
            "Expected Nothing since prod commit deployed and test is rebased. Actual is {:?}",
            debug_data
        ),
    }
}

#[test]
fn an_entry_belongs_to_one_environment() {
    let commit = || Commit::from("abc");
    for entry in [Deployed::TestAligned(commit()), Deployed::TestFailed(commit())] {
        assert_eq!(entry.test_commit(), Some(&commit()));
        assert_eq!(entry.prod_commit(), None);
    }
    for entry in [Deployed::ProdAligned(commit()), Deployed::ProdFailed(commit())] {
        assert_eq!(entry.test_commit(), None);
        assert_eq!(entry.prod_commit(), Some(&commit()));
    }
    assert_eq!(Deployed::Init.test_commit(), None);
    assert_eq!(Deployed::Init.prod_commit(), None);
}

#[test]
fn a_failure_keeps_the_commit_and_fails_once() {
    let test = Deployed::TestAligned(Commit::from("abc")).failed();
    assert!(matches!(&test, Deployed::TestFailed(c) if c == &Commit::from("abc")));
    assert!(matches!(test.failed(), Deployed::TestFailed(_)));
    let prod = Deployed::ProdAligned(Commit::from("abc")).failed();
    assert!(matches!(&prod, Deployed::ProdFailed(c) if c == &Commit::from("abc")));
    assert!(matches!(prod.failed(), Deployed::ProdFailed(_)));
    assert!(matches!(Deployed::Init.failed(), Deployed::Init));
}

#[test]
fn a_host_without_history_begins_with_nothing_deployed() {
    assert_eq!(entries(&Deployments::initial()), vec!["init"]);
    assert!(matches!(
        Deployments::initial().last_deployment(),
        Some(Deployed::Init)
    ));
    assert!(Deployments { history: vec![] }.last_deployment().is_none());
}

#[test]
fn a_single_reference_is_deployed_where_it_belongs() {
    let deployments = Deployments::initial();
    let test = deployments.should_deploy(&LatestCommits::Test(Commit::from("abc")));
    assert_eq!(decided(&test), vec!["init", "test abc"]);
    let prod = deployments.should_deploy(&LatestCommits::Prod(Commit::from("abc")));
    assert_eq!(decided(&prod), vec!["init", "prod abc"]);
    let seen = Deployments {
        history: vec![
            Deployed::TestFailed(Commit::from("abc")),
            Deployed::ProdFailed(Commit::from("abc")),
        ],
    };
    for commits in [
        LatestCommits::Test(Commit::from("abc")),
        LatestCommits::Prod(Commit::from("abc")),
    ] {
        let action = seen.should_deploy(&commits);
        assert!(matches!(action, ShouldDeploy::Nothing));
        assert!(action.deployments().is_none());
    }
}

#[test]
fn histories_can_be_asked_added_to_and_trimmed() {
    let mut deployments = Deployments::initial()
        .add_test_deployment(&Commit::from("a"))
        .add_prod_deployment(&Commit::from("b"))
        .add_test_deployment(&Commit::from("c"));
    assert!(deployments.contains_commit_test(&Commit::from("a")));
    assert!(!deployments.contains_commit_prod(&Commit::from("a")));
    assert!(deployments.contains_commit_prod(&Commit::from("b")));
    deployments.set_last_failed();
    assert_eq!(entries(&deployments), vec!["init", "test a", "prod b", "test failed c"]);
    deployments.trim_history(4);
    assert_eq!(deployments.history.len(), 4);
    deployments.trim_history(3);
    assert_eq!(entries(&deployments), vec!["test a", "prod b", "test failed c"]);
    deployments.trim_history(0);
    assert_eq!(entries(&deployments), vec!["test a", "prod b", "test failed c"]);
}

#[test]
fn trimming_drops_what_a_later_entry_repeats() {
    let mut deployments = Deployments {
        history: vec![
            Deployed::Init,
            Deployed::TestFailed(Commit::from("a")),
            Deployed::ProdAligned(Commit::from("a")),
            Deployed::Init,
            Deployed::TestAligned(Commit::from("a")),
            Deployed::ProdFailed(Commit::from("b")),
        ],
    };
    deployments.trim_history(3);
    assert_eq!(entries(&deployments), vec!["prod a", "init", "test a", "prod failed b"]);
    deployments.trim_history(1);
    assert_eq!(entries(&deployments), vec!["prod a", "test a", "prod failed b"]);
}

#[test]
fn a_processed_commit_is_known_after_trimming() {
    let mut deployments = Deployments {
        history: vec![
            Deployed::ProdAligned(Commit::from("p")),
            Deployed::TestAligned(Commit::from("t")),
        ],
    };
    deployments.trim_history(1);
    assert!(matches!(
        deployments.should_deploy(&LatestCommits::Prod(Commit::from("p"))),
        ShouldDeploy::Nothing
    ));
}

#[test]
fn the_due_commit_is_ordered_at_its_revision() {
    let config = make_config();
    let deployments = Deployments::initial();
    let action = deployments.should_deploy(&make_latest_commits_test_last("t1", "p1"));
    let order = action.run(&config).unwrap();
    assert_eq!(order.environment, Environment::Test);
    assert_eq!(order.flake_ref.rev.as_deref(), Some("t1"));
    assert_eq!(order.flake_ref.ref_.as_deref(), Some("test"));
    assert_eq!(order.hostname, "foo");
    let action = deployments.should_deploy(&make_latest_commits_prod_last("t1", "p1"));
    let order = action.run(&config).unwrap();
    assert_eq!(order.environment, Environment::Prod);
    assert_eq!(order.flake_ref.rev.as_deref(), Some("p1"));
    assert_eq!(order.flake_ref.ref_.as_deref(), Some("prod"));
    assert!(ShouldDeploy::Nothing.run(&config).is_none());
}

#[test]
fn a_success_is_saved_as_aligned() {
    let config = make_config();
    let deployments = Deployments {
        history: vec![Deployed::Init, Deployed::TestAligned(Commit::from("test123"))],
    };
    let mut action = deployments.should_deploy(&make_latest_commits_prod_last("test123", "prod456"));
    let order = action.conclude(&config, Ok(())).unwrap();
    assert_eq!(order.path, "/srv/pullix/state.json");
    assert!(order.report.is_none());
    assert_eq!(decided(&action), vec!["init", "test test123", "prod prod456"]);
}

#[test]
fn a_failure_is_saved_and_reported_each_time() {
    let config = make_config();
    let deployments = Deployments {
        history: vec![Deployed::Init, Deployed::TestAligned(Commit::from("test123"))],
    };
    let mut action = deployments.should_deploy(&make_latest_commits_prod_last("test123", "prod456"));
    for _ in 0..2 {
        let order = action.conclude(&config, failure()).unwrap();
        assert_eq!(
            order.report.unwrap().to_string(),
            "Execution failed: Example error"
        );
        assert_eq!(
            decided(&action),
            vec!["init", "test test123", "prod failed prod456"]
        );
    }
}

#[test]
fn nothing_due_leaves_nothing_to_save() {
    let config = make_config();
    let mut action = ShouldDeploy::Nothing;
    assert!(action.conclude(&config, failure()).is_none());
    assert!(matches!(action, ShouldDeploy::Nothing));
}

#[test]
fn home_manager_has_a_history_of_its_own() {
    let mut config = make_config();
    config.home_manager = Some(HomeManagerConfig {
        username: "foo".to_string(),
        package: "".to_string(),
    });
    let mut action =
        Deployments::initial().should_deploy(&LatestCommits::Prod(Commit::from("abc")));
    let order = action.conclude(&config, Ok(())).unwrap();
    assert_eq!(order.path, "/srv/pullix/home_manager_deployments.json");
}

#[test]
fn a_processed_commit_is_not_deployed_from_the_saved_history() {
    let mut config = make_config();
    for keep_last in [0, 1, 100] {
        config.keep_last = keep_last;
        for outcome in [Ok(()), failure()] {
            let commits = make_latest_commits_test_last("t1", "p1");
            let mut action = Deployments::initial().should_deploy(&commits);
            action.conclude(&config, outcome);
            let saved = action.deployments().unwrap();
            assert_eq!(saved.last_deployment().unwrap().test_commit(), Some(&Commit::from("t1")));
            assert!(matches!(saved.should_deploy(&commits), ShouldDeploy::Nothing));
            assert!(matches!(
                saved.should_deploy(&make_latest_commits_test_last("t2", "p1")),
                ShouldDeploy::ToTest { .. }
            ));
        }
    }
}

#[test]
fn a_commit_stays_known_however_many_follow() {
    let mut config = make_config();
    config.keep_last = 2;
    let mut deployments = Deployments::initial();
    for hash in ["c1", "c2", "c3", "c4"] {
        let mut action = deployments.should_deploy(&LatestCommits::Test(Commit::from(hash)));
        action.conclude(&config, Ok(()));
        deployments = match action {
            ShouldDeploy::ToTest { deployments, .. } => deployments,
            _ => panic!("Expected a new commit to be deployed"),
        };
        assert!(matches!(
            deployments.should_deploy(&LatestCommits::Test(Commit::from("c1"))),
            ShouldDeploy::Nothing
        ));
    }
    assert_eq!(entries(&deployments), vec!["test c1", "test c2", "test c3", "test c4"]);
}
