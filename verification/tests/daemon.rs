use pullix::config::{Config, ConfigFlake, HomeManagerConfig, UrlSpecConfig, WebhooksConfig};
use pullix::deploy::{Deployed, Deployments, Environment};
use pullix::distance::{
    measured, resolve, DistanceAnswer, DistanceSearch, DistanceStep, Resolution,
};
use pullix::flake::{FlakeRef, FlakeType};
use pullix::git::{Commit, GitError, LatestCommits};
use pullix::nix_commands::NixCommandError;
use pullix::poll::{Daemon, PollEvent, PollState, PollStep};
use pullix::search::{main_commit, Answer, CommitSearch, Lookup, SearchStep};
use pullix::sync::{RepoSync, SyncEvent, SyncStep};

/// A repository that is polled.
struct Origin {
    repo: git2::Repository,
    dir: tempfile::TempDir,
    commits: usize,
}

impl Origin {
    fn new() -> Origin {
        let dir = tempfile::tempdir().unwrap();
        let mut options = git2::RepositoryInitOptions::new();
        options.initial_head("main");
        let repo = git2::Repository::init_opts(dir.path(), &options).unwrap();
        Origin {
            repo,
            dir,
            commits: 0,
        }
    }

    fn path(&self) -> &str {
        self.dir.path().to_str().unwrap()
    }

    fn signature(&self) -> git2::Signature<'static> {
        git2::Signature::now("Test User", "test@example.com").unwrap()
    }

    fn commit_on(&mut self, parents: &[git2::Oid], update_head: bool) -> git2::Oid {
        self.commits += 1;
        let text = format!("content {}", self.commits);
        let blob = self.repo.blob(text.as_bytes()).unwrap();
        let mut builder = self.repo.treebuilder(None).unwrap();
        builder.insert("file.txt", blob, 0o100644).unwrap();
        let tree = self.repo.find_tree(builder.write().unwrap()).unwrap();
        let parents: Vec<git2::Commit> = parents
            .iter()
            .map(|id| self.repo.find_commit(*id).unwrap())
            .collect();
        let parents: Vec<&git2::Commit> = parents.iter().collect();
        let head = if update_head { Some("HEAD") } else { None };
        let signature = self.signature();
        self.repo
            .commit(head, &signature, &signature, &text, &tree, &parents)
            .unwrap()
    }

    fn add_commit(&mut self) -> git2::Oid {
        let parents: Vec<git2::Oid> = match self.repo.head() {
            Ok(head) => vec![head.peel_to_commit().unwrap().id()],
            Err(_) => vec![],
        };
        self.commit_on(&parents, true)
    }

    fn add_tag(&self, name: &str, id: git2::Oid) {
        let commit = self.repo.find_commit(id).unwrap();
        let message = format!("{name} tag");
        self.repo
            .tag(name, commit.as_object(), &self.signature(), &message, false)
            .unwrap();
    }

    fn move_tag(&self, name: &str, id: git2::Oid) {
        self.repo.tag_delete(name).unwrap();
        self.add_tag(name, id);
    }
}

/// The daemon's own repository, which answers the library's questions.
struct Local {
    repo: git2::Repository,
    _dir: tempfile::TempDir,
}

impl Local {
    fn new() -> Local {
        let dir = tempfile::tempdir().unwrap();
        let repo = git2::Repository::init(dir.path().join("flake_repo")).unwrap();
        Local { repo, _dir: dir }
    }

    fn carry(&self, step: SyncStep) -> SyncEvent {
        let done = match step {
            SyncStep::FindRemote { remote } => {
                return SyncEvent::RemoteFound {
                    exists: self.repo.find_remote(&remote).is_ok(),
                };
            }
            SyncStep::SetUrl { remote, url } => self.repo.remote_set_url(&remote, &url),
            SyncStep::CreateRemote { remote, url } => self.repo.remote(&remote, &url).map(|_| ()),
            SyncStep::ListTags => {
                let names = self.repo.tag_names(None).unwrap();
                return SyncEvent::Tags {
                    names: names.iter().map(|name| name.map(String::from)).collect(),
                };
            }
            SyncStep::DeleteTag { tag } => self.repo.tag_delete(&tag),
            SyncStep::Fetch { remote, refspec } => self
                .repo
                .find_remote(&remote)
                .and_then(|mut remote| remote.fetch(&[refspec.as_str()], None, None)),
            SyncStep::Done => panic!("There is nothing to do"),
        };
        match done {
            Ok(()) => SyncEvent::Carried,
            Err(error) => SyncEvent::Failed {
                message: error.to_string(),
            },
        }
    }

    fn sync(&self, flake: &FlakeRef) -> Result<(), GitError> {
        let mut sync = RepoSync::new(flake)?;
        loop {
            let step = sync.step();
            if matches!(step, SyncStep::Done) {
                return Ok(());
            }
            sync = sync.advance(self.carry(step))?;
        }
    }

    fn look(&self, lookup: Lookup) -> Answer {
        let missing = |error: git2::Error| Answer::Missing {
            message: error.to_string(),
        };
        let found = match lookup {
            Lookup::Object { id } => match self.repo.find_commit(id.parse().unwrap()) {
                Ok(commit) => Ok(commit),
                Err(error) => return missing(error),
            },
            Lookup::Reference { name } => match self.repo.find_reference(&name) {
                Ok(reference) => reference.peel_to_commit(),
                Err(error) => return missing(error),
            },
        };
        match found {
            Ok(commit) => Answer::Commit {
                id: commit.id().to_string(),
            },
            Err(error) => Answer::Failed {
                message: error.to_string(),
            },
        }
    }

    fn search(&self, mut search: CommitSearch) -> SearchStep {
        let mut step = search.step();
        while let SearchStep::Look { lookup } = step {
            step = search.advance(self.look(lookup));
        }
        step
    }

    fn find(&self, flake: &FlakeRef) -> Result<Option<Commit>, GitError> {
        match self.search(CommitSearch::new(flake.rev.as_deref(), flake.ref_.as_deref())) {
            SearchStep::Found { commit } => Ok(Some(commit)),
            SearchStep::NotFound => Ok(None),
            SearchStep::Failed { error } => Err(error),
            SearchStep::Look { .. } => panic!("The search is not over"),
        }
    }

    fn compare(&self, mut search: DistanceSearch) -> Result<LatestCommits, GitError> {
        let mut step = search.step();
        loop {
            let answer = match step {
                DistanceStep::Find { id } => match self.repo.find_commit(id.parse().unwrap()) {
                    Ok(_) => DistanceAnswer::Found,
                    Err(error) => DistanceAnswer::Missing {
                        message: error.to_string(),
                    },
                },
                DistanceStep::Descends {
                    descendant,
                    ancestor,
                } => DistanceAnswer::Descends {
                    descends: self
                        .repo
                        .graph_descendant_of(descendant.parse().unwrap(), ancestor.parse().unwrap())
                        .unwrap(),
                },
                DistanceStep::Count {
                    ancestor,
                    descendant,
                } => {
                    let mut walk = self.repo.revwalk().unwrap();
                    walk.push(descendant.parse().unwrap()).unwrap();
                    walk.hide(ancestor.parse().unwrap()).unwrap();
                    DistanceAnswer::Count {
                        count: walk.count(),
                    }
                }
                DistanceStep::Done { .. } | DistanceStep::Failed { .. } => {
                    return search.commits();
                }
            };
            step = search.advance(answer);
        }
    }

    fn distance(&self, first: &Commit, second: &Commit) -> Result<isize, GitError> {
        match self.compare(DistanceSearch::new(first, second)?)? {
            LatestCommits::Distance { distance, .. } => Ok(distance),
            other => panic!("Expected Distance variant, got {:?}", other),
        }
    }

    fn sync_and_get_commits(&self, config: &Config) -> Result<LatestCommits, GitError> {
        let (test_flake, prod_flake) = FlakeRef::from_config(&config.flake_repo);
        self.sync(&test_flake)?;
        self.sync(&prod_flake)?;
        match resolve(self.find(&test_flake)?, self.find(&prod_flake)?) {
            Resolution::Known { commits } => Ok(commits),
            Resolution::Both { search } => self.compare(search),
            Resolution::Failed { error } => Err(error),
        }
    }

    fn last_commit_on_main(&self) -> Option<Commit> {
        main_commit(self.search(CommitSearch::main_branch()))
    }
}

fn named(name: &str) -> Option<UrlSpecConfig> {
    Some(UrlSpecConfig {
        ref_: Some(name.to_string()),
        rev: None,
    })
}

fn make_config(
    path: &str,
    test_spec: Option<UrlSpecConfig>,
    prod_spec: Option<UrlSpecConfig>,
) -> Config {
    Config {
        flake_repo: ConfigFlake {
            type_: FlakeType::GitFile,
            repo: path.to_string(),
            host: None,
            test_spec,
            prod_spec,
        },
        poll_interval_secs: 60,
        app_dir: "/srv/pullix".to_string(),
        hostname: "foo".to_string(),
        otel_http_endpoint: None,
        private_key: None,
        keep_last: 100,
        home_manager_switch: false,
        home_manager_command: "home-manager".to_string(),
        github_token: None,
        home_manager: None,
        webhooks: WebhooksConfig::default(),
    }
}

fn tags_config(origin: &Origin) -> Config {
    make_config(origin.path(), named("test"), named("prod"))
}

fn commits_of(origin: &Origin) -> Result<LatestCommits, GitError> {
    Local::new().sync_and_get_commits(&tags_config(origin))
}

#[test]
fn sync_and_get_commits_both_tags_linear_test_ahead() {
    let mut origin = Origin::new();
    let _c1 = origin.add_commit();
    let c2 = origin.add_commit();
    origin.add_tag("prod", c2);
    let _c3 = origin.add_commit();
    let c4 = origin.add_commit();
    origin.add_tag("test", c4);
    match commits_of(&origin).expect("sync_and_get_commits failed") {
        LatestCommits::Distance {
            test,
            prod,
            distance,
        } => {
            assert_eq!(test, Commit::from(c4.to_string()), "test commit mismatch");
            assert_eq!(prod, Commit::from(c2.to_string()), "prod commit mismatch");
            assert_eq!(distance, 2, "test should be 2 commits ahead of prod");
        }
        other => panic!("Expected Distance variant, got {:?}", other),
    }
}

#[test]
fn sync_and_get_commits_both_tags_linear_prod_ahead() {
    let mut origin = Origin::new();
    let c1 = origin.add_commit();
    origin.add_tag("test", c1);
    let _c2 = origin.add_commit();
    let c3 = origin.add_commit();
    origin.add_tag("prod", c3);
    match commits_of(&origin).expect("sync_and_get_commits failed") {
        LatestCommits::Distance {
            test,
            prod,
            distance,
        } => {
            assert_eq!(test, Commit::from(c1.to_string()), "test commit mismatch");
            assert_eq!(prod, Commit::from(c3.to_string()), "prod commit mismatch");
            assert_eq!(distance, -2, "test should be 2 commits behind prod");
        }
        other => panic!("Expected Distance variant, got {:?}", other),
    }
}

#[test]
fn sync_and_get_commits_revisions_on_main_prod_ahead() {
    let mut origin = Origin::new();
    let c1 = origin.add_commit();
    let _c2 = origin.add_commit();
    let c3 = origin.add_commit();
    let pinned = |id: git2::Oid| {
        Some(UrlSpecConfig {
            ref_: Some("main".to_string()),
            rev: Some(id.to_string()),
        })
    };
    let config = make_config(origin.path(), pinned(c1), pinned(c3));
    match Local::new()
        .sync_and_get_commits(&config)
        .expect("sync_and_get_commits failed")
    {
        LatestCommits::Distance {
            test,
            prod,
            distance,
        } => {
            assert_eq!(test, Commit::from(c1.to_string()), "test commit mismatch");
            assert_eq!(prod, Commit::from(c3.to_string()), "prod commit mismatch");
            assert_eq!(distance, -2, "test should be 2 commits behind prod");
        }
        other => panic!("Expected Distance variant, got {:?}", other),
    }
}

#[test]
fn sync_and_get_commits_both_tags_same_commit() {
    let mut origin = Origin::new();
    let _c1 = origin.add_commit();
    let c2 = origin.add_commit();
    origin.add_tag("prod", c2);
    origin.add_tag("test", c2);
    match commits_of(&origin).expect("sync_and_get_commits failed") {
        LatestCommits::Distance {
            test,
            prod,
            distance,
        } => {
            assert_eq!(test, Commit::from(c2.to_string()));
            assert_eq!(prod, Commit::from(c2.to_string()));
            assert_eq!(
                distance, 0,
                "tags on the same commit should have distance 0"
            );
        }
        other => panic!("Expected Distance variant, got {:?}", other),
    }
}

#[test]
fn sync_and_get_commits_only_test_tag() {
    let mut origin = Origin::new();
    let _c1 = origin.add_commit();
    let c2 = origin.add_commit();
    origin.add_tag("test", c2);
    match commits_of(&origin).expect("sync_and_get_commits failed") {
        LatestCommits::Test(commit) => {
            assert_eq!(commit, Commit::from(c2.to_string()), "test commit mismatch");
        }
        other => panic!("Expected Test variant, got {:?}", other),
    }
}

#[test]
fn sync_and_get_commits_only_prod_tag() {
    let mut origin = Origin::new();
    let _c1 = origin.add_commit();
    let c2 = origin.add_commit();
    origin.add_tag("prod", c2);
    match commits_of(&origin).expect("sync_and_get_commits failed") {
        LatestCommits::Prod(commit) => {
            assert_eq!(commit, Commit::from(c2.to_string()), "prod commit mismatch");
        }
        other => panic!("Expected Prod variant, got {:?}", other),
    }
}

#[test]
fn sync_and_get_commits_no_tags() {
    let mut origin = Origin::new();
    let _c1 = origin.add_commit();
    let _c2 = origin.add_commit();
    let result = commits_of(&origin);
    assert!(result.is_err(), "Expected error when neither tag exists");
    let err_msg = result.unwrap_err().to_string();
    assert!(
        err_msg.contains("Could not find commits"),
        "Unexpected error message: {err_msg}"
    );
}

#[test]
fn sync_and_get_commits_divergent_branches() {
    let mut origin = Origin::new();
    let c1 = origin.add_commit();
    let c2 = origin.commit_on(&[c1], false);
    origin.add_tag("prod", c2);
    let c3 = origin.commit_on(&[c1], true);
    origin.add_tag("test", c3);
    let _c4 = origin.commit_on(&[c3, c2], true);
    let result = commits_of(&origin);
    assert!(result.is_err(), "Expected error for diverged branches");
    let err_msg = result.unwrap_err().to_string();
    assert!(
        err_msg.contains("not on the same branch"),
        "Unexpected error message: {err_msg}"
    );
    assert_eq!(
        err_msg,
        format!("Commits {c3} and {c2} are not on the same branch")
    );
}

#[test]
fn a_pinned_revision_is_a_commit_or_a_tag() {
    let mut origin = Origin::new();
    let c1 = origin.add_commit();
    let c2 = origin.add_commit();
    origin.add_tag("v1", c1);
    origin.add_tag("2024", c2);
    let local = Local::new();
    local
        .sync_and_get_commits(&make_config(origin.path(), named("main"), named("main")))
        .unwrap();
    let find = |revision: &str| {
        local.find(&FlakeRef {
            type_: FlakeType::GitFile,
            repo: "".to_string(),
            ref_: Some("main".to_string()),
            rev: Some(revision.to_string()),
            host: None,
        })
    };
    assert_eq!(find(&c1.to_string()).unwrap(), Some(Commit::from(c1.to_string())));
    assert_eq!(
        find(&c2.to_string().to_uppercase()).unwrap(),
        Some(Commit::from(c2.to_string()))
    );
    assert_eq!(find("v1").unwrap(), Some(Commit::from(c1.to_string())));
    assert_eq!(find("2024").unwrap(), Some(Commit::from(c2.to_string())));
    let unknown = git2::Oid::from_str("abcdef").unwrap();
    for (missing, said) in [
        ("v2", git2::Oid::from_str("v2").err()),
        ("abcdef", local.repo.find_commit(unknown).err()),
        ("", git2::Oid::from_str("").err()),
    ] {
        let error = find(missing).unwrap_err();
        assert_eq!(error.to_string(), said.unwrap().to_string());
        assert!(error.cause().is_none());
    }
}

#[test]
fn a_reference_is_found_by_its_name_then_as_branch_then_as_tag() {
    let mut origin = Origin::new();
    let c1 = origin.add_commit();
    let c2 = origin.add_commit();
    origin.add_tag("main", c1);
    origin.add_tag("only-tag", c1);
    let local = Local::new();
    local
        .sync_and_get_commits(&make_config(origin.path(), named("main"), None))
        .unwrap();
    let find = |name: Option<&str>| {
        local
            .find(&FlakeRef {
                type_: FlakeType::GitFile,
                repo: "".to_string(),
                ref_: name.map(|n| n.to_string()),
                rev: None,
                host: None,
            })
            .unwrap()
            .map(|commit| commit.to_string())
    };
    assert_eq!(find(Some("main")), Some(c2.to_string()));
    assert_eq!(find(Some("refs/tags/main")), Some(c1.to_string()));
    assert_eq!(find(Some("only-tag")), Some(c1.to_string()));
    assert_eq!(find(Some("neither")), None);
    assert_eq!(find(None), None);
    assert_eq!(
        local.last_commit_on_main().map(|commit| commit.to_string()),
        Some(c2.to_string())
    );
}

#[test]
fn searches_ask_in_order_and_stop_at_the_first_answer() {
    let names = |mut search: CommitSearch| {
        let mut asked = Vec::new();
        let mut step = search.step();
        while let SearchStep::Look { lookup } = step {
            asked.push(match lookup {
                Lookup::Object { id } => format!("object {id}"),
                Lookup::Reference { name } => format!("reference {name}"),
            });
            step = search.advance(Answer::Missing {
                message: "not there".to_string(),
            });
        }
        asked
    };
    assert_eq!(
        names(CommitSearch::new(None, Some("x"))),
        vec!["reference x", "reference refs/heads/x", "reference refs/tags/x"]
    );
    assert_eq!(
        names(CommitSearch::new(Some("ABC1"), Some("x"))),
        vec![
            format!("object abc1{}", "0".repeat(36)),
            "reference refs/tags/ABC1".to_string()
        ]
    );
    assert_eq!(
        names(CommitSearch::new(Some("v1"), None)),
        vec!["reference refs/tags/v1"]
    );
    assert_eq!(
        names(CommitSearch::main_branch()),
        vec!["reference refs/heads/main", "reference refs/heads/master"]
    );
    let mut search = CommitSearch::new(None, Some("x"));
    search.advance(Answer::Missing {
        message: "not there".to_string(),
    });
    let end = search.advance(Answer::Failed {
        message: "not a commit".to_string(),
    });
    assert!(matches!(&end, SearchStep::Failed { error } if error.to_string() == "not a commit"));
    assert!(main_commit(end).is_none());
}

#[test]
fn a_pinned_revision_that_is_missing_gets_the_first_reason() {
    let last = |mut search: CommitSearch| {
        let mut step = search.step();
        let mut asked = 0;
        while let SearchStep::Look { .. } = step {
            asked += 1;
            step = search.advance(Answer::Missing {
                message: format!("reason {asked}"),
            });
        }
        match step {
            SearchStep::Failed { error } => error.to_string(),
            SearchStep::NotFound => format!("not found after {asked}"),
            other => panic!("Unexpected end {:?}", other),
        }
    };
    assert_eq!(last(CommitSearch::new(Some("abc1"), None)), "reason 1");
    assert_eq!(
        last(CommitSearch::new(Some("v1"), Some("x"))),
        "unable to parse OID - contains invalid characters; class=Invalid (3)"
    );
    assert_eq!(last(CommitSearch::new(None, Some("x"))), "not found after 3");
    assert_eq!(last(CommitSearch::new(None, None)), "not found after 0");
    assert_eq!(last(CommitSearch::main_branch()), "not found after 2");
}

#[test]
fn the_distance_is_the_lead_of_test_over_prod() {
    let test = || Commit::from("a".repeat(40));
    let prod = || Commit::from("b".repeat(40));
    let commits = measured(test(), prod(), DistanceStep::Done { distance: -3 }).unwrap();
    match commits {
        LatestCommits::Distance {
            test: t,
            prod: p,
            distance,
        } => assert_eq!((t, p, distance), (test(), prod(), -3)),
        other => panic!("Expected Distance variant, got {:?}", other),
    }
    let error = GitError::NoCommits;
    let failed = measured(test(), prod(), DistanceStep::Failed { error });
    assert!(matches!(failed, Err(GitError::NoCommits)));

    let Resolution::Both { mut search } = resolve(Some(test()), Some(prod())) else {
        panic!("Both references exist");
    };
    search.advance(DistanceAnswer::Found);
    search.advance(DistanceAnswer::Found);
    search.advance(DistanceAnswer::Descends { descends: false });
    let step = search.advance(DistanceAnswer::Descends { descends: true });
    assert!(
        matches!(&step, DistanceStep::Count { ancestor, .. } if *ancestor == prod().to_string())
    );
    search.advance(DistanceAnswer::Count { count: 4 });
    match search.commits().unwrap() {
        LatestCommits::Distance {
            test: t,
            prod: p,
            distance,
        } => assert_eq!((t, p, distance), (test(), prod(), 4)),
        other => panic!("Expected Distance variant, got {:?}", other),
    }

    let tag = Commit::from("no hash");
    assert!(matches!(
        resolve(Some(test()), Some(tag)),
        Resolution::Failed { error: GitError::Conversion { .. } }
    ));
}

#[test]
fn commits_that_are_not_hashes_are_not_compared() {
    let good = Commit::from("a".repeat(40));
    for (bad, why) in [
        ("", "too short"),
        ("xyz", "contains invalid characters"),
        (&"a".repeat(41), "too long"),
        ("é", "contains invalid characters"),
        (&"é".repeat(20), "contains invalid characters"),
        (&"é".repeat(21), "too long"),
    ] {
        let error = DistanceSearch::new(&good, &Commit::from(bad)).unwrap_err();
        assert!(matches!(error, GitError::Conversion { .. }));
        assert_eq!(
            error.to_string(),
            format!("Commit conversion failed on {bad}")
        );
        assert_eq!(
            error.cause(),
            Some(format!("unable to parse OID - {why}; class=Invalid (3)"))
        );
        assert!(DistanceSearch::new(&Commit::from(bad), &good).is_err());
    }
    assert_eq!(
        Commit::from("0123456789abcdefABCDEF").oid().unwrap(),
        "0123456789abcdefabcdef000000000000000000"
    );
}

#[test]
fn distances_are_opposite_the_other_way_round() {
    let mut origin = Origin::new();
    let c1 = origin.add_commit();
    let _c2 = origin.add_commit();
    let c3 = origin.add_commit();
    let local = Local {
        repo: git2::Repository::open(origin.path()).unwrap(),
        _dir: tempfile::tempdir().unwrap(),
    };
    let first = Commit::from(c1.to_string());
    let third = Commit::from(c3.to_string());
    assert_eq!(local.distance(&third, &first).unwrap(), 2);
    assert_eq!(local.distance(&first, &third).unwrap(), -2);
    assert_eq!(local.distance(&first, &first).unwrap(), 0);
    let unknown = Commit::from("b".repeat(40));
    let said = local
        .repo
        .find_commit("b".repeat(40).parse().unwrap())
        .err()
        .unwrap();
    for (a, b) in [(&first, &unknown), (&unknown, &first)] {
        let error = local.distance(a, b).unwrap_err();
        assert_eq!(
            error.to_string(),
            format!("Failed to find commit {}", "b".repeat(40))
        );
        assert_eq!(error.cause(), Some(said.to_string()));
    }
    assert_eq!(local.distance(&unknown, &unknown).unwrap(), 0);
}

#[test]
fn a_sync_points_the_remote_deletes_the_tags_and_fetches() {
    let flake = FlakeRef {
        type_: FlakeType::GitHub,
        repo: "o/r".to_string(),
        ref_: None,
        rev: None,
        host: None,
    };
    let steps = |exists: bool| {
        let mut sync = RepoSync::new(&flake).unwrap();
        let mut done = Vec::new();
        loop {
            let step = sync.step();
            let event = match &step {
                SyncStep::FindRemote { .. } => SyncEvent::RemoteFound { exists },
                SyncStep::ListTags => SyncEvent::Tags {
                    names: vec![Some("a".to_string()), None, Some("b".to_string())],
                },
                SyncStep::Done => return done,
                _ => SyncEvent::Carried,
            };
            done.push(format!("{:?}", step));
            sync = sync.advance(event).unwrap();
        }
    };
    let url = "https://github.com/o/r.git";
    let set = format!("SetUrl {{ remote: \"origin\", url: \"{url}\" }}");
    let create = format!("CreateRemote {{ remote: \"origin\", url: \"{url}\" }}");
    for (exists, remote) in [(true, set), (false, create)] {
        assert_eq!(
            steps(exists),
            vec![
                "FindRemote { remote: \"origin\" }",
                remote.as_str(),
                "ListTags",
                "DeleteTag { tag: \"a\" }",
                "DeleteTag { tag: \"b\" }",
                "Fetch { remote: \"origin\", refspec: \"+refs/*:refs/*\" }",
            ]
        );
    }
}

#[test]
fn a_sync_that_fails_says_where() {
    let flake = |type_: FlakeType| FlakeRef {
        type_,
        repo: "/no/such/repository".to_string(),
        ref_: None,
        rev: None,
        host: None,
    };
    let error = RepoSync::new(&flake(FlakeType::Path)).unwrap_err();
    assert_eq!(
        error.to_string(),
        "path type is not compatible with git fetch"
    );
    let error = Local::new().sync(&flake(FlakeType::GitFile)).unwrap_err();
    assert_eq!(
        error.to_string(),
        "Failed to fetch from remote url: file:///no/such/repository"
    );
    assert!(error.cause().unwrap().contains("/no/such/repository"));
    let mut sync = RepoSync::new(&flake(FlakeType::GitFile)).unwrap();
    while !matches!(sync.step(), SyncStep::Fetch { .. }) {
        let event = match sync.step() {
            SyncStep::FindRemote { .. } => SyncEvent::RemoteFound { exists: true },
            SyncStep::ListTags => SyncEvent::Tags { names: vec![] },
            _ => SyncEvent::Carried,
        };
        sync = sync.advance(event).unwrap();
    }
    let error = sync
        .advance(SyncEvent::Failed {
            message: "timed out".to_string(),
        })
        .unwrap_err();
    assert_eq!(error.cause(), Some("timed out".to_string()));
    let sync = RepoSync::new(&flake(FlakeType::GitFile)).unwrap();
    let sync = sync.advance(SyncEvent::RemoteFound { exists: true }).unwrap();
    let error = sync
        .advance(SyncEvent::Failed {
            message: "disk full".to_string(),
        })
        .unwrap_err();
    assert_eq!(error.to_string(), "disk full");
}

/// A daemon with its repository, and a nix that fails where told to.
struct Running {
    config: Config,
    local: Local,
    saved: Option<Deployments>,
    test_fails: bool,
    waits: Vec<u64>,
    paths: Vec<String>,
    deployed: Vec<String>,
    ended: Vec<String>,
    labels: Vec<String>,
    daemon: Option<(Daemon, PollStep)>,
}

impl Running {
    fn new(config: Config) -> Running {
        let started = Daemon::new(&config);
        Running {
            config,
            local: Local::new(),
            saved: None,
            test_fails: false,
            waits: Vec::new(),
            paths: Vec::new(),
            deployed: Vec::new(),
            ended: Vec::new(),
            labels: Vec::new(),
            daemon: Some(started),
        }
    }

    fn record(&mut self, labels: Option<Vec<pullix::metrics::Label>>) {
        if let Some(labels) = labels {
            let text: Vec<String> = labels
                .iter()
                .map(|label| format!("{}={}", label.key, label.value))
                .collect();
            self.labels.push(text.join(" "));
        }
    }

    /// One poll, which takes `elapsed` seconds; what was deployed is returned.
    fn poll(&mut self, elapsed: u64) -> Vec<String> {
        self.deployed.clear();
        let (mut daemon, mut step) = self.daemon.take().unwrap();
        loop {
            let event = match step {
                PollStep::Sleep { seconds } => {
                    self.waits.push(seconds);
                    PollEvent::Awake
                }
                PollStep::Load { path } => {
                    self.paths.push(path);
                    PollEvent::Loaded {
                        saved: self.saved.take(),
                    }
                }
                PollStep::Sync => PollEvent::Synced {
                    commits: self.local.sync_and_get_commits(&self.config).unwrap(),
                },
                PollStep::FindMain => PollEvent::MainFound {
                    commit: self.local.last_commit_on_main(),
                },
                PollStep::Deploy { readings, order } => {
                    self.record(readings.remote);
                    self.record(readings.last);
                    let rev = order.flake_ref.rev.clone().unwrap();
                    let environment = match order.environment {
                        Environment::Test => "test",
                        Environment::Prod => "prod",
                    };
                    self.deployed.push(format!("{environment} {rev}"));
                    let fails = self.test_fails && order.environment == Environment::Test;
                    PollEvent::Deployed {
                        result: if fails {
                            Err(NixCommandError::to_execution("Simulated deployment failure"))
                        } else {
                            Ok(())
                        },
                    }
                }
                PollStep::Save { saving } => {
                    self.paths.push(saving.path);
                    if let Some(error) = saving.report {
                        self.ended.push(error.to_string());
                    }
                    self.saved = Some(Deployments {
                        history: daemon.history().unwrap().history.clone(),
                    });
                    PollEvent::Saved
                }
                PollStep::Close {
                    readings,
                    deployed,
                    after,
                } => {
                    self.record(readings.remote);
                    self.record(readings.last);
                    self.record(after);
                    self.ended.push(match deployed {
                        None => "nothing".to_string(),
                        Some(Deployed::Init) => "init".to_string(),
                        Some(Deployed::TestAligned(_)) => "test".to_string(),
                        Some(Deployed::ProdAligned(_)) => "prod".to_string(),
                        Some(Deployed::TestFailed(_)) => "test failed".to_string(),
                        Some(Deployed::ProdFailed(_)) => "prod failed".to_string(),
                    });
                    self.daemon = Some(daemon.advance(
                        &self.config,
                        PollEvent::Closed {
                            elapsed_secs: elapsed,
                        },
                    ));
                    return self.deployed.clone();
                }
                PollStep::Stop { message } => panic!("The daemon has ended: {message}"),
            };
            let next = daemon.advance(&self.config, event);
            daemon = next.0;
            step = next.1;
        }
    }
}

#[test]
fn test_start_with_prod_then_test() {
    let mut origin = Origin::new();
    let _c0 = origin.add_commit();
    let c1 = origin.add_commit();
    origin.add_tag("prod", c1);
    let mut running = Running::new(tags_config(&origin));
    assert_eq!(running.poll(0), vec![format!("prod {c1}")]);
    let c2 = origin.add_commit();
    origin.add_tag("test", c2);
    assert_eq!(running.poll(0), vec![format!("test {c2}")]);
}

#[test]
fn test_hm_config_start_with_prod_then_test() {
    let mut origin = Origin::new();
    let _c0 = origin.add_commit();
    let c1 = origin.add_commit();
    origin.add_tag("prod", c1);
    let mut config = tags_config(&origin);
    config.home_manager = Some(HomeManagerConfig {
        username: "foo".to_string(),
        package: "".to_string(),
    });
    let mut running = Running::new(config);
    assert_eq!(running.poll(0), vec![format!("prod {c1}")]);
    let c2 = origin.add_commit();
    origin.add_tag("test", c2);
    assert_eq!(running.poll(0), vec![format!("test {c2}")]);
    for path in &running.paths {
        assert_eq!(path, "/srv/pullix/home_manager_deployments.json");
    }
}

#[test]
fn test_start_with_test_then_prod() {
    let mut origin = Origin::new();
    let _c0 = origin.add_commit();
    let c1 = origin.add_commit();
    origin.add_tag("test", c1);
    let mut running = Running::new(tags_config(&origin));
    assert_eq!(running.poll(0), vec![format!("test {c1}")]);
    let c2 = origin.add_commit();
    origin.add_tag("prod", c2);
    assert_eq!(running.poll(0), vec![format!("prod {c2}")]);
}

#[test]
fn test_start_with_no_tags() {
    let mut origin = Origin::new();
    let _c0 = origin.add_commit();
    let c1 = origin.add_commit();
    let mut running = Running::new(tags_config(&origin));
    origin.add_tag("prod", c1);
    assert_eq!(running.poll(0), vec![format!("prod {c1}")]);
    let c2 = origin.add_commit();
    origin.add_tag("test", c2);
    assert_eq!(running.poll(0), vec![format!("test {c2}")]);
}

#[test]
fn test_start_with_prod_then_test_then_update_prod() {
    let mut origin = Origin::new();
    let _c0 = origin.add_commit();
    let c1 = origin.add_commit();
    origin.add_tag("prod", c1);
    let mut running = Running::new(tags_config(&origin));
    assert_eq!(running.poll(0), vec![format!("prod {c1}")]);
    let c2 = origin.add_commit();
    origin.add_tag("test", c2);
    assert_eq!(running.poll(0), vec![format!("test {c2}")]);
    let c3 = origin.add_commit();
    origin.move_tag("prod", c3);
    assert_eq!(
        running.poll(0),
        vec![format!("prod {c3}")],
        "prod deployment should use the updated commit"
    );
}

#[test]
fn test_failed_test_not_retried_then_updated_test_succeeds() {
    let mut origin = Origin::new();
    let _c0 = origin.add_commit();
    let c1 = origin.add_commit();
    origin.add_tag("prod", c1);
    let mut running = Running::new(tags_config(&origin));
    running.test_fails = true;
    assert_eq!(running.poll(0), vec![format!("prod {c1}")]);
    let c2 = origin.add_commit();
    origin.add_tag("test", c2);
    assert_eq!(running.poll(0), vec![format!("test {c2}")]);
    assert_eq!(
        running.ended,
        vec![
            "prod",
            "Execution failed: Simulated deployment failure",
            "test failed"
        ],
        "test deployment should have failed"
    );
    assert!(
        running.poll(0).is_empty(),
        "failed commit should not be retried"
    );
    let c3 = origin.add_commit();
    origin.move_tag("test", c3);
    running.test_fails = false;
    assert_eq!(
        running.poll(0),
        vec![format!("test {c3}")],
        "test deployment should use the updated commit C3"
    );
    assert_eq!(running.ended.last().unwrap(), "test");
}

#[test]
fn test_deploy_to_prod_when_test_deployed_and_prod_rebased_on_test() {
    let mut origin = Origin::new();
    let _c0 = origin.add_commit();
    let c1 = origin.add_commit();
    origin.add_tag("test", c1);
    let mut running = Running::new(tags_config(&origin));
    assert_eq!(running.poll(0), vec![format!("test {c1}")]);
    origin.add_tag("prod", c1);
    assert_eq!(
        running.poll(0),
        vec![format!("prod {c1}")],
        "prod deployment should use the same commit as test"
    );
}

#[test]
fn test_deploy_nothing_when_prod_deployed_and_test_rebased_on_prod() {
    let mut origin = Origin::new();
    let _c0 = origin.add_commit();
    let c1 = origin.add_commit();
    origin.add_tag("prod", c1);
    let mut running = Running::new(tags_config(&origin));
    assert_eq!(running.poll(0), vec![format!("prod {c1}")]);
    origin.add_tag("test", c1);
    assert!(
        running.poll(0).is_empty(),
        "neither test nor prod should be deployed"
    );
}

#[test]
fn a_daemon_that_starts_again_knows_what_it_has_done() {
    let mut origin = Origin::new();
    let c1 = origin.add_commit();
    origin.add_tag("prod", c1);
    let mut running = Running::new(tags_config(&origin));
    assert_eq!(running.poll(0), vec![format!("prod {c1}")]);
    let mut again = Running::new(tags_config(&origin));
    again.saved = running.saved.take();
    assert!(again.poll(0).is_empty());
    assert_eq!(again.ended, vec!["nothing"]);
    assert_eq!(
        again.paths,
        vec!["/srv/pullix/state.json".to_string()]
    );
}

#[test]
fn the_metrics_follow_the_poll() {
    let mut origin = Origin::new();
    let c1 = origin.add_commit();
    origin.add_tag("prod", c1);
    let mut running = Running::new(tags_config(&origin));
    running.poll(0);
    let remote = format!(
        "main_commit={c1} prod_commit={c1} test_commit=unknown deployment_type=NixOS"
    );
    let last = format!("deployed=prod commit={c1} deployment_type=NixOS");
    assert_eq!(running.labels, vec![remote.clone(), last.clone()]);
    running.poll(0);
    assert_eq!(
        running.labels,
        vec![remote.clone(), last.clone(), remote, last]
    );
}

#[test]
fn polls_are_an_interval_apart() {
    let mut origin = Origin::new();
    let c1 = origin.add_commit();
    origin.add_tag("prod", c1);
    let mut running = Running::new(tags_config(&origin));
    for elapsed in [0, 1, 59, 60, 61, u64::MAX, 0] {
        running.poll(elapsed);
    }
    assert_eq!(running.waits, vec![0, 60, 59, 1, 0, 0, 0]);
}

#[test]
fn a_failure_ends_the_daemon_with_its_error() {
    let origin = Origin::new();
    let config = tags_config(&origin);
    let failed = || PollEvent::Failed {
        message: "disk full".to_string(),
    };
    let before: [&dyn Fn() -> Vec<PollEvent>; 4] = [
        &|| vec![PollEvent::Awake],
        &|| vec![PollEvent::Awake, PollEvent::Loaded { saved: None }],
        &|| {
            vec![
                PollEvent::Awake,
                PollEvent::Loaded { saved: None },
                PollEvent::Synced {
                    commits: LatestCommits::Prod(Commit::from("abc")),
                },
                PollEvent::MainFound { commit: None },
                PollEvent::Deployed { result: Ok(()) },
            ]
        },
        &|| {
            vec![
                PollEvent::Awake,
                PollEvent::Loaded { saved: None },
                PollEvent::Synced {
                    commits: LatestCommits::Prod(Commit::from("abc")),
                },
                PollEvent::MainFound { commit: None },
                PollEvent::Deployed {
                    result: Err(NixCommandError::to_execution("no nix")),
                },
                PollEvent::Saved,
            ]
        },
    ];
    for events in before {
        let (mut daemon, mut step) = Daemon::new(&config);
        for event in events() {
            let next = daemon.advance(&config, event);
            daemon = next.0;
            step = next.1;
            assert!(!matches!(step, PollStep::Stop { .. }));
        }
        let (ended, last) = daemon.advance(&config, failed());
        assert!(matches!(last, PollStep::Stop { message } if message == "disk full"));
        assert!(matches!(ended.state, PollState::Ended));
        assert!(ended.history().is_none());
        drop(step);
    }
}
