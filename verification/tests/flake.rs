use pullix::config::{ConfigFlake, UrlSpecConfig};
use pullix::flake::{FlakeError, FlakeRef, FlakeType};
use pullix::git::Commit;

const KINDS: [FlakeType; 13] = [
    FlakeType::Git,
    FlakeType::GitHttp,
    FlakeType::GitHttps,
    FlakeType::GitSsh,
    FlakeType::GitFile,
    FlakeType::GitHub,
    FlakeType::GitLab,
    FlakeType::SourceHut,
    FlakeType::Mercurial,
    FlakeType::Tarball,
    FlakeType::File,
    FlakeType::Path,
    FlakeType::Indirect,
];

fn flake(type_: FlakeType, repo: &str, host: Option<&str>) -> FlakeRef {
    FlakeRef {
        type_,
        repo: repo.to_string(),
        ref_: None,
        rev: None,
        host: host.map(|h| h.to_string()),
    }
}

fn fetch_url(type_: FlakeType, repo: &str) -> String {
    flake(type_, repo, None).to_git_fetch_url().unwrap()
}

fn flake_url(type_: FlakeType, repo: &str) -> String {
    flake(type_, repo, None).to_flake_url().unwrap()
}

#[test]
fn test_flake_type_from_str() {
    assert_eq!(FlakeType::from_str("git").unwrap(), FlakeType::Git);
    assert_eq!(FlakeType::from_str("git+http").unwrap(), FlakeType::GitHttp);
    assert_eq!(
        FlakeType::from_str("git+https").unwrap(),
        FlakeType::GitHttps
    );
    assert_eq!(FlakeType::from_str("git+ssh").unwrap(), FlakeType::GitSsh);
    assert_eq!(FlakeType::from_str("git+file").unwrap(), FlakeType::GitFile);
    assert_eq!(FlakeType::from_str("github").unwrap(), FlakeType::GitHub);
    assert_eq!(FlakeType::from_str("gitlab").unwrap(), FlakeType::GitLab);
    assert_eq!(
        FlakeType::from_str("sourcehut").unwrap(),
        FlakeType::SourceHut
    );
    assert_eq!(
        FlakeType::from_str("git+sourcehut").unwrap(),
        FlakeType::SourceHut
    );
    assert_eq!(FlakeType::from_str("hg").unwrap(), FlakeType::Mercurial);
    assert_eq!(FlakeType::from_str("tarball").unwrap(), FlakeType::Tarball);
    assert_eq!(FlakeType::from_str("file").unwrap(), FlakeType::File);
    assert_eq!(FlakeType::from_str("path").unwrap(), FlakeType::Path);
    assert_eq!(
        FlakeType::from_str("indirect").unwrap(),
        FlakeType::Indirect
    );
}

#[test]
fn test_flake_type_from_str_invalid() {
    assert!(FlakeType::from_str("invalid").is_err());
    assert!(FlakeType::from_str("").is_err());
    assert!(FlakeType::from_str("GIT").is_err()); // Case sensitive
}

#[test]
fn test_flake_type_display() {
    assert_eq!(FlakeType::Git.to_string(), "git");
    assert_eq!(FlakeType::GitHub.to_string(), "github");
    assert_eq!(FlakeType::GitSsh.to_string(), "git+ssh");
}

#[test]
fn test_flake_url_github_basic() {
    let flake = FlakeRef {
        type_: FlakeType::GitHub,
        repo: "NixOS/nixpkgs".to_string(),
        ref_: None,
        rev: None,
        host: None,
    };

    assert_eq!(flake.to_flake_url().unwrap(), "github:NixOS/nixpkgs");
}

#[test]
fn test_flake_url_github_with_ref() {
    let flake = FlakeRef {
        type_: FlakeType::GitHub,
        repo: "NixOS/nixpkgs".to_string(),
        ref_: Some("nixos-unstable".to_string()),
        rev: None,
        host: None,
    };

    assert_eq!(
        flake.to_flake_url().unwrap(),
        "github:NixOS/nixpkgs?ref=nixos-unstable"
    );
}

#[test]
fn test_flake_url_github_with_rev() {
    let flake = FlakeRef {
        type_: FlakeType::GitHub,
        repo: "NixOS/nixpkgs".to_string(),
        ref_: None,
        rev: Some("abc123def456".to_string()),
        host: None,
    };

    assert_eq!(
        flake.to_flake_url().unwrap(),
        "github:NixOS/nixpkgs?rev=abc123def456"
    );
}

#[test]
fn test_flake_url_github_custom_host() {
    let flake = FlakeRef {
        type_: FlakeType::GitHub,
        repo: "org/repo".to_string(),
        ref_: Some("main".to_string()),
        rev: None,
        host: Some("github.enterprise.com".to_string()),
    };

    assert_eq!(
        flake.to_flake_url().unwrap(),
        "git+https://github.enterprise.com/org/repo.git?ref=main"
    );
}

#[test]
fn test_flake_url_gitlab_basic() {
    let flake = FlakeRef {
        type_: FlakeType::GitLab,
        repo: "gitlab-org/gitlab".to_string(),
        ref_: None,
        rev: None,
        host: None,
    };

    assert_eq!(flake.to_flake_url().unwrap(), "gitlab:gitlab-org/gitlab");
}

#[test]
fn test_flake_url_gitlab_with_rev() {
    let flake = FlakeRef {
        type_: FlakeType::GitLab,
        repo: "gitlab-org/gitlab".to_string(),
        ref_: None,
        rev: Some("v15.0.0".to_string()),
        host: None,
    };

    assert_eq!(
        flake.to_flake_url().unwrap(),
        "gitlab:gitlab-org/gitlab?rev=v15.0.0"
    );
}

#[test]
fn test_flake_url_git_file_absolute_path() {
    let flake = FlakeRef {
        type_: FlakeType::GitFile,
        repo: "/tmp/test-flake".to_string(),
        ref_: None,
        rev: Some("prod-v1".to_string()),
        host: None,
    };

    assert_eq!(
        flake.to_flake_url().unwrap(),
        "git+file:///tmp/test-flake?rev=prod-v1"
    );
}

#[test]
fn test_flake_url_git_file_with_file_prefix() {
    let flake = FlakeRef {
        type_: FlakeType::GitFile,
        repo: "file:///home/user/repo".to_string(),
        ref_: Some("main".to_string()),
        rev: None,
        host: None,
    };

    assert_eq!(
        flake.to_flake_url().unwrap(),
        "git+file:///home/user/repo?ref=main"
    );
}

#[test]
fn test_flake_url_git_https() {
    let flake = FlakeRef {
        type_: FlakeType::GitHttps,
        repo: "https://git.example.com/repo.git".to_string(),
        ref_: Some("develop".to_string()),
        rev: None,
        host: None,
    };

    assert_eq!(
        flake.to_flake_url().unwrap(),
        "git+https://git.example.com/repo.git?ref=develop"
    );
}

#[test]
fn test_flake_url_git_ssh() {
    let flake = FlakeRef {
        type_: FlakeType::GitSsh,
        repo: "git@github.com:user/repo.git".to_string(),
        ref_: None,
        rev: Some("abc123".to_string()),
        host: None,
    };

    assert_eq!(
        flake.to_flake_url().unwrap(),
        "git+ssh://git@github.com:user/repo.git?rev=abc123"
    );
}

#[test]
fn test_flake_url_path() {
    let flake = FlakeRef {
        type_: FlakeType::Path,
        repo: "/etc/nixos".to_string(),
        ref_: None,
        rev: None,
        host: None,
    };

    assert_eq!(flake.to_flake_url().unwrap(), "path:/etc/nixos");
}

#[test]
fn test_flake_url_sourcehut() {
    let flake = FlakeRef {
        type_: FlakeType::SourceHut,
        repo: "~user/myrepo".to_string(),
        ref_: Some("main".to_string()),
        rev: None,
        host: None,
    };

    assert_eq!(
        flake.to_flake_url().unwrap(),
        "git+https://git.sr.ht/~user/myrepo?ref=main"
    );
}

#[test]
fn test_flake_url_unsupported_types() {
    let mercurial = FlakeRef {
        type_: FlakeType::Mercurial,
        repo: "https://hg.example.com/repo".to_string(),
        ref_: None,
        rev: None,
        host: None,
    };
    assert!(mercurial.to_flake_url().is_err());

    let tarball = FlakeRef {
        type_: FlakeType::Tarball,
        repo: "https://example.com/archive.tar.gz".to_string(),
        ref_: None,
        rev: None,
        host: None,
    };
    assert!(tarball.to_flake_url().is_err());

    let indirect = FlakeRef {
        type_: FlakeType::Indirect,
        repo: "nixpkgs".to_string(),
        ref_: None,
        rev: None,
        host: None,
    };
    assert!(indirect.to_flake_url().is_err());
}

#[test]
fn every_name_of_a_kind_is_read() {
    let names = [
        ("hg", FlakeType::Mercurial),
        ("hg+http", FlakeType::Mercurial),
        ("hg+https", FlakeType::Mercurial),
        ("hg+ssh", FlakeType::Mercurial),
        ("hg+file", FlakeType::Mercurial),
        ("tarball+http", FlakeType::Tarball),
        ("tarball+https", FlakeType::Tarball),
        ("tarball+file", FlakeType::Tarball),
    ];
    for (name, kind) in names {
        assert_eq!(FlakeType::from_str(name).unwrap(), kind);
    }
}

#[test]
fn shown_names_are_read_back_but_for_mercurial() {
    for kind in KINDS {
        let read = FlakeType::from_str(&kind.to_string());
        if kind == FlakeType::Mercurial {
            assert!(read.is_err());
        } else {
            assert_eq!(read.unwrap(), kind);
        }
    }
}

#[test]
fn an_unknown_kind_is_named_in_the_error() {
    let error = FlakeType::from_str("svn").unwrap_err();
    assert!(matches!(error, FlakeError::UnknownType { .. }));
    assert_eq!(error.to_string(), "Unknown flake type: svn");
}

#[test]
fn plain_git_repositories_are_fetched_under_their_scheme() {
    assert_eq!(fetch_url(FlakeType::Git, "anything at all"), "anything at all");
    assert_eq!(fetch_url(FlakeType::GitHttp, "host/r.git"), "http://host/r.git");
    assert_eq!(fetch_url(FlakeType::GitHttp, "http://host/r"), "http://host/r");
    assert_eq!(fetch_url(FlakeType::GitHttps, "host/r.git"), "https://host/r.git");
    assert_eq!(fetch_url(FlakeType::GitHttps, "https://host/r"), "https://host/r");
    assert_eq!(fetch_url(FlakeType::GitSsh, "host/r.git"), "ssh://host/r.git");
    assert_eq!(fetch_url(FlakeType::GitSsh, "ssh://host/r"), "ssh://host/r");
    assert_eq!(fetch_url(FlakeType::GitSsh, "git@host:r.git"), "git@host:r.git");
    assert_eq!(fetch_url(FlakeType::GitFile, "/srv/r"), "file:///srv/r");
    assert_eq!(fetch_url(FlakeType::GitFile, "file:///srv/r"), "file:///srv/r");
}

#[test]
fn hosted_repositories_are_fetched_over_https() {
    assert_eq!(fetch_url(FlakeType::GitHub, "o/r"), "https://github.com/o/r.git");
    assert_eq!(fetch_url(FlakeType::GitLab, "o/r"), "https://gitlab.com/o/r.git");
    assert_eq!(fetch_url(FlakeType::SourceHut, "~o/r"), "https://git.sr.ht/~o/r");
    for (kind, url) in [
        (FlakeType::GitHub, "https://git.example.org/o/r.git"),
        (FlakeType::GitLab, "https://git.example.org/o/r.git"),
        (FlakeType::SourceHut, "https://git.example.org/o/r"),
    ] {
        let hosted = flake(kind, "o/r", Some("git.example.org"));
        assert_eq!(hosted.to_git_fetch_url().unwrap(), url);
    }
}

#[test]
fn other_kinds_are_not_fetched() {
    let messages = [
        (
            FlakeType::Mercurial,
            "Mercurial repositories are not compatible with git fetch",
        ),
        (FlakeType::Tarball, "tarball type is not compatible with git fetch"),
        (FlakeType::File, "file type is not compatible with git fetch"),
        (FlakeType::Path, "path type is not compatible with git fetch"),
        (
            FlakeType::Indirect,
            "Indirect flake references must be resolved first",
        ),
    ];
    for (kind, message) in messages {
        let error = flake(kind, "r", None).to_git_fetch_url().unwrap_err();
        assert_eq!(error.to_string(), message);
    }
}

#[test]
fn only_plain_git_has_a_base_url() {
    assert_eq!(
        flake(FlakeType::GitHttps, "h/r", None).get_base_url().unwrap(),
        "https://h/r"
    );
    let error = flake(FlakeType::GitHub, "o/r", None).get_base_url().unwrap_err();
    assert_eq!(error.to_string(), "Cannot get base URL for type github");
}

#[test]
fn flake_urls_of_plain_git() {
    assert_eq!(flake_url(FlakeType::Git, "ssh://h/r"), "git+ssh://h/r");
    assert_eq!(flake_url(FlakeType::GitHttp, "h/r"), "git+http://h/r");
    assert_eq!(flake_url(FlakeType::GitHttps, "h/r"), "git+https://h/r");
    assert_eq!(flake_url(FlakeType::GitSsh, "h/r"), "git+ssh://h/r");
    assert_eq!(flake_url(FlakeType::GitSsh, "ssh://h/r"), "git+ssh://h/r");
    assert_eq!(flake_url(FlakeType::GitSsh, "ssh://ssh://h/r"), "git+ssh://h/r");
    assert_eq!(flake_url(FlakeType::GitFile, "srv/r"), "git+file:///srv/r");
}

#[test]
fn flake_urls_of_own_hosts() {
    for kind in [FlakeType::GitHub, FlakeType::GitLab] {
        assert_eq!(
            flake(kind, "o/r", Some("git.example.org")).to_flake_url().unwrap(),
            "git+https://git.example.org/o/r.git"
        );
    }
    assert_eq!(
        flake(FlakeType::SourceHut, "~o/r", Some("sr.example.org"))
            .to_flake_url()
            .unwrap(),
        "git+https://sr.example.org/~o/r"
    );
}

#[test]
fn a_kind_that_is_not_built_is_named_in_the_error() {
    let error = flake(FlakeType::File, "r", None).to_flake_url().unwrap_err();
    assert_eq!(
        error.to_string(),
        "file type is not supported for nixos-rebuild --flake"
    );
}

#[test]
fn whatever_is_fetched_is_built_and_paths_too() {
    for kind in KINDS {
        let fetched = flake(kind, "r", None).to_git_fetch_url().is_ok();
        let built = flake(kind, "r", None).to_flake_url().is_ok();
        assert_eq!(built, fetched || kind == FlakeType::Path);
    }
}

#[test]
fn a_pinned_commit_decides_what_is_built() {
    let mut pinned = flake(FlakeType::GitHub, "o/r", None);
    pinned.ref_ = Some("main".to_string());
    let before = pinned.to_git_fetch_url().unwrap();
    pinned.update_rev(&Commit::from("abc"));
    assert_eq!(pinned.to_flake_url().unwrap(), "github:o/r?rev=abc");
    assert_eq!(pinned.to_git_fetch_url().unwrap(), before);
    assert_eq!(pinned.ref_.as_deref(), Some("main"));
    pinned.update_rev(&Commit::from("def"));
    assert_eq!(pinned.to_flake_url().unwrap(), "github:o/r?rev=def");
}

#[test]
fn two_environments_of_one_repository() {
    let config = ConfigFlake {
        type_: FlakeType::GitLab,
        repo: "o/r".to_string(),
        host: Some("git.example.org".to_string()),
        prod_spec: Some(UrlSpecConfig {
            ref_: Some("prod".to_string()),
            rev: None,
        }),
        test_spec: Some(UrlSpecConfig {
            ref_: None,
            rev: Some("v1".to_string()),
        }),
    };
    let (test, prod) = FlakeRef::from_config(&config);
    assert_eq!(test.rev.as_deref(), Some("v1"));
    assert_eq!(test.ref_, None);
    assert_eq!(prod.ref_.as_deref(), Some("prod"));
    assert_eq!(prod.rev, None);
    assert_eq!(
        test.to_git_fetch_url().unwrap(),
        prod.to_git_fetch_url().unwrap()
    );
    assert_eq!(
        prod.to_flake_url().unwrap(),
        "git+https://git.example.org/o/r.git?ref=prod"
    );
}

#[test]
fn an_environment_that_is_not_configured_follows_nothing() {
    let config = ConfigFlake {
        type_: FlakeType::GitHub,
        repo: "o/r".to_string(),
        host: None,
        prod_spec: None,
        test_spec: None,
    };
    let (test, prod) = FlakeRef::from_config(&config);
    for environment in [test, prod] {
        assert_eq!(environment.ref_, None);
        assert_eq!(environment.rev, None);
        assert_eq!(environment.to_flake_url().unwrap(), "github:o/r");
    }
}
