//! Flake references: their kinds, and the URLs under which git fetches them
//! and nix builds them.

use vstd::prelude::*;

use crate::config::{ConfigFlake, UrlSpecConfig};
use crate::git::Commit;
use crate::text::{
    begins_with, contains_char, joined, lemma_prefixes_are_taken_off, optional_text, same_text,
    strip_prefixes, without_prefixes,
};

verus! {

/// The kinds of flake reference.
#[derive(Debug, Clone, Copy, PartialEq, Eq, Structural)]
pub enum FlakeType {
    Git,
    GitHttp,
    GitHttps,
    GitSsh,
    GitFile,
    GitHub,
    GitLab,
    SourceHut,
    Mercurial,
    Tarball,
    File,
    Path,
    Indirect,
}

/// Why a flake reference has no answer.
#[derive(Debug)]
pub enum FlakeError {
    /// The name is no kind of flake reference.
    UnknownType { name: String },
    /// Git does not fetch from Mercurial.
    MercurialFetch,
    /// Git does not fetch this kind.
    NotFetchable { type_: FlakeType },
    /// An indirect reference names no repository.
    IndirectFetch,
    /// This kind has no URL of its own.
    NoBaseUrl { type_: FlakeType },
    /// This kind cannot be built as a system flake.
    NotBuildable { type_: FlakeType },
}

impl FlakeError {
    /// What is reported to the operator.
    pub open spec fn text(self) -> Seq<char> {
        match self {
            FlakeError::UnknownType { name } => "Unknown flake type: "@ + name@,
            FlakeError::MercurialFetch =>
                "Mercurial repositories are not compatible with git fetch"@,
            FlakeError::NotFetchable { type_ } => flake_type_name(type_)
                + " type is not compatible with git fetch"@,
            FlakeError::IndirectFetch => "Indirect flake references must be resolved first"@,
            FlakeError::NoBaseUrl { type_ } => "Cannot get base URL for type "@
                + flake_type_name(type_),
            FlakeError::NotBuildable { type_ } => flake_type_name(type_)
                + " type is not supported for nixos-rebuild --flake"@,
        }
    }

    /// What is reported to the operator.
    pub fn to_string(&self) -> (message: String)
        ensures
            message@ == self.text(),
    {
        match self {
            FlakeError::UnknownType { name } => joined("Unknown flake type: ", name.as_str()),
            FlakeError::MercurialFetch =>
                "Mercurial repositories are not compatible with git fetch".to_owned(),
            FlakeError::NotFetchable { type_ } => joined(
                type_.to_string().as_str(),
                " type is not compatible with git fetch",
            ),
            FlakeError::IndirectFetch =>
                "Indirect flake references must be resolved first".to_owned(),
            FlakeError::NoBaseUrl { type_ } => joined(
                "Cannot get base URL for type ",
                type_.to_string().as_str(),
            ),
            FlakeError::NotBuildable { type_ } => joined(
                type_.to_string().as_str(),
                " type is not supported for nixos-rebuild --flake",
            ),
        }
    }
}

/// The name under which a kind is shown.
pub open spec fn flake_type_name(type_: FlakeType) -> Seq<char> {
    match type_ {
        FlakeType::Git => "git"@,
        FlakeType::GitHttp => "git+http"@,
        FlakeType::GitHttps => "git+https"@,
        FlakeType::GitSsh => "git+ssh"@,
        FlakeType::GitFile => "git+file"@,
        FlakeType::GitHub => "github"@,
        FlakeType::GitLab => "gitlab"@,
        FlakeType::SourceHut => "sourcehut"@,
        FlakeType::Mercurial => "mercurial"@,
        FlakeType::Tarball => "tarball"@,
        FlakeType::File => "file"@,
        FlakeType::Path => "path"@,
        FlakeType::Indirect => "indirect"@,
    }
}

/// The names that are read as a kind.
pub open spec fn reads_as(name: Seq<char>, type_: FlakeType) -> bool {
    match type_ {
        FlakeType::SourceHut => name == "sourcehut"@ || name == "git+sourcehut"@,
        FlakeType::Mercurial => {
            ||| name == "hg"@
            ||| name == "hg+http"@
            ||| name == "hg+https"@
            ||| name == "hg+ssh"@
            ||| name == "hg+file"@
        },
        FlakeType::Tarball => {
            ||| name == "tarball"@
            ||| name == "tarball+http"@
            ||| name == "tarball+https"@
            ||| name == "tarball+file"@
        },
        _ => name == flake_type_name(type_),
    }
}

/// Every name is read as one kind at most.
pub proof fn lemma_names_are_unambiguous(name: Seq<char>, a: FlakeType, b: FlakeType)
    requires
        reads_as(name, a),
        reads_as(name, b),
    ensures
        a == b,
{
    lemma_letters_of_names();
}

/// The name that a kind is shown under is read back as that kind, except for
/// Mercurial, whose shown name is not read at all.
pub proof fn lemma_shown_name_is_read_back(type_: FlakeType)
    ensures
        reads_as(flake_type_name(type_), type_) <==> type_ != FlakeType::Mercurial,
        type_ == FlakeType::Mercurial ==> forall|other: FlakeType|
            !reads_as(flake_type_name(type_), other),
{
    lemma_letters_of_names();
}

/// The length of every name, and a letter that tells it from the others.
proof fn lemma_letters_of_names()
    ensures
        "git"@.len() == 3 && "git"@[1] == 'i',
        "git+http"@.len() == 8 && "git+http"@[4] == 'h',
        "git+https"@.len() == 9 && "git+https"@[4] == 'h',
        "git+ssh"@.len() == 7 && "git+ssh"@[4] == 's',
        "git+file"@.len() == 8 && "git+file"@[4] == 'f',
        "github"@.len() == 6 && "github"@[4] == 'u',
        "gitlab"@.len() == 6 && "gitlab"@[4] == 'a',
        "sourcehut"@.len() == 9 && "sourcehut"@[4] == 'c',
        "git+sourcehut"@.len() == 13 && "git+sourcehut"@[4] == 's',
        "hg"@.len() == 2 && "hg"@[1] == 'g',
        "hg+http"@.len() == 7 && "hg+http"@[4] == 't',
        "hg+https"@.len() == 8 && "hg+https"@[4] == 't',
        "hg+ssh"@.len() == 6 && "hg+ssh"@[4] == 's',
        "hg+file"@.len() == 7 && "hg+file"@[4] == 'i',
        "tarball"@.len() == 7 && "tarball"@[4] == 'a',
        "tarball+http"@.len() == 12 && "tarball+http"@[4] == 'a',
        "tarball+https"@.len() == 13 && "tarball+https"@[4] == 'a',
        "tarball+file"@.len() == 12 && "tarball+file"@[4] == 'a',
        "file"@.len() == 4 && "file"@[1] == 'i',
        "path"@.len() == 4 && "path"@[1] == 'a',
        "indirect"@.len() == 8 && "indirect"@[4] == 'r',
        "mercurial"@.len() == 9 && "mercurial"@[4] == 'u',
{
    reveal_strlit("git");
    reveal_strlit("git+http");
    reveal_strlit("git+https");
    reveal_strlit("git+ssh");
    reveal_strlit("git+file");
    reveal_strlit("github");
    reveal_strlit("gitlab");
    reveal_strlit("sourcehut");
    reveal_strlit("git+sourcehut");
    reveal_strlit("hg");
    reveal_strlit("hg+http");
    reveal_strlit("hg+https");
    reveal_strlit("hg+ssh");
    reveal_strlit("hg+file");
    reveal_strlit("tarball");
    reveal_strlit("tarball+http");
    reveal_strlit("tarball+https");
    reveal_strlit("tarball+file");
    reveal_strlit("file");
    reveal_strlit("path");
    reveal_strlit("indirect");
    reveal_strlit("mercurial");
}

impl FlakeType {
    /// Reads the name of a kind.
    pub fn from_str(s: &str) -> (parsed: Result<FlakeType, FlakeError>)
        ensures
            match parsed {
                Ok(type_) => reads_as(s@, type_),
                Err(FlakeError::UnknownType { name }) => name@ == s@ && forall|type_: FlakeType|
                    !reads_as(s@, type_),
                Err(_) => false,
            },
    {
        if same_text(s, "git") {
            Ok(FlakeType::Git)
        } else if same_text(s, "git+http") {
            Ok(FlakeType::GitHttp)
        } else if same_text(s, "git+https") {
            Ok(FlakeType::GitHttps)
        } else if same_text(s, "git+ssh") {
            Ok(FlakeType::GitSsh)
        } else if same_text(s, "git+file") {
            Ok(FlakeType::GitFile)
        } else if same_text(s, "github") {
            Ok(FlakeType::GitHub)
        } else if same_text(s, "gitlab") {
            Ok(FlakeType::GitLab)
        } else if same_text(s, "sourcehut") || same_text(s, "git+sourcehut") {
            Ok(FlakeType::SourceHut)
        } else if same_text(s, "hg") || same_text(s, "hg+http") || same_text(s, "hg+https")
            || same_text(s, "hg+ssh") || same_text(s, "hg+file") {
            Ok(FlakeType::Mercurial)
        } else if same_text(s, "tarball") || same_text(s, "tarball+http")
            || same_text(s, "tarball+https") || same_text(s, "tarball+file") {
            Ok(FlakeType::Tarball)
        } else if same_text(s, "file") {
            Ok(FlakeType::File)
        } else if same_text(s, "path") {
            Ok(FlakeType::Path)
        } else if same_text(s, "indirect") {
            Ok(FlakeType::Indirect)
        } else {
            Err(FlakeError::UnknownType { name: s.to_owned() })
        }
    }

    /// The name under which a kind is shown.
    pub fn to_string(&self) -> (name: String)
        ensures
            name@ == flake_type_name(*self),
    {
        match self {
            FlakeType::Git => "git".to_owned(),
            FlakeType::GitHttp => "git+http".to_owned(),
            FlakeType::GitHttps => "git+https".to_owned(),
            FlakeType::GitSsh => "git+ssh".to_owned(),
            FlakeType::GitFile => "git+file".to_owned(),
            FlakeType::GitHub => "github".to_owned(),
            FlakeType::GitLab => "gitlab".to_owned(),
            FlakeType::SourceHut => "sourcehut".to_owned(),
            FlakeType::Mercurial => "mercurial".to_owned(),
            FlakeType::Tarball => "tarball".to_owned(),
            FlakeType::File => "file".to_owned(),
            FlakeType::Path => "path".to_owned(),
            FlakeType::Indirect => "indirect".to_owned(),
        }
    }
}

/// A flake reference: a repository, and the branch or commit of it that is
/// meant.
#[derive(Debug)]
pub struct FlakeRef {
    pub type_: FlakeType,
    pub repo: String,
    pub ref_: Option<String>,
    pub rev: Option<String>,
    /// A host of one's own, such as a self-hosted GitLab.
    pub host: Option<String>,
}

/// What a flake reference says, as plain text.
pub struct FlakeRefView {
    pub type_: FlakeType,
    pub repo: Seq<char>,
    pub ref_: Option<Seq<char>>,
    pub rev: Option<Seq<char>>,
    pub host: Option<Seq<char>>,
}

impl View for FlakeRef {
    type V = FlakeRefView;

    open spec fn view(&self) -> FlakeRefView {
        FlakeRefView {
            type_: self.type_,
            repo: self.repo@,
            ref_: optional_text(self.ref_),
            rev: optional_text(self.rev),
            host: optional_text(self.host),
        }
    }
}

impl Clone for FlakeRef {
    fn clone(&self) -> (copy: FlakeRef)
        ensures
            copy == *self,
    {
        FlakeRef {
            type_: self.type_,
            repo: self.repo.clone(),
            ref_: self.ref_.clone(),
            rev: self.rev.clone(),
            host: self.host.clone(),
        }
    }
}

/// The branch that an environment tracks, if one is configured.
pub open spec fn tracked_ref(spec_: Option<UrlSpecConfig>) -> Option<Seq<char>> {
    match spec_ {
        Some(s) => optional_text(s.ref_),
        None => None,
    }
}

/// The revision that an environment is pinned to, if one is configured.
pub open spec fn pinned_rev(spec_: Option<UrlSpecConfig>) -> Option<Seq<char>> {
    match spec_ {
        Some(s) => optional_text(s.rev),
        None => None,
    }
}

/// The flake reference of one environment of a configured repository.
pub open spec fn environment_flake(
    config: ConfigFlake,
    spec_: Option<UrlSpecConfig>,
) -> FlakeRefView {
    FlakeRefView {
        type_: config.type_,
        repo: config.repo@,
        ref_: tracked_ref(spec_),
        rev: pinned_rev(spec_),
        host: optional_text(config.host),
    }
}

/// `repo` behind `scheme`, unless it already begins with it.
pub open spec fn with_scheme(scheme: Seq<char>, repo: Seq<char>) -> Seq<char> {
    if scheme.is_prefix_of(repo) {
        repo
    } else {
        scheme + repo
    }
}

/// The configured host, or the one that is usual for the kind.
pub open spec fn host_or(host: Option<Seq<char>>, usual: Seq<char>) -> Seq<char> {
    match host {
        Some(h) => h,
        None => usual,
    }
}

impl FlakeRefView {
    /// The URL of a plain git repository; hosted and other kinds have none.
    pub open spec fn base_url(self) -> Option<Seq<char>> {
        match self.type_ {
            FlakeType::Git => Some(self.repo),
            FlakeType::GitHttp => Some(with_scheme("http://"@, self.repo)),
            FlakeType::GitHttps => Some(with_scheme("https://"@, self.repo)),
            FlakeType::GitSsh => if self.repo.contains('@') {
                Some(self.repo)
            } else {
                Some(with_scheme("ssh://"@, self.repo))
            },
            FlakeType::GitFile => Some(with_scheme("file://"@, self.repo)),
            _ => None,
        }
    }

    /// The URL from which git fetches, for the kinds that git can fetch.
    pub open spec fn git_fetch_url(self) -> Option<Seq<char>> {
        match self.type_ {
            FlakeType::GitHub => Some(
                "https://"@ + host_or(self.host, "github.com"@) + "/"@ + self.repo + ".git"@,
            ),
            FlakeType::GitLab => Some(
                "https://"@ + host_or(self.host, "gitlab.com"@) + "/"@ + self.repo + ".git"@,
            ),
            FlakeType::SourceHut => Some(
                "https://"@ + host_or(self.host, "git.sr.ht"@) + "/"@ + self.repo,
            ),
            _ => self.base_url(),
        }
    }

    /// The error of a kind that git cannot fetch.
    pub open spec fn git_fetch_error(self, error: FlakeError) -> bool {
        match self.type_ {
            FlakeType::Mercurial => error == FlakeError::MercurialFetch,
            FlakeType::Indirect => error == FlakeError::IndirectFetch,
            _ => error == (FlakeError::NotFetchable { type_: self.type_ }),
        }
    }

    /// The flake URL without the branch or commit that is meant.
    pub open spec fn flake_base(self) -> Option<Seq<char>> {
        match self.type_ {
            FlakeType::Git => Some("git+"@ + self.repo),
            FlakeType::GitHttp => Some("git+"@ + with_scheme("http://"@, self.repo)),
            FlakeType::GitHttps => Some("git+"@ + with_scheme("https://"@, self.repo)),
            FlakeType::GitSsh => Some(
                "git+ssh://"@ + without_prefixes(self.repo, "ssh://"@),
            ),
            FlakeType::GitFile => if "file://"@.is_prefix_of(self.repo) {
                Some("git+"@ + self.repo)
            } else if "/"@.is_prefix_of(self.repo) {
                Some("git+file://"@ + self.repo)
            } else {
                Some("git+file:///"@ + self.repo)
            },
            FlakeType::GitHub => match self.host {
                Some(host) => Some("git+https://"@ + host + "/"@ + self.repo + ".git"@),
                None => Some("github:"@ + self.repo),
            },
            FlakeType::GitLab => match self.host {
                Some(host) => Some("git+https://"@ + host + "/"@ + self.repo + ".git"@),
                None => Some("gitlab:"@ + self.repo),
            },
            FlakeType::SourceHut => Some(
                "git+https://"@ + host_or(self.host, "git.sr.ht"@) + "/"@ + self.repo,
            ),
            FlakeType::Path => Some("path:"@ + self.repo),
            FlakeType::Mercurial | FlakeType::Tarball | FlakeType::File
            | FlakeType::Indirect => None,
        }
    }

    /// What the flake URL adds to pick a commit: the revision where there is
    /// one, else the branch.
    pub open spec fn query(self) -> Seq<char> {
        match (self.rev, self.ref_) {
            (Some(rev), _) => "?rev="@ + rev,
            (None, Some(ref_)) => "?ref="@ + ref_,
            (None, None) => Seq::empty(),
        }
    }

    /// The URL that nix builds, for the kinds that it can build.
    pub open spec fn flake_url(self) -> Option<Seq<char>> {
        match self.flake_base() {
            Some(base) => Some(base + self.query()),
            None => None,
        }
    }
}

impl FlakeRef {
    /// The flake references of the two environments, test first.
    pub fn from_config(config: &ConfigFlake) -> (flakes: (FlakeRef, FlakeRef))
        ensures
            flakes.0@ == environment_flake(*config, config.test_spec),
            flakes.1@ == environment_flake(*config, config.prod_spec),
    {
        (
            FlakeRef::for_environment(config, &config.test_spec),
            FlakeRef::for_environment(config, &config.prod_spec),
        )
    }

    fn for_environment(config: &ConfigFlake, spec_: &Option<UrlSpecConfig>) -> (flake: FlakeRef)
        ensures
            flake@ == environment_flake(*config, *spec_),
    {
        let (ref_, rev) = match spec_ {
            Some(s) => (s.ref_.clone(), s.rev.clone()),
            None => (None, None),
        };
        FlakeRef {
            host: config.host.clone(),
            type_: config.type_,
            repo: config.repo.clone(),
            ref_,
            rev,
        }
    }

    /// Pins the reference to a commit.
    pub fn update_rev(&mut self, new_rev: &Commit)
        ensures
            final(self)@ == (FlakeRefView { rev: Some(new_rev@), ..old(self)@ }),
            final(self).type_ == old(self).type_,
            final(self).repo == old(self).repo,
            final(self).host == old(self).host,
            final(self).ref_ == old(self).ref_,
    {
        self.rev = Some(new_rev.to_string());
    }

    /// The URL from which git fetches.
    pub fn to_git_fetch_url(&self) -> (url: Result<String, FlakeError>)
        ensures
            match url {
                Ok(u) => self@.git_fetch_url() == Some(u@),
                Err(e) => self@.git_fetch_url() is None && self@.git_fetch_error(e),
            },
    {
        match self.type_ {
            FlakeType::Git
            | FlakeType::GitHttp
            | FlakeType::GitHttps
            | FlakeType::GitSsh
            | FlakeType::GitFile => self.get_base_url(),
            FlakeType::GitHub => {
                let host = self.host_or("github.com");
                Ok(hosted_git_url("https://", host.as_str(), self.repo.as_str()))
            },
            FlakeType::GitLab => {
                let host = self.host_or("gitlab.com");
                Ok(hosted_git_url("https://", host.as_str(), self.repo.as_str()))
            },
            FlakeType::SourceHut => {
                let host = self.host_or("git.sr.ht");
                Ok(hosted_url("https://", host.as_str(), self.repo.as_str()))
            },
            FlakeType::Mercurial => Err(FlakeError::MercurialFetch),
            FlakeType::Tarball | FlakeType::File | FlakeType::Path => Err(
                FlakeError::NotFetchable { type_: self.type_ },
            ),
            FlakeType::Indirect => Err(FlakeError::IndirectFetch),
        }
    }

    fn host_or(&self, usual: &str) -> (host: String)
        ensures
            host@ == host_or(self@.host, usual@),
    {
        match &self.host {
            Some(host) => host.clone(),
            None => usual.to_owned(),
        }
    }

    /// The URL of a plain git repository.
    pub fn get_base_url(&self) -> (url: Result<String, FlakeError>)
        ensures
            match url {
                Ok(u) => self@.base_url() == Some(u@),
                Err(e) => self@.base_url() is None && e == (FlakeError::NoBaseUrl {
                    type_: self.type_,
                }),
            },
    {
        match self.type_ {
            FlakeType::Git => Ok(self.repo.clone()),
            FlakeType::GitHttp => Ok(behind_scheme("http://", self.repo.as_str())),
            FlakeType::GitHttps => Ok(behind_scheme("https://", self.repo.as_str())),
            FlakeType::GitSsh => if contains_char(self.repo.as_str(), '@') {
                Ok(self.repo.clone())
            } else {
                Ok(behind_scheme("ssh://", self.repo.as_str()))
            },
            FlakeType::GitFile => Ok(behind_scheme("file://", self.repo.as_str())),
            _ => Err(FlakeError::NoBaseUrl { type_: self.type_ }),
        }
    }

    /// The URL that nix builds.
    pub fn to_flake_url(&self) -> (url: Result<String, FlakeError>)
        ensures
            match url {
                Ok(u) => self@.flake_url() == Some(u@),
                Err(e) => self@.flake_url() is None && e == (FlakeError::NotBuildable {
                    type_: self.type_,
                }),
            },
    {
        let repo = self.repo.as_str();
        let base: String = match self.type_ {
            FlakeType::Git => joined("git+", repo),
            FlakeType::GitHttp => joined("git+", behind_scheme("http://", repo).as_str()),
            FlakeType::GitHttps => joined("git+", behind_scheme("https://", repo).as_str()),
            FlakeType::GitSsh => {
                proof {
                    reveal_strlit("ssh://");
                }
                joined("git+ssh://", strip_prefixes(repo, "ssh://").as_str())
            },
            FlakeType::GitFile => {
                // A repository on this machine.
                if begins_with(repo, "file://") {
                    joined("git+", repo)
                } else if begins_with(repo, "/") {
                    joined("git+file://", repo)
                } else {
                    joined("git+file:///", repo)
                }
            },
            FlakeType::GitHub => match &self.host {
                // Only the usual host has a short form.
                Some(host) => hosted_git_url("git+https://", host.as_str(), repo),
                None => joined("github:", repo),
            },
            FlakeType::GitLab => match &self.host {
                Some(host) => hosted_git_url("git+https://", host.as_str(), repo),
                None => joined("gitlab:", repo),
            },
            FlakeType::SourceHut => {
                let host = self.host_or("git.sr.ht");
                hosted_url("git+https://", host.as_str(), repo)
            },
            FlakeType::Path => joined("path:", repo),
            FlakeType::Mercurial | FlakeType::Tarball | FlakeType::File | FlakeType::Indirect => {
                return Err(FlakeError::NotBuildable { type_: self.type_ });
            },
        };
        Ok(self.build_flake_url(base.as_str()))
    }

    /// Adds to a flake URL what picks the commit.
    pub fn build_flake_url(&self, base: &str) -> (url: String)
        ensures
            url@ == base@ + self@.query(),
    {
        match (&self.rev, &self.ref_) {
            // A revision names a commit or a tag.
            (Some(rev), _) => joined(base, joined("?rev=", rev.as_str()).as_str()),
            // A reference names a branch.
            (None, Some(ref_)) => joined(base, joined("?ref=", ref_.as_str()).as_str()),
            (None, None) => base.to_owned(),
        }
    }
}

fn behind_scheme(scheme: &str, repo: &str) -> (url: String)
    ensures
        url@ == with_scheme(scheme@, repo@),
{
    if begins_with(repo, scheme) {
        repo.to_owned()
    } else {
        joined(scheme, repo)
    }
}

fn hosted_url(scheme: &str, host: &str, repo: &str) -> (url: String)
    ensures
        url@ == scheme@ + host@ + "/"@ + repo@,
{
    let mut url: String = scheme.to_owned();
    url.append(host);
    url.append("/");
    url.append(repo);
    url
}

fn hosted_git_url(scheme: &str, host: &str, repo: &str) -> (url: String)
    ensures
        url@ == scheme@ + host@ + "/"@ + repo@ + ".git"@,
{
    joined(hosted_url(scheme, host, repo).as_str(), ".git")
}

/// Git fetches the plain git kinds and the three hosting services, and nothing
/// else.
pub proof fn lemma_fetchable_kinds(flake: FlakeRefView)
    ensures
        flake.git_fetch_url() is Some <==> {
            ||| flake.type_ == FlakeType::Git
            ||| flake.type_ == FlakeType::GitHttp
            ||| flake.type_ == FlakeType::GitHttps
            ||| flake.type_ == FlakeType::GitSsh
            ||| flake.type_ == FlakeType::GitFile
            ||| flake.type_ == FlakeType::GitHub
            ||| flake.type_ == FlakeType::GitLab
            ||| flake.type_ == FlakeType::SourceHut
        },
{
}

/// Nix builds whatever git fetches, and local paths.
pub proof fn lemma_buildable_kinds(flake: FlakeRefView)
    ensures
        flake.flake_url() is Some <==> flake.git_fetch_url() is Some || flake.type_
            == FlakeType::Path,
{
}

/// Once a commit is pinned, the branch plays no part in what is built: the URL
/// ends with that commit, whatever branch is tracked.
pub proof fn lemma_pinned_commit_decides_the_build(
    flake: FlakeRefView,
    commit: Seq<char>,
    branch: Option<Seq<char>>,
)
    ensures
        (FlakeRefView { rev: Some(commit), ref_: branch, ..flake }).flake_url() == (
        match flake.flake_base() {
            Some(base) => Some(base + ("?rev="@ + commit)),
            None => None,
        }),
{
}

/// Pinning a commit changes neither where the repository is fetched from nor
/// whether the flake can be built.
pub proof fn lemma_pinning_keeps_the_repository(flake: FlakeRefView, commit: Seq<char>)
    ensures
        (FlakeRefView { rev: Some(commit), ..flake }).git_fetch_url() == flake.git_fetch_url(),
        (FlakeRefView { rev: Some(commit), ..flake }).flake_url() is Some
            <==> flake.flake_url() is Some,
{
}

/// Of two commits pinned on one flake, each gives a URL of its own.
pub proof fn lemma_pinned_commits_are_told_apart(
    flake: FlakeRefView,
    first: Seq<char>,
    second: Seq<char>,
)
    requires
        flake.flake_url() is Some,
        (FlakeRefView { rev: Some(first), ..flake }).flake_url() == (FlakeRefView {
            rev: Some(second),
            ..flake
        }).flake_url(),
    ensures
        first == second,
{
    let lead = flake.flake_base().unwrap() + "?rev="@;
    assert(flake.flake_base().unwrap() + ("?rev="@ + first) == lead + first);
    assert(flake.flake_base().unwrap() + ("?rev="@ + second) == lead + second);
    assert((lead + first).skip(lead.len() as int) == first);
    assert((lead + second).skip(lead.len() as int) == second);
}

/// Both environments of a configured repository fetch from one place.
pub proof fn lemma_environments_share_the_repository(config: ConfigFlake)
    ensures
        environment_flake(config, config.test_spec).git_fetch_url() == environment_flake(
            config,
            config.prod_spec,
        ).git_fetch_url(),
{
}

/// A plain repository that already bears its scheme, or an SSH one that names a
/// user, is its own fetch URL, unchanged; any other gets the scheme of its kind in
/// front and nothing else. Either way the URL ends with the whole repository.
pub proof fn lemma_plain_repository_is_fetched_as_configured(
    flake: FlakeRefView,
    scheme: Seq<char>,
)
    requires
        ({
            ||| flake.type_ == FlakeType::GitHttp && scheme == "http://"@
            ||| flake.type_ == FlakeType::GitHttps && scheme == "https://"@
            ||| flake.type_ == FlakeType::GitSsh && scheme == "ssh://"@
            ||| flake.type_ == FlakeType::GitFile && scheme == "file://"@
        }),
    ensures
        flake.base_url() == flake.git_fetch_url(),
        flake.git_fetch_url() matches Some(url) && {
            &&& scheme.is_prefix_of(flake.repo) ==> url == flake.repo
            &&& flake.type_ == FlakeType::GitSsh && flake.repo.contains('@') ==> url == flake.repo
            &&& !scheme.is_prefix_of(flake.repo) && !(flake.type_ == FlakeType::GitSsh
                && flake.repo.contains('@')) ==> url == scheme + flake.repo
            &&& url.len() >= flake.repo.len()
            &&& url.skip(url.len() - flake.repo.len()) == flake.repo
        },
{
    assert(flake.repo.skip(0) =~= flake.repo);
    assert((scheme + flake.repo).skip(scheme.len() as int) =~= flake.repo);
}

/// A repository of no particular transport is fetched from where it says.
pub proof fn lemma_repository_url_is_fetched_as_it_stands(flake: FlakeRefView)
    requires
        flake.type_ == FlakeType::Git,
    ensures
        flake.git_fetch_url() == Some(flake.repo),
        flake.base_url() == Some(flake.repo),
{
}

/// The fetch URL of a plain repository can be configured in its place: it is
/// fetched from the same URL.
pub proof fn lemma_fetch_url_is_fetched_as_it_stands(flake: FlakeRefView, url: Seq<char>)
    requires
        flake.base_url() == Some(url),
    ensures
        (FlakeRefView { repo: url, ..flake }).git_fetch_url() == Some(url),
{
    reveal_strlit("http://");
    reveal_strlit("https://");
    reveal_strlit("ssh://");
    reveal_strlit("file://");
    assert(("http://"@ + flake.repo).subrange(0, 7) =~= "http://"@);
    assert(("https://"@ + flake.repo).subrange(0, 8) =~= "https://"@);
    assert(("ssh://"@ + flake.repo).subrange(0, 6) =~= "ssh://"@);
    assert(("file://"@ + flake.repo).subrange(0, 7) =~= "file://"@);
}

/// A repository of a hosting service is fetched over HTTPS from the host that is
/// configured, else from that of the service; SourceHut's URLs have no suffix.
pub proof fn lemma_hosted_repository_is_fetched_from_its_host(
    flake: FlakeRefView,
    host: Seq<char>,
)
    requires
        ({
            ||| flake.host == Some(host)
            ||| flake.host is None && flake.type_ == FlakeType::GitHub && host == "github.com"@
            ||| flake.host is None && flake.type_ == FlakeType::GitLab && host == "gitlab.com"@
            ||| flake.host is None && flake.type_ == FlakeType::SourceHut && host == "git.sr.ht"@
        }),
    ensures
        flake.type_ == FlakeType::GitHub || flake.type_ == FlakeType::GitLab
            ==> flake.git_fetch_url() == Some("https://"@ + host + "/"@ + flake.repo + ".git"@),
        flake.type_ == FlakeType::SourceHut ==> flake.git_fetch_url() == Some(
            "https://"@ + host + "/"@ + flake.repo,
        ),
{
}

/// Only the hosting services have a host apart from the repository: for every
/// other kind it changes neither what is fetched nor what is built. And neither a
/// branch nor a commit changes what is fetched.
pub proof fn lemma_host_is_for_hosting_services(
    flake: FlakeRefView,
    host: Option<Seq<char>>,
    branch: Option<Seq<char>>,
    commit: Option<Seq<char>>,
)
    ensures
        flake.type_ != FlakeType::GitHub && flake.type_ != FlakeType::GitLab && flake.type_
            != FlakeType::SourceHut ==> {
            let moved = FlakeRefView { host, ..flake };
            moved.git_fetch_url() == flake.git_fetch_url() && moved.flake_url()
                == flake.flake_url()
        },
        (FlakeRefView { ref_: branch, rev: commit, ..flake }).git_fetch_url()
            == flake.git_fetch_url(),
{
}

/// What nix builds is what git fetches, behind `git+`, at the commit that is
/// pinned, else at the branch that is tracked. The usual hosts of GitHub and GitLab
/// have a short form of their own, SSH always bears its scheme once, and a file is
/// named from the root.
pub proof fn lemma_nix_builds_what_git_fetches(flake: FlakeRefView, at: Seq<char>)
    requires
        match (flake.rev, flake.ref_) {
            (Some(rev), _) => at == "?rev="@ + rev,
            (None, Some(branch)) => at == "?ref="@ + branch,
            (None, None) => at.len() == 0,
        },
    ensures
        match flake.type_ {
            FlakeType::Git
            | FlakeType::GitHttp
            | FlakeType::GitHttps
            | FlakeType::SourceHut => flake.git_fetch_url() matches Some(url) && flake.flake_url()
                == Some("git+"@ + url + at),
            FlakeType::GitHub | FlakeType::GitLab => flake.host is Some ==> (
            flake.git_fetch_url() matches Some(url) && flake.flake_url() == Some(
                "git+"@ + url + at,
            )),
            FlakeType::GitFile => "file://"@.is_prefix_of(flake.repo) || "/"@.is_prefix_of(
                flake.repo,
            ) ==> (flake.git_fetch_url() matches Some(url) && flake.flake_url() == Some(
                "git+"@ + url + at,
            )),
            _ => true,
        },
        flake.type_ == FlakeType::GitHub && flake.host is None ==> flake.flake_url() == Some(
            "github:"@ + flake.repo + at,
        ),
        flake.type_ == FlakeType::GitLab && flake.host is None ==> flake.flake_url() == Some(
            "gitlab:"@ + flake.repo + at,
        ),
        flake.type_ == FlakeType::GitSsh && !"ssh://"@.is_prefix_of(flake.repo)
            ==> flake.flake_url() == Some("git+ssh://"@ + flake.repo + at),
        flake.type_ == FlakeType::GitFile && !"file://"@.is_prefix_of(flake.repo)
            && !"/"@.is_prefix_of(flake.repo) ==> flake.flake_url() == Some(
            "git+file:///"@ + flake.repo + at,
        ),
        flake.type_ == FlakeType::Path ==> flake.flake_url() == Some("path:"@ + flake.repo + at),
{
    reveal_strlit("git+");
    reveal_strlit("https://");
    reveal_strlit("file://");
    reveal_strlit("git+https://");
    reveal_strlit("git+file://");
    assert("git+https://"@ =~= "git+"@ + "https://"@);
    assert("git+file://"@ =~= "git+"@ + "file://"@);
    assert(flake.query() =~= at);
    if let (Some(url), Some(built)) = (flake.git_fetch_url(), flake.flake_url()) {
        if let Some(host) = flake.host {
            assert("git+https://"@ + host + "/"@ + flake.repo + ".git"@ + at =~= "git+"@ + (
            "https://"@ + host + "/"@ + flake.repo + ".git"@) + at);
            assert("git+https://"@ + host + "/"@ + flake.repo + at =~= "git+"@ + ("https://"@ + host
                + "/"@ + flake.repo) + at);
        } else {
            assert("git+https://"@ + "git.sr.ht"@ + "/"@ + flake.repo + at =~= "git+"@ + (
            "https://"@ + "git.sr.ht"@ + "/"@ + flake.repo) + at);
        }
        assert("git+file://"@ + flake.repo + at =~= "git+"@ + ("file://"@ + flake.repo) + at);
    }
}

/// A repository behind `ssh://` is built as the one that it names there.
pub proof fn lemma_ssh_scheme_is_written_once(flake: FlakeRefView, rest: Seq<char>)
    requires
        flake.type_ == FlakeType::GitSsh,
        flake.repo == "ssh://"@ + rest,
    ensures
        flake.flake_url() == (FlakeRefView { repo: rest, ..flake }).flake_url(),
        !"ssh://"@.is_prefix_of(rest) ==> flake.flake_base() == Some("git+"@ + flake.repo),
{
    reveal_strlit("ssh://");
    reveal_strlit("git+");
    reveal_strlit("git+ssh://");
    assert("git+ssh://"@ =~= "git+"@ + "ssh://"@);
    assert("git+ssh://"@ + rest =~= "git+"@ + ("ssh://"@ + rest));
    lemma_prefixes_are_taken_off(rest, "ssh://"@);
}

/// Kinds that git does not fetch, or nix does not build, are refused by their name.
pub proof fn lemma_refused_kinds_are_named(flake: FlakeRefView, name: Seq<char>, error: FlakeError)
    requires
        flake.git_fetch_error(error),
        ({
            ||| flake.type_ == FlakeType::Mercurial && name == "mercurial"@
            ||| flake.type_ == FlakeType::Tarball && name == "tarball"@
            ||| flake.type_ == FlakeType::File && name == "file"@
            ||| flake.type_ == FlakeType::Path && name == "path"@
            ||| flake.type_ == FlakeType::Indirect && name == "indirect"@
        }),
    ensures
        flake.git_fetch_url() is None,
        error.text() == (match flake.type_ {
            FlakeType::Mercurial => "Mercurial repositories are not compatible with git fetch"@,
            FlakeType::Indirect => "Indirect flake references must be resolved first"@,
            _ => name + " type is not compatible with git fetch"@,
        }),
        (FlakeError::NotBuildable { type_: flake.type_ }).text() == name
            + " type is not supported for nixos-rebuild --flake"@,
        (FlakeError::NoBaseUrl { type_: flake.type_ }).text() == "Cannot get base URL for type "@
            + name,
{
}

/// An unknown name is quoted in full.
pub proof fn lemma_unknown_kind_is_quoted(name: String)
    ensures
        (FlakeError::UnknownType { name }).text() == "Unknown flake type: "@ + name@,
{
}

/// Both environments have the kind, the repository and the host that are
/// configured, each with the branch and the revision of its own.
pub proof fn lemma_environment_is_as_configured(
    config: ConfigFlake,
    spec_: Option<UrlSpecConfig>,
)
    ensures
        ({
            let flake = environment_flake(config, spec_);
            &&& flake.type_ == config.type_
            &&& flake.repo == config.repo@
            &&& config.host is None ==> flake.host is None
            &&& config.host matches Some(host) ==> flake.host == Some(host@)
            &&& spec_ is None ==> flake.ref_ is None && flake.rev is None
            &&& spec_ matches Some(s) ==> {
                &&& s.ref_ is None ==> flake.ref_ is None
                &&& s.ref_ matches Some(branch) ==> flake.ref_ == Some(branch@)
                &&& s.rev is None ==> flake.rev is None
                &&& s.rev matches Some(commit) ==> flake.rev == Some(commit@)
            }
        }),
{
}

/// What a reference says is what its fields hold.
pub proof fn lemma_flake_says_what_it_holds(flake: FlakeRef)
    ensures
        flake@.type_ == flake.type_,
        flake@.repo == flake.repo@,
        flake.host is None ==> flake@.host is None,
        flake.host matches Some(host) ==> flake@.host == Some(host@),
        flake.ref_ is None ==> flake@.ref_ is None,
        flake.ref_ matches Some(branch) ==> flake@.ref_ == Some(branch@),
        flake.rev is None ==> flake@.rev is None,
        flake.rev matches Some(commit) ==> flake@.rev == Some(commit@),
{
}

/// Git's kinds are named by their transport behind `git+`, except that SourceHut
/// has a name without it too; Mercurial and tarballs go by one name, or by it and
/// a transport, whatever it is.
pub proof fn lemma_names_tell_the_transport(transport: Seq<char>, type_: FlakeType)
    ensures
        reads_as("git+"@ + transport, type_) <==> {
            ||| transport == "http"@ && type_ == FlakeType::GitHttp
            ||| transport == "https"@ && type_ == FlakeType::GitHttps
            ||| transport == "ssh"@ && type_ == FlakeType::GitSsh
            ||| transport == "file"@ && type_ == FlakeType::GitFile
            ||| transport == "sourcehut"@ && type_ == FlakeType::SourceHut
        },
        reads_as("hg+"@ + transport, type_) <==> type_ == FlakeType::Mercurial && {
            ||| transport == "http"@
            ||| transport == "https"@
            ||| transport == "ssh"@
            ||| transport == "file"@
        },
        reads_as("tarball+"@ + transport, type_) <==> type_ == FlakeType::Tarball && {
            ||| transport == "http"@
            ||| transport == "https"@
            ||| transport == "file"@
        },
{
    lemma_letters_of_names();
    reveal_strlit("git+");
    reveal_strlit("hg+");
    reveal_strlit("tarball+");
    reveal_strlit("http");
    reveal_strlit("https");
    reveal_strlit("ssh");
    reveal_strlit("file");
    reveal_strlit("sourcehut");
    reveal_strlit("git+http");
    reveal_strlit("git+https");
    reveal_strlit("git+ssh");
    reveal_strlit("git+file");
    reveal_strlit("git+sourcehut");
    reveal_strlit("hg+http");
    reveal_strlit("hg+https");
    reveal_strlit("hg+ssh");
    reveal_strlit("hg+file");
    reveal_strlit("tarball+http");
    reveal_strlit("tarball+https");
    reveal_strlit("tarball+file");
    assert("git+"@ + "http"@ =~= "git+http"@);
    assert("git+http"@.skip(4) =~= "http"@);
    assert("git+"@ + "https"@ =~= "git+https"@);
    assert("git+https"@.skip(4) =~= "https"@);
    assert("git+"@ + "ssh"@ =~= "git+ssh"@);
    assert("git+ssh"@.skip(4) =~= "ssh"@);
    assert("git+"@ + "file"@ =~= "git+file"@);
    assert("git+file"@.skip(4) =~= "file"@);
    assert("git+"@ + "sourcehut"@ =~= "git+sourcehut"@);
    assert("git+sourcehut"@.skip(4) =~= "sourcehut"@);
    assert("hg+"@ + "http"@ =~= "hg+http"@);
    assert("hg+http"@.skip(3) =~= "http"@);
    assert("hg+"@ + "https"@ =~= "hg+https"@);
    assert("hg+https"@.skip(3) =~= "https"@);
    assert("hg+"@ + "ssh"@ =~= "hg+ssh"@);
    assert("hg+ssh"@.skip(3) =~= "ssh"@);
    assert("hg+"@ + "file"@ =~= "hg+file"@);
    assert("hg+file"@.skip(3) =~= "file"@);
    assert("tarball+"@ + "http"@ =~= "tarball+http"@);
    assert("tarball+http"@.skip(8) =~= "http"@);
    assert("tarball+"@ + "https"@ =~= "tarball+https"@);
    assert("tarball+https"@.skip(8) =~= "https"@);
    assert("tarball+"@ + "file"@ =~= "tarball+file"@);
    assert("tarball+file"@.skip(8) =~= "file"@);
    assert(("git+"@ + transport).skip(4) =~= transport);
    assert(("hg+"@ + transport).skip(3) =~= transport);
    assert(("tarball+"@ + transport).skip(8) =~= transport);
    let git = "git+"@ + transport;
    let hg = "hg+"@ + transport;
    let tarball = "tarball+"@ + transport;
    assert(git[0] == 'g' && git[1] == 'i' && git[3] == '+');
    assert(hg[0] == 'h' && hg[1] == 'g' && hg[2] == '+');
    assert(tarball[0] == 't' && tarball[7] == '+');
    reveal_strlit("git");
    reveal_strlit("github");
    reveal_strlit("gitlab");
    reveal_strlit("hg");
    reveal_strlit("tarball");
    reveal_strlit("path");
    reveal_strlit("indirect");
    reveal_strlit("mercurial");
    assert("git"@.len() == 3 && "hg"@.len() == 2 && "tarball"@.len() == 7);
    assert("github"@[3] == 'h' && "gitlab"@[3] == 'l');
    assert("sourcehut"@[0] == 's' && "file"@[0] == 'f' && "path"@[0] == 'p');
    assert("indirect"@[0] == 'i');
    assert("git+http"@[0] == 'g' && "git+https"@[0] == 'g' && "git+ssh"@[0] == 'g');
    assert("git+file"@[0] == 'g' && "git+sourcehut"@[0] == 'g');
    assert("github"@[0] == 'g' && "gitlab"@[0] == 'g' && "git"@[0] == 'g');
    assert("hg"@[0] == 'h' && "hg+http"@[0] == 'h' && "hg+https"@[0] == 'h');
    assert("hg+ssh"@[0] == 'h' && "hg+file"@[0] == 'h');
    assert("tarball"@[0] == 't' && "tarball+http"@[0] == 't' && "tarball+https"@[0] == 't');
    assert("tarball+file"@[0] == 't');
}

/// The names without a transport.
pub proof fn lemma_names_without_a_transport(name: Seq<char>, type_: FlakeType)
    requires
        !name.contains('+'),
    ensures
        reads_as(name, type_) <==> {
            ||| name == "git"@ && type_ == FlakeType::Git
            ||| name == "github"@ && type_ == FlakeType::GitHub
            ||| name == "gitlab"@ && type_ == FlakeType::GitLab
            ||| name == "sourcehut"@ && type_ == FlakeType::SourceHut
            ||| name == "hg"@ && type_ == FlakeType::Mercurial
            ||| name == "tarball"@ && type_ == FlakeType::Tarball
            ||| name == "file"@ && type_ == FlakeType::File
            ||| name == "path"@ && type_ == FlakeType::Path
            ||| name == "indirect"@ && type_ == FlakeType::Indirect
        },
{
    reveal_strlit("git+http");
    reveal_strlit("git+https");
    reveal_strlit("git+ssh");
    reveal_strlit("git+file");
    reveal_strlit("git+sourcehut");
    reveal_strlit("hg+http");
    reveal_strlit("hg+https");
    reveal_strlit("hg+ssh");
    reveal_strlit("hg+file");
    reveal_strlit("tarball+http");
    reveal_strlit("tarball+https");
    reveal_strlit("tarball+file");
    assert("git+http"@[3] == '+' && "git+https"@[3] == '+' && "git+ssh"@[3] == '+');
    assert("git+file"@[3] == '+' && "git+sourcehut"@[3] == '+');
    assert("hg+http"@[2] == '+' && "hg+https"@[2] == '+' && "hg+ssh"@[2] == '+');
    assert("hg+file"@[2] == '+');
    assert("tarball+http"@[7] == '+' && "tarball+https"@[7] == '+' && "tarball+file"@[7] == '+');
}

/// A name with a transport begins with `git+`, `hg+` or `tarball+`.
pub proof fn lemma_no_other_kind_has_a_transport(name: Seq<char>, type_: FlakeType)
    requires
        name.contains('+'),
        reads_as(name, type_),
    ensures
        "git+"@.is_prefix_of(name) || "hg+"@.is_prefix_of(name) || "tarball+"@.is_prefix_of(name),
{
    reveal_strlit("git+");
    reveal_strlit("hg+");
    reveal_strlit("tarball+");
    reveal_strlit("git");
    reveal_strlit("github");
    reveal_strlit("gitlab");
    reveal_strlit("sourcehut");
    reveal_strlit("hg");
    reveal_strlit("tarball");
    reveal_strlit("file");
    reveal_strlit("path");
    reveal_strlit("indirect");
    reveal_strlit("git+http");
    reveal_strlit("git+https");
    reveal_strlit("git+ssh");
    reveal_strlit("git+file");
    reveal_strlit("git+sourcehut");
    reveal_strlit("hg+http");
    reveal_strlit("hg+https");
    reveal_strlit("hg+ssh");
    reveal_strlit("hg+file");
    reveal_strlit("tarball+http");
    reveal_strlit("tarball+https");
    reveal_strlit("tarball+file");
    assert("git+http"@.subrange(0, 4) =~= "git+"@);
    assert("git+https"@.subrange(0, 4) =~= "git+"@);
    assert("git+ssh"@.subrange(0, 4) =~= "git+"@);
    assert("git+file"@.subrange(0, 4) =~= "git+"@);
    assert("git+sourcehut"@.subrange(0, 4) =~= "git+"@);
    assert("hg+http"@.subrange(0, 3) =~= "hg+"@);
    assert("hg+https"@.subrange(0, 3) =~= "hg+"@);
    assert("hg+ssh"@.subrange(0, 3) =~= "hg+"@);
    assert("hg+file"@.subrange(0, 3) =~= "hg+"@);
    assert("tarball+http"@.subrange(0, 8) =~= "tarball+"@);
    assert("tarball+https"@.subrange(0, 8) =~= "tarball+"@);
    assert("tarball+file"@.subrange(0, 8) =~= "tarball+"@);
    let i = choose|i: int| 0 <= i < name.len() && name[i] == '+';
    assert(name[i] == '+');
}

/// A hosting service is shown under its own name, not under a transport.
pub proof fn lemma_services_are_shown_by_name(type_: FlakeType)
    requires
        type_ == FlakeType::GitHub || type_ == FlakeType::GitLab || type_
            == FlakeType::SourceHut,
    ensures
        !flake_type_name(type_).contains('+'),
        reads_as(flake_type_name(type_), type_),
{
    reveal_strlit("github");
    reveal_strlit("gitlab");
    reveal_strlit("sourcehut");
}

} // verus!
