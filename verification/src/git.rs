//! Commits, the ids that name them, and why they may not be known.

use vstd::prelude::*;

use crate::flake::FlakeError;
use crate::text::{joined, optional_text};

verus! {

/// A commit, known by its hash.
#[derive(Debug, Eq)]
pub struct Commit(String);

impl View for Commit {
    type V = Seq<char>;

    closed spec fn view(&self) -> Seq<char> {
        self.0@
    }
}

impl Clone for Commit {
    fn clone(&self) -> (copy: Commit)
        ensures
            copy == *self,
    {
        Commit(self.0.clone())
    }
}

impl PartialEq for Commit {
    fn eq(&self, other: &Commit) -> (same: bool) {
        self.0 == other.0
    }
}

impl vstd::std_specs::cmp::PartialEqSpecImpl for Commit {
    open spec fn obeys_eq_spec() -> bool {
        true
    }

    open spec fn eq_spec(&self, other: &Commit) -> bool {
        self@ == other@
    }
}

impl From<&str> for Commit {
    fn from(value: &str) -> (commit: Commit)
        ensures
            commit@ == value@,
    {
        Commit(value.to_owned())
    }
}

impl vstd::std_specs::convert::FromSpecImpl<&str> for Commit {
    open spec fn obeys_from_spec() -> bool {
        false
    }

    open spec fn from_spec(value: &str) -> Commit {
        arbitrary()
    }
}

impl From<String> for Commit {
    fn from(value: String) -> (commit: Commit)
        ensures
            commit@ == value@,
    {
        Commit(value)
    }
}

impl vstd::std_specs::convert::FromSpecImpl<String> for Commit {
    open spec fn obeys_from_spec() -> bool {
        true
    }

    closed spec fn from_spec(value: String) -> Commit {
        Commit(value)
    }
}

impl Commit {
    /// The hash as text.
    pub fn to_string(&self) -> (text: String)
        ensures
            text@ == self@,
    {
        self.0.clone()
    }

    /// The hash, borrowed.
    pub fn as_str(&self) -> (text: &str)
        ensures
            text@ == self@,
    {
        self.0.as_str()
    }
}

/// The commit of an optional reference.
pub open spec fn commit_of(commit: Option<Commit>) -> Option<Seq<char>> {
    match commit {
        Some(c) => Some(c@),
        None => None,
    }
}

/// The commits that the tracked references stand at.
///
/// `distance` counts the commits by which test is ahead of prod; it is
/// negative where prod is ahead.
#[derive(Debug)]
pub enum LatestCommits {
    Test(Commit),
    Prod(Commit),
    Distance { test: Commit, prod: Commit, distance: isize },
}

impl LatestCommits {
    /// Both references exist.
    pub fn new(test: Commit, prod: Commit, distance: isize) -> (commits: Self)
        ensures
            commits == (LatestCommits::Distance { test, prod, distance }),
    {
        LatestCommits::Distance { test, prod, distance }
    }

    /// The commit of the test reference.
    pub open spec fn test(self) -> Option<Seq<char>> {
        match self {
            LatestCommits::Test(commit) => Some(commit@),
            LatestCommits::Prod(_) => None,
            LatestCommits::Distance { test, .. } => Some(test@),
        }
    }

    /// The commit of the prod reference.
    pub open spec fn prod(self) -> Option<Seq<char>> {
        match self {
            LatestCommits::Test(_) => None,
            LatestCommits::Prod(commit) => Some(commit@),
            LatestCommits::Distance { prod, .. } => Some(prod@),
        }
    }

    /// The commit of the test reference, where that reference exists.
    pub fn get_test(&self) -> (commit: Option<&Commit>)
        ensures
            match commit {
                Some(c) => self.test() == Some(c@),
                None => self.test() is None,
            },
    {
        match self {
            LatestCommits::Test(commit) => Some(commit),
            LatestCommits::Prod(_) => None,
            LatestCommits::Distance { test, .. } => Some(test),
        }
    }

    /// The commit of the prod reference, where that reference exists.
    pub fn get_prod(&self) -> (commit: Option<&Commit>)
        ensures
            match commit {
                Some(c) => self.prod() == Some(c@),
                None => self.prod() is None,
            },
    {
        match self {
            LatestCommits::Test(_) => None,
            LatestCommits::Prod(commit) => Some(commit),
            LatestCommits::Distance { prod, .. } => Some(prod),
        }
    }
}

/// Why `git2` failed.
#[verifier::external_type_specification]
#[verifier::external_body]
pub struct ExGitError(git2::Error);

/// Why the commits are not known.
#[derive(Debug)]
pub enum GitError {
    /// Git cannot fetch this flake.
    NotFetchable { error: FlakeError },
    /// The fetch itself failed, for the reason that git gives.
    Fetch { url: String, message: String },
    /// The repository gave no answer, for the reason that git gives.
    Repository { message: String },
    /// A commit is not named by a hash, for the reason that git gives.
    Conversion { commit: String, message: String },
    /// A commit is not in the repository, for the reason that git gives.
    MissingCommit { commit: String, message: String },
    /// Neither commit descends from the other.
    Diverged { first: String, second: String },
    /// Neither reference exists.
    NoCommits,
}

/// Why the commits are not known, as text.
pub enum GitErrorView {
    NotFetchable { error: FlakeError },
    Fetch { url: Seq<char>, message: Seq<char> },
    Repository { message: Seq<char> },
    Conversion { commit: Seq<char>, message: Seq<char> },
    MissingCommit { commit: Seq<char>, message: Seq<char> },
    Diverged { first: Seq<char>, second: Seq<char> },
    NoCommits,
}

impl View for GitError {
    type V = GitErrorView;

    open spec fn view(&self) -> GitErrorView {
        match self {
            GitError::NotFetchable { error } => GitErrorView::NotFetchable { error: *error },
            GitError::Fetch { url, message } => GitErrorView::Fetch {
                url: url@,
                message: message@,
            },
            GitError::Repository { message } => GitErrorView::Repository { message: message@ },
            GitError::Conversion { commit, message } => GitErrorView::Conversion {
                commit: commit@,
                message: message@,
            },
            GitError::MissingCommit { commit, message } => GitErrorView::MissingCommit {
                commit: commit@,
                message: message@,
            },
            GitError::Diverged { first, second } => GitErrorView::Diverged {
                first: first@,
                second: second@,
            },
            GitError::NoCommits => GitErrorView::NoCommits,
        }
    }
}

impl GitErrorView {
    /// What is reported to the operator.
    pub open spec fn text(self) -> Seq<char> {
        match self {
            GitErrorView::NotFetchable { error } => error.text(),
            GitErrorView::Fetch { url, .. } => "Failed to fetch from remote url: "@ + url,
            GitErrorView::Repository { message } => message,
            GitErrorView::Conversion { commit, .. } => "Commit conversion failed on "@ + commit,
            GitErrorView::MissingCommit { commit, .. } => "Failed to find commit "@ + commit,
            GitErrorView::Diverged { first, second } => "Commits "@ + first + " and "@ + second
                + " are not on the same branch"@,
            GitErrorView::NoCommits => "Could not find commits"@,
        }
    }

    /// The reason that git gives, where it stands behind what is reported.
    pub open spec fn cause(self) -> Option<Seq<char>> {
        match self {
            GitErrorView::Fetch { message, .. } => Some(message),
            GitErrorView::Conversion { message, .. } => Some(message),
            GitErrorView::MissingCommit { message, .. } => Some(message),
            _ => None,
        }
    }
}

impl GitError {
    /// What is reported to the operator.
    pub fn to_string(&self) -> (message: String)
        ensures
            message@ == self@.text(),
    {
        match self {
            GitError::NotFetchable { error } => error.to_string(),
            GitError::Fetch { url, .. } => joined(
                "Failed to fetch from remote url: ",
                url.as_str(),
            ),
            GitError::Repository { message } => message.clone(),
            GitError::Conversion { commit, .. } => joined(
                "Commit conversion failed on ",
                commit.as_str(),
            ),
            GitError::MissingCommit { commit, .. } => joined(
                "Failed to find commit ",
                commit.as_str(),
            ),
            GitError::Diverged { first, second } => {
                let mut text: String = joined("Commits ", first.as_str());
                text.append(" and ");
                text.append(second.as_str());
                text.append(" are not on the same branch");
                text
            },
            GitError::NoCommits => "Could not find commits".to_owned(),
        }
    }

    /// The reason that git gives, where it stands behind what is reported.
    pub fn cause(&self) -> (reason: Option<String>)
        ensures
            optional_text(reason) == self@.cause(),
    {
        match self {
            GitError::Fetch { message, .. } => Some(message.clone()),
            GitError::Conversion { message, .. } => Some(message.clone()),
            GitError::MissingCommit { message, .. } => Some(message.clone()),
            _ => None,
        }
    }
}

/// A hexadecimal digit.
pub open spec fn is_hex_digit(c: char) -> bool {
    '0' <= c <= '9' || 'a' <= c <= 'f' || 'A' <= c <= 'F'
}

/// A hexadecimal digit in lower case.
pub open spec fn lower_hex_digit(c: char) -> char {
    if 'A' <= c <= 'F' {
        ((c as u32 + 32) as u32) as char
    } else {
        c
    }
}

/// The text can be read as an object id: at most forty hexadecimal digits, and
/// at least one.
pub open spec fn is_oid(text: Seq<char>) -> bool {
    &&& 1 <= text.len() <= 40
    &&& forall|i: int| 0 <= i < text.len() ==> is_hex_digit(#[trigger] text[i])
}

/// The object id that a text is read as: its digits in lower case, with zeros
/// where digits are missing at the end.
pub open spec fn oid_of(text: Seq<char>) -> Seq<char> {
    Seq::new(
        40,
        |i: int| if i < text.len() {
            lower_hex_digit(text[i])
        } else {
            '0'
        },
    )
}

/// Why a text cannot be read as an object id, in git's words. Its length is that
/// of its UTF-8 encoding.
pub open spec fn oid_refusal(text: Seq<char>) -> Seq<char> {
    let length = vstd::utf8::encode_utf8(text).len();
    let reason = if length == 0 {
        "too short"@
    } else if length > 40 {
        "too long"@
    } else {
        "contains invalid characters"@
    };
    "unable to parse OID - "@ + reason + "; class=Invalid (3)"@
}

/// Calls `git2`'s `Oid::from_str` and writes the id out: a text of up to forty
/// hexadecimal digits is read as the id that begins with them and has zeros in
/// the other places. No other text is an id, and the error, written out, says
/// why: it is empty, it is too long, or it holds something else than digits.
#[verifier::external_body]
pub(crate) fn read_oid(text: &str) -> (id: Result<String, git2::Error>)
    ensures
        match id {
            Ok(hash) => is_oid(text@) && hash@ == oid_of(text@),
            Err(error) => !is_oid(text@) && forall|words: String| #[trigger]
                vstd::string::to_string_from_display_ensures::<git2::Error>(&error, words)
                    ==> words@ == oid_refusal(text@),
        },
{
    git2::Oid::from_str(text).map(|id| id.to_string())
}

impl Commit {
    /// The object id of the commit.
    pub fn oid(&self) -> (id: Result<String, GitError>)
        ensures
            match id {
                Ok(hash) => is_oid(self@) && hash@ == oid_of(self@),
                Err(error) => !is_oid(self@) && error@ == (GitErrorView::Conversion {
                    commit: self@,
                    message: oid_refusal(self@),
                }),
            },
    {
        match read_oid(self.as_str()) {
            Ok(hash) => Ok(hash),
            Err(error) => {
                let message = error.to_string();
                Err(GitError::Conversion { commit: self.to_string(), message })
            },
        }
    }
}

/// An id written out in full is read back as itself.
pub proof fn lemma_full_id_is_read_back(text: Seq<char>)
    requires
        is_oid(text),
    ensures
        is_oid(oid_of(text)),
        oid_of(oid_of(text)) == oid_of(text),
{
    assert forall|i: int| 0 <= i < 40 implies is_hex_digit(#[trigger] oid_of(text)[i]) by {
        if i < text.len() {
            assert(is_hex_digit(text[i]));
        }
    }
    assert forall|i: int| 0 <= i < 40 implies #[trigger] oid_of(oid_of(text))[i] == oid_of(text)[i]
        by {
        assert(is_hex_digit(oid_of(text)[i]));
    }
    assert(oid_of(oid_of(text)) =~= oid_of(text));
}

/// A text is an object id exactly if it has one to forty characters, all of them
/// digits of base sixteen. It is read as those digits in lower case, filled up with
/// zeros.
pub proof fn lemma_ids_are_up_to_forty_digits(text: Seq<char>)
    ensures
        is_oid(text) <==> {
            &&& 0 < text.len() <= 40
            &&& forall|i: int|
                0 <= i < text.len() ==> {
                    let n = #[trigger] text[i] as int;
                    48 <= n <= 57 || 65 <= n <= 70 || 97 <= n <= 102
                }
        },
        oid_of(text).len() == 40,
        forall|i: int|
            0 <= i < 40 ==> #[trigger] oid_of(text)[i] as int == (if i >= text.len() {
                48
            } else if 65 <= text[i] as int <= 70 {
                text[i] as int + 32
            } else {
                text[i] as int
            }),
{
    if is_oid(text) {
        assert forall|i: int| 0 <= i < text.len() implies {
            let n = #[trigger] text[i] as int;
            48 <= n <= 57 || 65 <= n <= 70 || 97 <= n <= 102
        } by {
            assert(is_hex_digit(text[i]));
        }
    }
}

/// What is reported names what it is about, and the reason that git gave stands
/// behind it where what is reported is not that reason itself.
pub proof fn lemma_errors_name_what_they_are_about(
    url: Seq<char>,
    commit: Seq<char>,
    other: Seq<char>,
    message: Seq<char>,
)
    ensures
        (GitErrorView::Fetch { url, message }).text() == "Failed to fetch from remote url: "@ + url,
        (GitErrorView::Fetch { url, message }).cause() == Some(message),
        (GitErrorView::Repository { message }).text() == message,
        (GitErrorView::Repository { message }).cause() is None,
        (GitErrorView::Conversion { commit, message }).text() == "Commit conversion failed on "@
            + commit,
        (GitErrorView::Conversion { commit, message }).cause() == Some(message),
        (GitErrorView::MissingCommit { commit, message }).text() == "Failed to find commit "@
            + commit,
        (GitErrorView::MissingCommit { commit, message }).cause() == Some(message),
        (GitErrorView::Diverged { first: commit, second: other }).text() == "Commits "@ + commit
            + " and "@ + other + " are not on the same branch"@,
        GitErrorView::NoCommits.text() == "Could not find commits"@,
        (GitErrorView::Diverged { first: commit, second: other }).cause() is None,
        GitErrorView::NoCommits.cause() is None,
{
}

/// A kind of flake that is refused is reported in the words of that refusal.
pub proof fn lemma_refused_flake_is_reported(error: FlakeError)
    ensures
        (GitErrorView::NotFetchable { error }).text() == error.text(),
        (GitErrorView::NotFetchable { error }).cause() is None,
{
}

/// Each reference has the commit that it stands at, and none where it does not
/// exist.
pub proof fn lemma_references_have_their_commits(test: Commit, prod: Commit, distance: isize)
    ensures
        LatestCommits::Test(test).test() == Some(test@),
        LatestCommits::Test(test).prod() is None,
        LatestCommits::Prod(prod).prod() == Some(prod@),
        LatestCommits::Prod(prod).test() is None,
        (LatestCommits::Distance { test, prod, distance }).test() == Some(test@),
        (LatestCommits::Distance { test, prod, distance }).prod() == Some(prod@),
        commit_of(Some(test)) == Some(test@),
        commit_of(None) is None,
{
}

/// What an error says is what it holds.
pub proof fn lemma_error_says_what_it_holds(error: GitError)
    ensures
        match error {
            GitError::NotFetchable { error: reason } => error@ == (GitErrorView::NotFetchable {
                error: reason,
            }),
            GitError::Fetch { url, message } => error@ == (GitErrorView::Fetch {
                url: url@,
                message: message@,
            }),
            GitError::Repository { message } => error@ == (GitErrorView::Repository {
                message: message@,
            }),
            GitError::Conversion { commit, message } => error@ == (GitErrorView::Conversion {
                commit: commit@,
                message: message@,
            }),
            GitError::MissingCommit { commit, message } => error@ == (
            GitErrorView::MissingCommit { commit: commit@, message: message@ }),
            GitError::Diverged { first, second } => error@ == (GitErrorView::Diverged {
                first: first@,
                second: second@,
            }),
            GitError::NoCommits => error@ is NoCommits,
        },
{
}

/// A text is refused as an id for being empty, for being longer than forty bytes, or
/// for what it holds.
pub proof fn lemma_refusal_says_what_is_wrong(text: Seq<char>)
    ensures
        text.len() == 0 ==> oid_refusal(text) == "unable to parse OID - "@ + "too short"@
            + "; class=Invalid (3)"@,
        vstd::utf8::encode_utf8(text).len() > 40 ==> oid_refusal(text) == "unable to parse OID - "@
            + "too long"@ + "; class=Invalid (3)"@,
        0 < vstd::utf8::encode_utf8(text).len() <= 40 ==> oid_refusal(text)
            == "unable to parse OID - "@ + "contains invalid characters"@
            + "; class=Invalid (3)"@,
{
}

} // verus!
