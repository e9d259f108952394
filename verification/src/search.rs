//! Looking for a commit in a repository, one lookup at a time.

use vstd::prelude::*;

use crate::git::{is_oid, oid_of, oid_refusal, read_oid, Commit, GitError, GitErrorView};
use crate::text::{joined, optional_text};

verus! {

/// A question to the repository.
#[derive(Debug)]
pub enum Lookup {
    /// The commit with this id.
    Object { id: String },
    /// The commit that a reference leads to.
    Reference { name: String },
}

/// A question to the repository, as text.
pub enum LookupView {
    Object { id: Seq<char> },
    Reference { name: Seq<char> },
}

impl View for Lookup {
    type V = LookupView;

    open spec fn view(&self) -> LookupView {
        match self {
            Lookup::Object { id } => LookupView::Object { id: id@ },
            Lookup::Reference { name } => LookupView::Reference { name: name@ },
        }
    }
}

impl Clone for Lookup {
    fn clone(&self) -> (copy: Lookup)
        ensures
            copy == *self,
    {
        match self {
            Lookup::Object { id } => Lookup::Object { id: id.clone() },
            Lookup::Reference { name } => Lookup::Reference { name: name.clone() },
        }
    }
}

/// What the repository answers.
#[derive(Debug)]
pub enum Answer {
    /// There is no such object or reference; git says so in these words.
    Missing { message: String },
    /// It leads to this commit.
    Commit { id: String },
    /// It is there, but leads to no commit.
    Failed { message: String },
}

/// What the repository answers, as text.
pub enum AnswerView {
    Missing { message: Seq<char> },
    Commit { id: Seq<char> },
    Failed { message: Seq<char> },
}

impl View for Answer {
    type V = AnswerView;

    open spec fn view(&self) -> AnswerView {
        match self {
            Answer::Missing { message } => AnswerView::Missing { message: message@ },
            Answer::Commit { id } => AnswerView::Commit { id: id@ },
            Answer::Failed { message } => AnswerView::Failed { message: message@ },
        }
    }
}

/// How a search goes on.
#[derive(Debug)]
pub enum SearchStep {
    /// Look this up, and go on with the answer.
    Look { lookup: Lookup },
    Found { commit: Commit },
    NotFound,
    Failed { error: GitError },
}

/// How a search goes on, as text.
pub enum SearchStepView {
    Look { lookup: LookupView },
    Found { commit: Seq<char> },
    NotFound,
    Failed { error: GitErrorView },
}

impl View for SearchStep {
    type V = SearchStepView;

    open spec fn view(&self) -> SearchStepView {
        match self {
            SearchStep::Look { lookup } => SearchStepView::Look { lookup: lookup@ },
            SearchStep::Found { commit } => SearchStepView::Found { commit: commit@ },
            SearchStep::NotFound => SearchStepView::NotFound,
            SearchStep::Failed { error } => SearchStepView::Failed { error: error@ },
        }
    }
}

/// A search under way: what is still to be looked up, whether it is for a pinned
/// revision, and what git said first of why it found nothing.
#[derive(Debug)]
pub struct CommitSearch {
    pub lookups: Vec<Lookup>,
    pub pinned: bool,
    pub reason: Option<String>,
}

/// What a search has still to do, and what git said first of why it found nothing.
#[verifier::ext_equal]
pub struct SearchView {
    pub lookups: Seq<LookupView>,
    pub pinned: bool,
    pub reason: Option<Seq<char>>,
}

impl View for CommitSearch {
    type V = SearchView;

    open spec fn view(&self) -> SearchView {
        SearchView {
            lookups: self.lookups@.map_values(|lookup: Lookup| lookup@),
            pinned: self.pinned,
            reason: optional_text(self.reason),
        }
    }
}

/// The search for a pinned revision: the commit with that id, then the tag of
/// that name. Where the revision is no id, git has said so before any lookup.
pub open spec fn revision_search(revision: Seq<char>) -> SearchView {
    let tag = LookupView::Reference { name: "refs/tags/"@ + revision };
    SearchView {
        lookups: if is_oid(revision) {
            seq![LookupView::Object { id: oid_of(revision) }, tag]
        } else {
            seq![tag]
        },
        pinned: true,
        reason: if is_oid(revision) {
            None
        } else {
            Some(oid_refusal(revision))
        },
    }
}

/// The search for a reference: by its full name, then as a branch, then as a
/// tag.
pub open spec fn reference_search(name: Seq<char>) -> SearchView {
    SearchView {
        lookups: seq![
            LookupView::Reference { name },
            LookupView::Reference { name: "refs/heads/"@ + name },
            LookupView::Reference { name: "refs/tags/"@ + name },
        ],
        pinned: false,
        reason: None,
    }
}

/// What is searched for an environment: its pinned revision, else the reference
/// that it follows, else nothing.
pub open spec fn search_for(
    revision: Option<Seq<char>>,
    reference: Option<Seq<char>>,
) -> SearchView {
    match (revision, reference) {
        (Some(revision), _) => revision_search(revision),
        (None, Some(name)) => reference_search(name),
        (None, None) => SearchView { lookups: Seq::empty(), pinned: false, reason: None },
    }
}

/// The search for the main branch.
pub open spec fn main_search() -> SearchView {
    SearchView {
        lookups: seq![
            LookupView::Reference { name: "refs/heads/main"@ },
            LookupView::Reference { name: "refs/heads/master"@ },
        ],
        pinned: false,
        reason: None,
    }
}

impl SearchView {
    /// The next step: the next lookup or, after the last one, the end. A pinned
    /// revision must exist, and the error is the one that git gave for it first;
    /// a reference need not exist.
    pub open spec fn step(self) -> SearchStepView {
        if self.lookups.len() > 0 {
            SearchStepView::Look { lookup: self.lookups[0] }
        } else if self.pinned {
            SearchStepView::Failed {
                error: GitErrorView::Repository {
                    message: match self.reason {
                        Some(message) => message,
                        None => Seq::empty(),
                    },
                },
            }
        } else {
            SearchStepView::NotFound
        }
    }

    /// The search without the lookup that was just made, given its answer.
    pub open spec fn rest(self, answer: AnswerView) -> SearchView {
        SearchView {
            lookups: self.lookups.skip(1),
            pinned: self.pinned,
            reason: match (self.reason, answer) {
                (None, AnswerView::Missing { message }) => Some(message),
                (reason, _) => reason,
            },
        }
    }

    /// The step that follows an answer: the search goes on only after a lookup
    /// that found nothing.
    pub open spec fn step_after(self, answer: AnswerView) -> SearchStepView {
        match answer {
            AnswerView::Missing { .. } => self.rest(answer).step(),
            AnswerView::Commit { id } => SearchStepView::Found { commit: id },
            AnswerView::Failed { message } => SearchStepView::Failed {
                error: GitErrorView::Repository { message },
            },
        }
    }
}

impl CommitSearch {
    /// The search for an environment's commit.
    pub fn new(revision: Option<&str>, reference: Option<&str>) -> (search: CommitSearch)
        ensures
            search@ == search_for(
                match revision {
                    Some(r) => Some(r@),
                    None => None,
                },
                match reference {
                    Some(r) => Some(r@),
                    None => None,
                },
            ),
    {
        if let Some(rev) = revision {
            let mut lookups: Vec<Lookup> = Vec::new();
            let mut reason: Option<String> = None;
            match read_oid(rev) {
                Ok(id) => lookups.push(Lookup::Object { id }),
                Err(error) => {
                    reason = Some(error.to_string());
                },
            }
            lookups.push(Lookup::Reference { name: joined("refs/tags/", rev) });
            let search = CommitSearch { lookups, pinned: true, reason };
            assert(search@ =~= revision_search(rev@));
            return search;
        }
        if let Some(name) = reference {
            let lookups: Vec<Lookup> = vec![
                Lookup::Reference { name: name.to_owned() },
                Lookup::Reference { name: joined("refs/heads/", name) },
                Lookup::Reference { name: joined("refs/tags/", name) },
            ];
            let search = CommitSearch { lookups, pinned: false, reason: None };
            assert(search@ =~= reference_search(name@));
            return search;
        }
        let search = CommitSearch { lookups: Vec::new(), pinned: false, reason: None };
        assert(search@ =~= (SearchView { lookups: Seq::empty(), pinned: false, reason: None }));
        search
    }

    /// The search for the main branch.
    pub fn main_branch() -> (search: CommitSearch)
        ensures
            search@ == main_search(),
    {
        let lookups: Vec<Lookup> = vec![
            Lookup::Reference { name: "refs/heads/main".to_owned() },
            Lookup::Reference { name: "refs/heads/master".to_owned() },
        ];
        let search = CommitSearch { lookups, pinned: false, reason: None };
        assert(search@ =~= main_search());
        search
    }

    /// The next step.
    pub fn step(&self) -> (step: SearchStep)
        ensures
            step@ == self@.step(),
    {
        if self.lookups.len() > 0 {
            return SearchStep::Look { lookup: self.lookups[0].clone() };
        }
        if !self.pinned {
            return SearchStep::NotFound;
        }
        let message = match &self.reason {
            Some(message) => message.clone(),
            None => String::new(),
        };
        SearchStep::Failed { error: GitError::Repository { message } }
    }

    /// Goes on with the answer to the lookup of the last step.
    pub fn advance(&mut self, answer: Answer) -> (step: SearchStep)
        requires
            old(self)@.lookups.len() > 0,
        ensures
            step@ == old(self)@.step_after(answer@),
            final(self)@ == old(self)@.rest(answer@),
    {
        let ghost before = self@;
        let _ = self.lookups.remove(0);
        match answer {
            Answer::Missing { message } => {
                if self.reason.is_none() {
                    self.reason = Some(message);
                }
                assert(self@ =~= before.rest(answer@));
                self.step()
            },
            Answer::Commit { id } => {
                assert(self@ =~= before.rest(answer@));
                SearchStep::Found { commit: Commit::from(id) }
            },
            Answer::Failed { message } => {
                assert(self@ =~= before.rest(answer@));
                SearchStep::Failed { error: GitError::Repository { message } }
            },
        }
    }
}

/// The commit of the main branch, from the end of its search: a branch that
/// leads to no commit is as good as none.
pub fn main_commit(end: SearchStep) -> (commit: Option<Commit>)
    ensures
        match commit {
            Some(c) => end@ == (SearchStepView::Found { commit: c@ }),
            None => end@ !is Found,
        },
{
    match end {
        SearchStep::Found { commit } => Some(commit),
        _ => None,
    }
}

/// Where a search ends in a repository that gives these answers.
pub open spec fn search_end(
    search: SearchView,
    repository: spec_fn(LookupView) -> AnswerView,
) -> SearchStepView
    decreases search.lookups.len(),
{
    match search.step() {
        SearchStepView::Look { lookup } => match search.step_after(repository(lookup)) {
            SearchStepView::Look { .. } => search_end(
                search.rest(repository(lookup)),
                repository,
            ),
            end => end,
        },
        end => end,
    }
}

/// A search whose lookups have all found nothing: the reason is the one it began
/// with, else that of the first lookup.
pub open spec fn exhausted(
    search: SearchView,
    repository: spec_fn(LookupView) -> AnswerView,
) -> SearchView {
    SearchView {
        lookups: Seq::empty(),
        pinned: search.pinned,
        reason: match search.reason {
            None if search.lookups.len() > 0 => match repository(search.lookups[0]) {
                AnswerView::Missing { message } => Some(message),
                _ => None,
            },
            reason => reason,
        },
    }
}

/// A search that follows its steps ends where the first lookup that is not
/// missing leads, or, where all are missing, with nothing found or, for a pinned
/// revision, with what git said first.
pub proof fn lemma_search_ends_at_the_first_hit(
    search: SearchView,
    repository: spec_fn(LookupView) -> AnswerView,
    hit: int,
)
    requires
        0 <= hit <= search.lookups.len(),
        forall|i: int| 0 <= i < hit ==> repository(#[trigger] search.lookups[i]) is Missing,
        hit < search.lookups.len() ==> repository(search.lookups[hit]) !is Missing,
    ensures
        search_end(search, repository) == (if hit < search.lookups.len() {
            search.step_after(repository(search.lookups[hit]))
        } else {
            exhausted(search, repository).step()
        }),
    decreases search.lookups.len(),
{
    if search.lookups.len() > 0 && hit > 0 {
        assert(repository(search.lookups[0]) is Missing);
        let rest = search.rest(repository(search.lookups[0]));
        assert forall|i: int| 0 <= i < hit - 1 implies repository(
            #[trigger] rest.lookups[i],
        ) is Missing by {
            assert(rest.lookups[i] == search.lookups[i + 1]);
        }
        if hit < search.lookups.len() {
            assert(rest.lookups[hit - 1] == search.lookups[hit]);
        }
        lemma_search_ends_at_the_first_hit(rest, repository, hit - 1);
        if rest.lookups.len() == 0 {
            assert(rest.lookups =~= Seq::<LookupView>::empty());
        }
    } else if search.lookups.len() == 0 {
        assert(search.lookups =~= Seq::<LookupView>::empty());
    }
}

/// A pinned revision that is a commit's id is found whatever references the
/// repository has, and the reference that is followed plays no part.
pub proof fn lemma_pinned_commit_is_found(
    revision: Seq<char>,
    reference: Option<Seq<char>>,
    repository: spec_fn(LookupView) -> AnswerView,
    id: Seq<char>,
)
    requires
        is_oid(revision),
        repository(LookupView::Object { id: oid_of(revision) }) == (AnswerView::Commit { id }),
    ensures
        search_end(search_for(Some(revision), reference), repository) == (SearchStepView::Found {
            commit: id,
        }),
{
}

/// A branch and a tag of one name: the branch is followed.
pub proof fn lemma_branch_before_tag(
    name: Seq<char>,
    repository: spec_fn(LookupView) -> AnswerView,
    id: Seq<char>,
)
    requires
        repository(LookupView::Reference { name }) is Missing,
        repository(LookupView::Reference { name: "refs/heads/"@ + name }) == (AnswerView::Commit {
            id,
        }),
    ensures
        search_end(search_for(None, Some(name)), repository) == (SearchStepView::Found {
            commit: id,
        }),
{
    let search = reference_search(name);
    assert(search.lookups[0] == (LookupView::Reference { name }));
    lemma_search_ends_at_the_first_hit(search, repository, 1);
}

/// A pinned revision that is the name of a tag stands for the commit of that tag,
/// unless it is the id of a commit too.
pub proof fn lemma_pinned_tag_is_found(
    revision: Seq<char>,
    reference: Option<Seq<char>>,
    repository: spec_fn(LookupView) -> AnswerView,
    id: Seq<char>,
)
    requires
        is_oid(revision) ==> repository(LookupView::Object { id: oid_of(revision) }) is Missing,
        repository(LookupView::Reference { name: "refs/tags/"@ + revision }) == (
        AnswerView::Commit { id }),
    ensures
        search_end(search_for(Some(revision), reference), repository) == (SearchStepView::Found {
            commit: id,
        }),
{
    let search = revision_search(revision);
    let tag = LookupView::Reference { name: "refs/tags/"@ + revision };
    if is_oid(revision) {
        assert(search.lookups[0] == (LookupView::Object { id: oid_of(revision) }));
        assert(search.lookups[1] == tag);
        lemma_search_ends_at_the_first_hit(search, repository, 1);
    } else {
        assert(search.lookups[0] == tag);
        lemma_search_ends_at_the_first_hit(search, repository, 0);
    }
}

/// A pinned revision that is neither a commit nor a tag is an error, with what git
/// said of it first: that it is no id, else what the lookup of the commit gave. The
/// reference that is followed is not looked up in its place.
pub proof fn lemma_missing_revision_is_an_error(
    revision: Seq<char>,
    reference: Option<Seq<char>>,
    repository: spec_fn(LookupView) -> AnswerView,
    message: Seq<char>,
)
    requires
        repository(LookupView::Reference { name: "refs/tags/"@ + revision }) is Missing,
        is_oid(revision) ==> repository(LookupView::Object { id: oid_of(revision) }) == (
        AnswerView::Missing { message }),
        !is_oid(revision) ==> message == oid_refusal(revision),
    ensures
        search_end(search_for(Some(revision), reference), repository) == (SearchStepView::Failed {
            error: GitErrorView::Repository { message },
        }),
{
    let search = revision_search(revision);
    let tag = LookupView::Reference { name: "refs/tags/"@ + revision };
    if is_oid(revision) {
        assert(search.lookups[0] == (LookupView::Object { id: oid_of(revision) }));
        assert(search.lookups[1] == tag);
        lemma_search_ends_at_the_first_hit(search, repository, 2);
    } else {
        assert(search.lookups[0] == tag);
        lemma_search_ends_at_the_first_hit(search, repository, 1);
    }
}

/// A reference is followed by its full name, else as a branch, else as a tag. One
/// that has none of these is not found, which is no error; one that leads to no
/// commit is an error, with what git said.
pub proof fn lemma_reference_is_followed(
    name: Seq<char>,
    repository: spec_fn(LookupView) -> AnswerView,
)
    ensures
        ({
            let full = repository(LookupView::Reference { name });
            let branch = repository(LookupView::Reference { name: "refs/heads/"@ + name });
            let tag = repository(LookupView::Reference { name: "refs/tags/"@ + name });
            let first = if full !is Missing {
                full
            } else if branch !is Missing {
                branch
            } else {
                tag
            };
            search_end(search_for(None, Some(name)), repository) == (match first {
                AnswerView::Commit { id } => SearchStepView::Found { commit: id },
                AnswerView::Failed { message } => SearchStepView::Failed {
                    error: GitErrorView::Repository { message },
                },
                AnswerView::Missing { .. } => SearchStepView::NotFound,
            })
        }),
{
    let search = reference_search(name);
    assert(search.lookups[0] == (LookupView::Reference { name }));
    assert(search.lookups[1] == (LookupView::Reference { name: "refs/heads/"@ + name }));
    assert(search.lookups[2] == (LookupView::Reference { name: "refs/tags/"@ + name }));
    if repository(search.lookups[0]) !is Missing {
        lemma_search_ends_at_the_first_hit(search, repository, 0);
    } else if repository(search.lookups[1]) !is Missing {
        lemma_search_ends_at_the_first_hit(search, repository, 1);
    } else if repository(search.lookups[2]) !is Missing {
        lemma_search_ends_at_the_first_hit(search, repository, 2);
    } else {
        lemma_search_ends_at_the_first_hit(search, repository, 3);
    }
}

/// An environment that names neither a revision nor a reference has no commit, and
/// the repository is not asked for one.
pub proof fn lemma_nothing_is_found_without_a_name(
    repository: spec_fn(LookupView) -> AnswerView,
)
    ensures
        search_for(None, None).step() is NotFound,
        search_end(search_for(None, None), repository) is NotFound,
{
}

/// The main branch is `main` or, where there is none of that name, `master`.
pub proof fn lemma_main_branch_is_main_or_master(
    repository: spec_fn(LookupView) -> AnswerView,
)
    ensures
        ({
            let main = repository(LookupView::Reference { name: "refs/heads/main"@ });
            let master = repository(LookupView::Reference { name: "refs/heads/master"@ });
            let first = if main !is Missing {
                main
            } else {
                master
            };
            match (search_end(main_search(), repository), first) {
                (SearchStepView::Found { commit }, AnswerView::Commit { id }) => commit == id,
                (SearchStepView::NotFound, AnswerView::Missing { .. }) => true,
                (SearchStepView::Failed { .. }, AnswerView::Failed { .. }) => true,
                _ => false,
            }
        }),
{
    let search = main_search();
    assert(search.lookups[0] == (LookupView::Reference { name: "refs/heads/main"@ }));
    assert(search.lookups[1] == (LookupView::Reference { name: "refs/heads/master"@ }));
    if repository(search.lookups[0]) !is Missing {
        lemma_search_ends_at_the_first_hit(search, repository, 0);
    } else if repository(search.lookups[1]) !is Missing {
        lemma_search_ends_at_the_first_hit(search, repository, 1);
    } else {
        lemma_search_ends_at_the_first_hit(search, repository, 2);
    }
}

/// A search goes on only where a lookup has found nothing: an answer that leads to a
/// commit ends it with that commit, and one that leads nowhere with what git said.
pub proof fn lemma_answer_ends_the_search(search: SearchView, id: Seq<char>, message: Seq<char>)
    requires
        search.lookups.len() > 0,
    ensures
        search.step() == (SearchStepView::Look { lookup: search.lookups[0] }),
        search.step_after(AnswerView::Commit { id }) == (SearchStepView::Found { commit: id }),
        search.step_after(AnswerView::Failed { message }) == (SearchStepView::Failed {
            error: GitErrorView::Repository { message },
        }),
        search.lookups.len() > 1 ==> search.step_after(AnswerView::Missing { message }) == (
        SearchStepView::Look { lookup: search.lookups[1] }),
        search.lookups.len() == 1 && !search.pinned ==> search.step_after(
            AnswerView::Missing { message },
        ) is NotFound,
{
}

/// What a lookup, an answer, a step and a search say is what they hold.
pub proof fn lemma_search_says_what_it_holds(
    lookup: Lookup,
    answer: Answer,
    step: SearchStep,
    search: CommitSearch,
)
    ensures
        match lookup {
            Lookup::Object { id } => lookup@ == (LookupView::Object { id: id@ }),
            Lookup::Reference { name } => lookup@ == (LookupView::Reference { name: name@ }),
        },
        match answer {
            Answer::Missing { message } => answer@ == (AnswerView::Missing { message: message@ }),
            Answer::Commit { id } => answer@ == (AnswerView::Commit { id: id@ }),
            Answer::Failed { message } => answer@ == (AnswerView::Failed { message: message@ }),
        },
        match step {
            SearchStep::Look { lookup: l } => step@ == (SearchStepView::Look { lookup: l@ }),
            SearchStep::Found { commit } => step@ == (SearchStepView::Found { commit: commit@ }),
            SearchStep::NotFound => step@ is NotFound,
            SearchStep::Failed { error } => step@ == (SearchStepView::Failed { error: error@ }),
        },
        search@.lookups.len() == search.lookups@.len(),
        forall|i: int|
            0 <= i < search.lookups@.len() ==> #[trigger] search@.lookups[i]
                == search.lookups@[i]@,
        search@.pinned == search.pinned,
        search.reason is None ==> search@.reason is None,
        search.reason matches Some(reason) ==> search@.reason == Some(reason@),
{
}

/// What is looked up, in which order, and nothing besides: a revision as the commit
/// of that id, where it is one, then as a tag; a reference by its full name, as a
/// branch, then as a tag; the main branch under its two names.
pub proof fn lemma_lookups_are_made_in_order(
    revision: Seq<char>,
    reference: Option<Seq<char>>,
    name: Seq<char>,
)
    ensures
        ({
            let pinned = search_for(Some(revision), reference);
            let last = pinned.lookups.len() - 1;
            &&& pinned.pinned
            &&& pinned.lookups.len() == (if is_oid(revision) {
                2nat
            } else {
                1nat
            })
            &&& is_oid(revision) ==> pinned.lookups[0] == (LookupView::Object {
                id: oid_of(revision),
            })
            &&& pinned.lookups[last] == (LookupView::Reference { name: "refs/tags/"@ + revision })
            &&& pinned.reason is Some <==> !is_oid(revision)
        }),
        ({
            let followed = search_for(None, Some(name));
            &&& !followed.pinned
            &&& followed.lookups.len() == 3
            &&& followed.lookups[0] == (LookupView::Reference { name })
            &&& followed.lookups[1] == (LookupView::Reference { name: "refs/heads/"@ + name })
            &&& followed.lookups[2] == (LookupView::Reference { name: "refs/tags/"@ + name })
        }),
        ({
            let main = main_search();
            &&& !main.pinned
            &&& main.lookups.len() == 2
            &&& main.lookups[0] == (LookupView::Reference { name: "refs/heads/main"@ })
            &&& main.lookups[1] == (LookupView::Reference { name: "refs/heads/master"@ })
        }),
{
}

/// An answer takes its lookup off the search, and keeps what git said first.
pub proof fn lemma_lookup_is_made_once(search: SearchView, message: Seq<char>)
    requires
        search.lookups.len() > 0,
    ensures
        ({
            let rest = search.rest(AnswerView::Missing { message });
            &&& rest.pinned == search.pinned
            &&& rest.lookups.len() == search.lookups.len() - 1
            &&& forall|i: int|
                0 <= i < rest.lookups.len() ==> #[trigger] rest.lookups[i] == search.lookups[i + 1]
            &&& search.reason is Some ==> rest.reason == search.reason
            &&& search.reason is None ==> rest.reason == Some(message)
        }),
        search.lookups.len() == 1 && search.pinned ==> search.step_after(
            AnswerView::Missing { message },
        ) == (SearchStepView::Failed {
            error: GitErrorView::Repository {
                message: match search.reason {
                    Some(first) => first,
                    None => message,
                },
            },
        }),
{
}

} // verus!
