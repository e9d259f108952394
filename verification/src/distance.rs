//! How many commits one commit is ahead of another, one question at a time, and
//! what that says of the two tracked references.

use vstd::prelude::*;

use crate::git::{is_oid, oid_of, oid_refusal, Commit, GitError, GitErrorView, LatestCommits};

verus! {

/// How far the comparison of two commits has come.
#[derive(Debug, Clone, Copy, PartialEq, Eq, Structural)]
pub enum DistanceStage {
    FindingFirst,
    FindingSecond,
    AskingSecondAhead,
    AskingFirstAhead { second_ahead: bool },
    CountingSecondAhead,
    CountingFirstAhead,
    Done { distance: isize },
    MissingFirst,
    MissingSecond,
    Diverged,
}

/// A question to the repository, or the end of the comparison.
#[derive(Debug)]
pub enum DistanceStep {
    /// Whether there is a commit with this id.
    Find { id: String },
    /// Whether the one descends from the other.
    Descends { descendant: String, ancestor: String },
    /// How many commits the descendant has that the ancestor has not.
    Count { ancestor: String, descendant: String },
    Done { distance: isize },
    Failed { error: GitError },
}

/// A question to the repository, or the end of the comparison, as text.
pub enum DistanceStepView {
    Find { id: Seq<char> },
    Descends { descendant: Seq<char>, ancestor: Seq<char> },
    Count { ancestor: Seq<char>, descendant: Seq<char> },
    Done { distance: isize },
    Failed { error: GitErrorView },
}

impl View for DistanceStep {
    type V = DistanceStepView;

    open spec fn view(&self) -> DistanceStepView {
        match self {
            DistanceStep::Find { id } => DistanceStepView::Find { id: id@ },
            DistanceStep::Descends { descendant, ancestor } => DistanceStepView::Descends {
                descendant: descendant@,
                ancestor: ancestor@,
            },
            DistanceStep::Count { ancestor, descendant } => DistanceStepView::Count {
                ancestor: ancestor@,
                descendant: descendant@,
            },
            DistanceStep::Done { distance } => DistanceStepView::Done { distance: *distance },
            DistanceStep::Failed { error } => DistanceStepView::Failed { error: error@ },
        }
    }
}

/// What the repository answers.
#[derive(Debug)]
pub enum DistanceAnswer {
    /// There is such a commit.
    Found,
    /// There is none; git says so in these words.
    Missing { message: String },
    Descends { descends: bool },
    Count { count: usize },
}

/// What the repository answers, as text.
pub enum DistanceAnswerView {
    Found,
    Missing { message: Seq<char> },
    Descends { descends: bool },
    Count { count: usize },
}

impl View for DistanceAnswer {
    type V = DistanceAnswerView;

    open spec fn view(&self) -> DistanceAnswerView {
        match self {
            DistanceAnswer::Found => DistanceAnswerView::Found,
            DistanceAnswer::Missing { message } => DistanceAnswerView::Missing {
                message: message@,
            },
            DistanceAnswer::Descends { descends } => DistanceAnswerView::Descends {
                descends: *descends,
            },
            DistanceAnswer::Count { count } => DistanceAnswerView::Count { count: *count },
        }
    }
}

/// How far a comparison has come and, once a commit was missing, what git said
/// of it.
#[verifier::ext_equal]
pub struct ComparisonView {
    pub stage: DistanceStage,
    pub reason: Seq<char>,
}

/// The answer is one to the question of the stage, and a count is one that a
/// distance can hold.
pub open spec fn answers(stage: DistanceStage, answer: DistanceAnswerView) -> bool {
    match stage {
        DistanceStage::FindingFirst | DistanceStage::FindingSecond => answer is Found
            || answer is Missing,
        DistanceStage::AskingSecondAhead | DistanceStage::AskingFirstAhead { .. } =>
            answer is Descends,
        DistanceStage::CountingSecondAhead | DistanceStage::CountingFirstAhead =>
            answer matches DistanceAnswerView::Count { count } && count <= isize::MAX,
        _ => false,
    }
}

/// The stage that follows an answer.
pub open spec fn stage_after(stage: DistanceStage, answer: DistanceAnswerView) -> DistanceStage {
    match (stage, answer) {
        (DistanceStage::FindingFirst, DistanceAnswerView::Found) => DistanceStage::FindingSecond,
        (DistanceStage::FindingFirst, DistanceAnswerView::Missing { .. }) =>
            DistanceStage::MissingFirst,
        (DistanceStage::FindingSecond, DistanceAnswerView::Found) =>
            DistanceStage::AskingSecondAhead,
        (DistanceStage::FindingSecond, DistanceAnswerView::Missing { .. }) =>
            DistanceStage::MissingSecond,
        (DistanceStage::AskingSecondAhead, DistanceAnswerView::Descends { descends }) =>
            DistanceStage::AskingFirstAhead { second_ahead: descends },
        (
            DistanceStage::AskingFirstAhead { second_ahead },
            DistanceAnswerView::Descends { descends },
        ) => if second_ahead {
            DistanceStage::CountingSecondAhead
        } else if descends {
            DistanceStage::CountingFirstAhead
        } else {
            DistanceStage::Diverged
        },
        (DistanceStage::CountingSecondAhead, DistanceAnswerView::Count { count }) =>
            DistanceStage::Done { distance: (0 - count) as isize },
        (DistanceStage::CountingFirstAhead, DistanceAnswerView::Count { count }) =>
            DistanceStage::Done { distance: count as isize },
        _ => stage,
    }
}

/// How far a comparison has come with one more answer.
pub open spec fn comparison_after(
    comparison: ComparisonView,
    answer: DistanceAnswerView,
) -> ComparisonView {
    ComparisonView {
        stage: stage_after(comparison.stage, answer),
        reason: match answer {
            DistanceAnswerView::Missing { message } => message,
            _ => comparison.reason,
        },
    }
}

/// The comparison of two commits, under way. `reason` is what git said of a
/// commit that is missing.
#[derive(Debug)]
pub struct DistanceSearch {
    pub first: Commit,
    pub second: Commit,
    pub first_id: String,
    pub second_id: String,
    pub stage: DistanceStage,
    pub reason: String,
}

/// The step of a comparison.
pub open spec fn step_of(
    comparison: ComparisonView,
    first: Seq<char>,
    second: Seq<char>,
) -> DistanceStepView {
    match comparison.stage {
        DistanceStage::FindingFirst => DistanceStepView::Find { id: oid_of(first) },
        DistanceStage::FindingSecond => DistanceStepView::Find { id: oid_of(second) },
        DistanceStage::AskingSecondAhead => DistanceStepView::Descends {
            descendant: oid_of(second),
            ancestor: oid_of(first),
        },
        DistanceStage::AskingFirstAhead { .. } => DistanceStepView::Descends {
            descendant: oid_of(first),
            ancestor: oid_of(second),
        },
        DistanceStage::CountingSecondAhead => DistanceStepView::Count {
            ancestor: oid_of(first),
            descendant: oid_of(second),
        },
        DistanceStage::CountingFirstAhead => DistanceStepView::Count {
            ancestor: oid_of(second),
            descendant: oid_of(first),
        },
        DistanceStage::Done { distance } => DistanceStepView::Done { distance },
        DistanceStage::MissingFirst => DistanceStepView::Failed {
            error: GitErrorView::MissingCommit { commit: first, message: comparison.reason },
        },
        DistanceStage::MissingSecond => DistanceStepView::Failed {
            error: GitErrorView::MissingCommit { commit: second, message: comparison.reason },
        },
        DistanceStage::Diverged => DistanceStepView::Failed {
            error: GitErrorView::Diverged { first, second },
        },
    }
}

/// Where a comparison begins: equal commits are at distance zero.
pub open spec fn first_comparison(first: Seq<char>, second: Seq<char>) -> ComparisonView {
    ComparisonView {
        stage: if oid_of(first) == oid_of(second) {
            DistanceStage::Done { distance: 0 }
        } else {
            DistanceStage::FindingFirst
        },
        reason: Seq::empty(),
    }
}

/// The error for a commit that is not named by a hash.
pub open spec fn conversion(commit: Seq<char>) -> GitErrorView {
    GitErrorView::Conversion { commit, message: oid_refusal(commit) }
}

impl DistanceSearch {
    /// The ids are those of the commits.
    pub open spec fn well_formed(self) -> bool {
        &&& is_oid(self.first@)
        &&& is_oid(self.second@)
        &&& self.first_id@ == oid_of(self.first@)
        &&& self.second_id@ == oid_of(self.second@)
    }

    /// How far the comparison has come.
    pub open spec fn comparison(self) -> ComparisonView {
        ComparisonView { stage: self.stage, reason: self.reason@ }
    }

    /// Begins to compare two commits.
    pub fn new(first: &Commit, second: &Commit) -> (search: Result<DistanceSearch, GitError>)
        ensures
            match search {
                Ok(s) => {
                    &&& s.well_formed()
                    &&& s.first == *first
                    &&& s.second == *second
                    &&& s.comparison() == first_comparison(first@, second@)
                },
                Err(error) => if is_oid(first@) {
                    !is_oid(second@) && error@ == conversion(second@)
                } else {
                    error@ == conversion(first@)
                },
            },
    {
        let first_id = match first.oid() {
            Ok(id) => id,
            Err(error) => {
                return Err(error);
            },
        };
        let second_id = match second.oid() {
            Ok(id) => id,
            Err(error) => {
                return Err(error);
            },
        };
        let stage = if first_id == second_id {
            DistanceStage::Done { distance: 0 }
        } else {
            DistanceStage::FindingFirst
        };
        Ok(
            DistanceSearch {
                first: first.clone(),
                second: second.clone(),
                first_id,
                second_id,
                stage,
                reason: String::new(),
            },
        )
    }

    /// The question to ask, or the end.
    pub fn step(&self) -> (step: DistanceStep)
        requires
            self.well_formed(),
        ensures
            step@ == step_of(self.comparison(), self.first@, self.second@),
    {
        match self.stage {
            DistanceStage::FindingFirst => DistanceStep::Find { id: self.first_id.clone() },
            DistanceStage::FindingSecond => DistanceStep::Find { id: self.second_id.clone() },
            DistanceStage::AskingSecondAhead => DistanceStep::Descends {
                descendant: self.second_id.clone(),
                ancestor: self.first_id.clone(),
            },
            DistanceStage::AskingFirstAhead { .. } => DistanceStep::Descends {
                descendant: self.first_id.clone(),
                ancestor: self.second_id.clone(),
            },
            DistanceStage::CountingSecondAhead => DistanceStep::Count {
                ancestor: self.first_id.clone(),
                descendant: self.second_id.clone(),
            },
            DistanceStage::CountingFirstAhead => DistanceStep::Count {
                ancestor: self.second_id.clone(),
                descendant: self.first_id.clone(),
            },
            DistanceStage::Done { distance } => DistanceStep::Done { distance },
            DistanceStage::MissingFirst => DistanceStep::Failed {
                error: GitError::MissingCommit {
                    commit: self.first.to_string(),
                    message: self.reason.clone(),
                },
            },
            DistanceStage::MissingSecond => DistanceStep::Failed {
                error: GitError::MissingCommit {
                    commit: self.second.to_string(),
                    message: self.reason.clone(),
                },
            },
            DistanceStage::Diverged => DistanceStep::Failed {
                error: GitError::Diverged {
                    first: self.first.to_string(),
                    second: self.second.to_string(),
                },
            },
        }
    }

    /// Goes on with the answer to the question of the last step.
    pub fn advance(&mut self, answer: DistanceAnswer) -> (step: DistanceStep)
        requires
            old(self).well_formed(),
            answers(old(self).stage, answer@),
        ensures
            final(self).well_formed(),
            final(self).first == old(self).first,
            final(self).second == old(self).second,
            final(self).comparison() == comparison_after(old(self).comparison(), answer@),
            step@ == step_of(final(self).comparison(), old(self).first@, old(self).second@),
    {
        let next = match (self.stage, &answer) {
            (DistanceStage::FindingFirst, DistanceAnswer::Found) => DistanceStage::FindingSecond,
            (DistanceStage::FindingFirst, DistanceAnswer::Missing { .. }) =>
                DistanceStage::MissingFirst,
            (DistanceStage::FindingSecond, DistanceAnswer::Found) =>
                DistanceStage::AskingSecondAhead,
            (DistanceStage::FindingSecond, DistanceAnswer::Missing { .. }) =>
                DistanceStage::MissingSecond,
            (DistanceStage::AskingSecondAhead, DistanceAnswer::Descends { descends }) =>
                DistanceStage::AskingFirstAhead { second_ahead: *descends },
            (
                DistanceStage::AskingFirstAhead { second_ahead },
                DistanceAnswer::Descends { descends },
            ) => if second_ahead {
                DistanceStage::CountingSecondAhead
            } else if *descends {
                DistanceStage::CountingFirstAhead
            } else {
                DistanceStage::Diverged
            },
            (DistanceStage::CountingSecondAhead, DistanceAnswer::Count { count }) =>
                DistanceStage::Done { distance: -(*count as isize) },
            (DistanceStage::CountingFirstAhead, DistanceAnswer::Count { count }) =>
                DistanceStage::Done { distance: *count as isize },
            (stage, _) => stage,
        };
        self.stage = next;
        if let DistanceAnswer::Missing { message } = answer {
            self.reason = message;
        }
        self.step()
    }

    /// Where the two references stand, once their commits are compared: the first
    /// is the commit of test, the second that of prod.
    pub fn commits(self) -> (commits: Result<LatestCommits, GitError>)
        requires
            self.well_formed(),
            is_end(step_of(self.comparison(), self.first@, self.second@)),
        ensures
            match step_of(self.comparison(), self.first@, self.second@) {
                DistanceStepView::Done { distance } => commits == Ok::<LatestCommits, GitError>(
                    LatestCommits::Distance { test: self.first, prod: self.second, distance },
                ),
                DistanceStepView::Failed { error } => commits matches Err(e) && e@ == error,
                _ => false,
            },
    {
        let end = self.step();
        measured(self.first, self.second, end)
    }
}

/// The step is no question: the comparison is over.
pub open spec fn is_end(step: DistanceStepView) -> bool {
    step is Done || step is Failed
}

/// Where the two references stand, from the end of the comparison of their
/// commits, test with prod.
pub fn measured(test: Commit, prod: Commit, end: DistanceStep) -> (commits: Result<
    LatestCommits,
    GitError,
>)
    requires
        is_end(end@),
    ensures
        match end {
            DistanceStep::Done { distance } => commits == Ok::<LatestCommits, GitError>(
                LatestCommits::Distance { test, prod, distance },
            ),
            DistanceStep::Failed { error } => commits == Err::<LatestCommits, GitError>(error),
            _ => false,
        },
{
    match end {
        DistanceStep::Done { distance } => Ok(LatestCommits::new(test, prod, distance)),
        DistanceStep::Failed { error } => Err(error),
        _ => Err(GitError::NoCommits),
    }
}

/// What is known once both references were looked for.
#[derive(Debug)]
pub enum Resolution {
    /// One of them exists.
    Known { commits: LatestCommits },
    /// Both exist: their commits are still to be compared, test with prod.
    Both { search: DistanceSearch },
    /// Neither exists, or one that does is not named by a hash.
    Failed { error: GitError },
}

/// What is known of the two references.
pub fn resolve(test: Option<Commit>, prod: Option<Commit>) -> (resolution: Resolution)
    ensures
        match (test, prod) {
            (Some(t), Some(p)) => if !is_oid(t@) {
                resolution matches Resolution::Failed { error } && error@ == conversion(t@)
            } else if !is_oid(p@) {
                resolution matches Resolution::Failed { error } && error@ == conversion(p@)
            } else {
                &&& resolution matches Resolution::Both { search }
                &&& search.well_formed()
                &&& search.first == t
                &&& search.second == p
                &&& search.comparison() == first_comparison(t@, p@)
            },
            (Some(t), None) => resolution == (Resolution::Known {
                commits: LatestCommits::Test(t),
            }),
            (None, Some(p)) => resolution == (Resolution::Known {
                commits: LatestCommits::Prod(p),
            }),
            (None, None) => resolution matches Resolution::Failed { error } && error@
                is NoCommits,
        },
{
    match (test, prod) {
        (Some(test), Some(prod)) => match DistanceSearch::new(&test, &prod) {
            Ok(search) => Resolution::Both { search },
            Err(error) => Resolution::Failed { error },
        },
        (Some(test), None) => Resolution::Known { commits: LatestCommits::Test(test) },
        (None, Some(prod)) => Resolution::Known { commits: LatestCommits::Prod(prod) },
        (None, None) => Resolution::Failed { error: GitError::NoCommits },
    }
}

/// What a repository holds: which commits, what git says of one that is missing,
/// which of them descend from which, and how many commits lie between an
/// ancestor and a descendant.
pub struct CommitGraph {
    pub has: spec_fn(Seq<char>) -> bool,
    pub reason: spec_fn(Seq<char>) -> Seq<char>,
    pub descends: spec_fn(Seq<char>, Seq<char>) -> bool,
    pub between: spec_fn(Seq<char>, Seq<char>) -> nat,
}

impl CommitGraph {
    /// The graph has no cycle between the two, and a descendant has at least one
    /// commit, itself, that its ancestor has not. No count is beyond what a
    /// distance can hold.
    pub open spec fn consistent(self, first: Seq<char>, second: Seq<char>) -> bool {
        &&& !((self.descends)(first, second) && (self.descends)(second, first))
        &&& (self.descends)(first, second) ==> 1 <= (self.between)(second, first) <= isize::MAX
        &&& (self.descends)(second, first) ==> 1 <= (self.between)(first, second) <= isize::MAX
    }

    /// By how many commits `first` is ahead of `second`, where both are on one
    /// branch.
    pub open spec fn distance(self, first: Seq<char>, second: Seq<char>) -> Option<int> {
        if first == second {
            Some(0)
        } else if !(self.has)(first) || !(self.has)(second) {
            None
        } else if (self.descends)(second, first) {
            Some(-((self.between)(first, second) as int))
        } else if (self.descends)(first, second) {
            Some((self.between)(second, first) as int)
        } else {
            None
        }
    }

    /// The answer to the question whether there is such a commit.
    pub open spec fn found(self, id: Seq<char>) -> DistanceAnswerView {
        if (self.has)(id) {
            DistanceAnswerView::Found
        } else {
            DistanceAnswerView::Missing { message: (self.reason)(id) }
        }
    }

    /// The answer to the question of a stage.
    pub open spec fn answer(
        self,
        stage: DistanceStage,
        first: Seq<char>,
        second: Seq<char>,
    ) -> DistanceAnswerView {
        match stage {
            DistanceStage::FindingFirst => self.found(first),
            DistanceStage::FindingSecond => self.found(second),
            DistanceStage::AskingSecondAhead => DistanceAnswerView::Descends {
                descends: (self.descends)(second, first),
            },
            DistanceStage::AskingFirstAhead { .. } => DistanceAnswerView::Descends {
                descends: (self.descends)(first, second),
            },
            DistanceStage::CountingSecondAhead => DistanceAnswerView::Count {
                count: (self.between)(first, second) as usize,
            },
            _ => DistanceAnswerView::Count { count: (self.between)(second, first) as usize },
        }
    }

    /// How far a comparison has come after a number of answers.
    pub open spec fn comparison_at(
        self,
        comparison: ComparisonView,
        first: Seq<char>,
        second: Seq<char>,
        answered: nat,
    ) -> ComparisonView
        decreases answered,
    {
        if answered == 0 {
            comparison
        } else {
            let before = self.comparison_at(comparison, first, second, (answered - 1) as nat);
            comparison_after(before, self.answer(before.stage, first, second))
        }
    }

    /// The last step of the comparison of two commits.
    pub open spec fn end(self, first: Seq<char>, second: Seq<char>) -> DistanceStepView {
        let comparison = self.comparison_at(
            first_comparison(first, second),
            oid_of(first),
            oid_of(second),
            5,
        );
        step_of(comparison, first, second)
    }
}

/// A comparison is over after five answers at most. Given the answers of a
/// repository it ends with the distance of the two commits or, where they have
/// none, with the error that says why: the first of them that is missing, with
/// what git says of it, or that they have diverged.
pub proof fn lemma_comparison_finds_the_distance(
    graph: CommitGraph,
    first: Seq<char>,
    second: Seq<char>,
)
    requires
        graph.consistent(oid_of(first), oid_of(second)),
    ensures
        is_end(graph.end(first, second)),
        match graph.distance(oid_of(first), oid_of(second)) {
            Some(distance) => graph.end(first, second) matches DistanceStepView::Done { distance: d }
                && d == distance,
            None => graph.end(first, second) == (DistanceStepView::Failed {
                error: if !(graph.has)(oid_of(first)) {
                    GitErrorView::MissingCommit {
                        commit: first,
                        message: (graph.reason)(oid_of(first)),
                    }
                } else if !(graph.has)(oid_of(second)) {
                    GitErrorView::MissingCommit {
                        commit: second,
                        message: (graph.reason)(oid_of(second)),
                    }
                } else {
                    GitErrorView::Diverged { first, second }
                },
            }),
        },
{
    reveal_with_fuel(CommitGraph::comparison_at, 6);
}

/// The distance the other way round is the same with the opposite sign.
pub proof fn lemma_distance_is_antisymmetric(
    graph: CommitGraph,
    first: Seq<char>,
    second: Seq<char>,
)
    requires
        graph.consistent(first, second),
    ensures
        graph.distance(second, first) == (match graph.distance(first, second) {
            Some(distance) => Some(-distance),
            None => None,
        }),
{
}

/// A distance is positive exactly if the first commit descends from the second,
/// and zero exactly for one commit.
pub proof fn lemma_distance_tells_who_is_ahead(
    graph: CommitGraph,
    first: Seq<char>,
    second: Seq<char>,
    distance: int,
)
    requires
        graph.consistent(first, second),
        graph.distance(first, second) == Some(distance),
    ensures
        distance == 0 <==> first == second,
        first != second ==> (distance > 0 <==> (graph.descends)(first, second)),
        first != second ==> (distance < 0 <==> (graph.descends)(second, first)),
{
}

/// The repository is asked what it takes to know, and of the two commits that are
/// compared: the answer of each stage is the true answer to the question that the
/// stage asks.
pub proof fn lemma_questions_are_those_that_are_answered(
    graph: CommitGraph,
    comparison: ComparisonView,
    first: Seq<char>,
    second: Seq<char>,
)
    ensures
        ({
            let answer = graph.answer(comparison.stage, oid_of(first), oid_of(second));
            match step_of(comparison, first, second) {
                DistanceStepView::Find { id } => answer == (if (graph.has)(id) {
                    DistanceAnswerView::Found
                } else {
                    DistanceAnswerView::Missing { message: (graph.reason)(id) }
                }),
                DistanceStepView::Descends { descendant, ancestor } => answer == (
                DistanceAnswerView::Descends {
                    descends: (graph.descends)(descendant, ancestor),
                }),
                DistanceStepView::Count { ancestor, descendant } => answer == (
                DistanceAnswerView::Count {
                    count: (graph.between)(ancestor, descendant) as usize,
                }),
                _ => true,
            }
        }),
{
}

/// The comparison ends with zero for one and the same commit. Of two commits it ends
/// with the number of commits that lie between them, positive where the first
/// descends from the second and negative the other way round. It ends with an error
/// where neither does, or where one of them is missing.
pub proof fn lemma_comparison_counts_the_commits_between(
    graph: CommitGraph,
    first: Seq<char>,
    second: Seq<char>,
)
    requires
        graph.consistent(oid_of(first), oid_of(second)),
    ensures
        ({
            let a = oid_of(first);
            let b = oid_of(second);
            let end = graph.end(first, second);
            if a == b {
                end == (DistanceStepView::Done { distance: 0 })
            } else if !(graph.has)(a) {
                end == (DistanceStepView::Failed {
                    error: GitErrorView::MissingCommit {
                        commit: first,
                        message: (graph.reason)(a),
                    },
                })
            } else if !(graph.has)(b) {
                end == (DistanceStepView::Failed {
                    error: GitErrorView::MissingCommit {
                        commit: second,
                        message: (graph.reason)(b),
                    },
                })
            } else if (graph.descends)(a, b) {
                end matches DistanceStepView::Done { distance } && distance == (graph.between)(b, a)
            } else if (graph.descends)(b, a) {
                end matches DistanceStepView::Done { distance } && distance == -((graph.between)(
                    a,
                    b,
                ) as int)
            } else {
                end == (DistanceStepView::Failed {
                    error: GitErrorView::Diverged { first, second },
                })
            }
        }),
{
    lemma_comparison_finds_the_distance(graph, first, second);
}

/// An answer is awaited as long as the comparison asks, and none after its end.
pub proof fn lemma_end_awaits_no_answer(
    graph: CommitGraph,
    comparison: ComparisonView,
    first: Seq<char>,
    second: Seq<char>,
    answer: DistanceAnswerView,
)
    ensures
        step_of(comparison, first, second) is Done || step_of(comparison, first, second) is Failed
            ==> is_end(step_of(comparison, first, second)) && !answers(comparison.stage, answer),
        step_of(comparison, first, second) is Find ==> answers(
            comparison.stage,
            graph.answer(comparison.stage, oid_of(first), oid_of(second)),
        ),
        step_of(comparison, first, second) is Descends ==> answers(
            comparison.stage,
            graph.answer(comparison.stage, oid_of(first), oid_of(second)),
        ),
{
}

/// The error for a commit that is not named by a hash names that commit, with the
/// reason that git gives.
pub proof fn lemma_unnamed_commit_is_reported(commit: Seq<char>)
    ensures
        conversion(commit).text() == "Commit conversion failed on "@ + commit,
        conversion(commit).cause() == Some(oid_refusal(commit)),
{
}

/// What a step, an answer and a comparison say is what they hold.
pub proof fn lemma_comparison_says_what_it_holds(
    step: DistanceStep,
    answer: DistanceAnswer,
    search: DistanceSearch,
)
    ensures
        match step {
            DistanceStep::Find { id } => step@ == (DistanceStepView::Find { id: id@ }),
            DistanceStep::Descends { descendant, ancestor } => step@ == (
            DistanceStepView::Descends { descendant: descendant@, ancestor: ancestor@ }),
            DistanceStep::Count { ancestor, descendant } => step@ == (DistanceStepView::Count {
                ancestor: ancestor@,
                descendant: descendant@,
            }),
            DistanceStep::Done { distance } => step@ == (DistanceStepView::Done { distance }),
            DistanceStep::Failed { error } => step@ == (DistanceStepView::Failed {
                error: error@,
            }),
        },
        match answer {
            DistanceAnswer::Found => answer@ is Found,
            DistanceAnswer::Missing { message } => answer@ == (DistanceAnswerView::Missing {
                message: message@,
            }),
            DistanceAnswer::Descends { descends } => answer@ == (DistanceAnswerView::Descends {
                descends,
            }),
            DistanceAnswer::Count { count } => answer@ == (DistanceAnswerView::Count { count }),
        },
        search.comparison().stage == search.stage,
        search.comparison().reason == search.reason@,
{
}

/// Every answer to a question is awaited: a commit may be there or be missing, may
/// descend or not, and any number that a distance can hold may lie between two.
pub proof fn lemma_every_answer_is_awaited(
    message: Seq<char>,
    descends: bool,
    second_ahead: bool,
    count: usize,
)
    requires
        count <= isize::MAX,
    ensures
        answers(DistanceStage::FindingFirst, DistanceAnswerView::Found),
        answers(DistanceStage::FindingFirst, DistanceAnswerView::Missing { message }),
        answers(DistanceStage::FindingSecond, DistanceAnswerView::Found),
        answers(DistanceStage::FindingSecond, DistanceAnswerView::Missing { message }),
        answers(DistanceStage::AskingSecondAhead, DistanceAnswerView::Descends { descends }),
        answers(
            DistanceStage::AskingFirstAhead { second_ahead },
            DistanceAnswerView::Descends { descends },
        ),
        answers(DistanceStage::CountingSecondAhead, DistanceAnswerView::Count { count }),
        answers(DistanceStage::CountingFirstAhead, DistanceAnswerView::Count { count }),
{
}

/// A comparison is in order as long as its ids are those of its commits.
pub proof fn lemma_comparison_is_in_order(search: DistanceSearch)
    requires
        is_oid(search.first@),
        is_oid(search.second@),
        search.first_id@ == oid_of(search.first@),
        search.second_id@ == oid_of(search.second@),
    ensures
        search.well_formed(),
{
}

} // verus!
