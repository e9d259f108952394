//! Which commit is deployed next, and the history that decides it.

use vstd::prelude::*;

use crate::config::Config;
use crate::distance::{
    lemma_comparison_finds_the_distance, lemma_distance_tells_who_is_ahead, CommitGraph,
    DistanceStepView,
};
use crate::flake::{environment_flake, FlakeRef, FlakeRefView};
use crate::git::{oid_of, Commit, LatestCommits};
use crate::nix_commands::NixCommandError;
use crate::text::optional_text;

verus! {

/// One entry of the history.
#[derive(Debug)]
pub enum Deployed {
    Init,
    TestAligned(Commit),
    ProdAligned(Commit),
    TestFailed(Commit),
    ProdFailed(Commit),
}

/// One entry of the history, as text.
pub enum DeployedView {
    Init,
    TestAligned(Seq<char>),
    ProdAligned(Seq<char>),
    TestFailed(Seq<char>),
    ProdFailed(Seq<char>),
}

impl View for Deployed {
    type V = DeployedView;

    open spec fn view(&self) -> DeployedView {
        match self {
            Deployed::Init => DeployedView::Init,
            Deployed::TestAligned(commit) => DeployedView::TestAligned(commit@),
            Deployed::ProdAligned(commit) => DeployedView::ProdAligned(commit@),
            Deployed::TestFailed(commit) => DeployedView::TestFailed(commit@),
            Deployed::ProdFailed(commit) => DeployedView::ProdFailed(commit@),
        }
    }
}

impl Clone for Deployed {
    fn clone(&self) -> (copy: Deployed)
        ensures
            copy == *self,
    {
        match self {
            Deployed::Init => Deployed::Init,
            Deployed::TestAligned(commit) => Deployed::TestAligned(commit.clone()),
            Deployed::ProdAligned(commit) => Deployed::ProdAligned(commit.clone()),
            Deployed::TestFailed(commit) => Deployed::TestFailed(commit.clone()),
            Deployed::ProdFailed(commit) => Deployed::ProdFailed(commit.clone()),
        }
    }
}

/// The two environments of a host.
#[derive(Debug, Clone, Copy, PartialEq, Eq, Structural)]
pub enum Environment {
    Test,
    Prod,
}

impl DeployedView {
    /// The commit that was tried in an environment, with success or not.
    pub open spec fn commit_for(self, environment: Environment) -> Option<Seq<char>> {
        match (environment, self) {
            (Environment::Test, DeployedView::TestAligned(commit)) => Some(commit),
            (Environment::Test, DeployedView::TestFailed(commit)) => Some(commit),
            (Environment::Prod, DeployedView::ProdAligned(commit)) => Some(commit),
            (Environment::Prod, DeployedView::ProdFailed(commit)) => Some(commit),
            _ => None,
        }
    }

    /// The same attempt, failed.
    pub open spec fn failed(self) -> DeployedView {
        match self {
            DeployedView::TestAligned(commit) => DeployedView::TestFailed(commit),
            DeployedView::ProdAligned(commit) => DeployedView::ProdFailed(commit),
            other => other,
        }
    }
}

/// The entry of a commit that is aligned with its reference.
pub open spec fn aligned(environment: Environment, commit: Seq<char>) -> DeployedView {
    match environment {
        Environment::Test => DeployedView::TestAligned(commit),
        Environment::Prod => DeployedView::ProdAligned(commit),
    }
}

impl Deployed {
    /// The commit that was tried as test, with success or not.
    pub fn test_commit(&self) -> (commit: Option<&Commit>)
        ensures
            match commit {
                Some(c) => self@.commit_for(Environment::Test) == Some(c@),
                None => self@.commit_for(Environment::Test) is None,
            },
    {
        match self {
            Deployed::Init | Deployed::ProdAligned(_) | Deployed::ProdFailed(_) => None,
            Deployed::TestAligned(commit) => Some(commit),
            Deployed::TestFailed(commit) => Some(commit),
        }
    }

    /// The commit that was tried as prod, with success or not.
    pub fn prod_commit(&self) -> (commit: Option<&Commit>)
        ensures
            match commit {
                Some(c) => self@.commit_for(Environment::Prod) == Some(c@),
                None => self@.commit_for(Environment::Prod) is None,
            },
    {
        match self {
            Deployed::Init | Deployed::TestAligned(_) | Deployed::TestFailed(_) => None,
            Deployed::ProdAligned(commit) => Some(commit),
            Deployed::ProdFailed(commit) => Some(commit),
        }
    }

    /// Whether another entry is an attempt at the same commit in the same
    /// environment.
    fn same_attempt(&self, other: &Deployed) -> (same: bool)
        ensures
            same == (attempt(self@) is Some && attempt(other@) == attempt(self@)),
    {
        match (self.test_commit(), other.test_commit()) {
            (Some(a), Some(b)) => a == b,
            _ => match (self.prod_commit(), other.prod_commit()) {
                (Some(a), Some(b)) => a == b,
                _ => false,
            },
        }
    }

    /// The same attempt, failed.
    pub fn failed(&self) -> (entry: Deployed)
        ensures
            entry@ == self@.failed(),
    {
        match self {
            Deployed::Init => self.clone(),
            Deployed::TestAligned(commit) => Deployed::TestFailed(commit.clone()),
            Deployed::ProdAligned(commit) => Deployed::ProdFailed(commit.clone()),
            Deployed::TestFailed(_) => self.clone(),
            Deployed::ProdFailed(_) => self.clone(),
        }
    }
}

/// The deployments that were tried, oldest first.
#[derive(Debug)]
pub struct Deployments {
    pub history: Vec<Deployed>,
}

impl View for Deployments {
    type V = Seq<DeployedView>;

    open spec fn view(&self) -> Seq<DeployedView> {
        self.history@.map_values(|entry: Deployed| entry@)
    }
}

/// The commit was tried in the environment before.
pub open spec fn tried(
    history: Seq<DeployedView>,
    environment: Environment,
    commit: Seq<char>,
) -> bool {
    exists|i: int| #[trigger] tried_at(history, environment, commit, i)
}

/// The entry at `i` is an attempt at the commit in the environment.
pub open spec fn tried_at(
    history: Seq<DeployedView>,
    environment: Environment,
    commit: Seq<char>,
    i: int,
) -> bool {
    0 <= i < history.len() && history[i].commit_for(environment) == Some(commit)
}

/// The environment whose turn it is, and its commit: where both references
/// exist, test if it is ahead, else prod.
pub open spec fn due(commits: LatestCommits) -> (Environment, Seq<char>) {
    match commits {
        LatestCommits::Test(commit) => (Environment::Test, commit@),
        LatestCommits::Prod(commit) => (Environment::Prod, commit@),
        LatestCommits::Distance { test, prod, distance } => if distance > 0 {
            (Environment::Test, test@)
        } else {
            (Environment::Prod, prod@)
        },
    }
}

/// The attempt that an entry records, if it records one.
pub open spec fn attempt(entry: DeployedView) -> Option<(Environment, Seq<char>)> {
    match entry {
        DeployedView::Init => None,
        DeployedView::TestAligned(commit) => Some((Environment::Test, commit)),
        DeployedView::TestFailed(commit) => Some((Environment::Test, commit)),
        DeployedView::ProdAligned(commit) => Some((Environment::Prod, commit)),
        DeployedView::ProdFailed(commit) => Some((Environment::Prod, commit)),
    }
}

/// The entry at `i` is the only trace that is left of its attempt: none of the
/// later entries is an attempt at the same commit in the same environment.
pub open spec fn needed(history: Seq<DeployedView>, i: int) -> bool {
    &&& attempt(history[i]) is Some
    &&& forall|j: int|
        i < j < history.len() ==> attempt(#[trigger] history[j]) != attempt(history[i])
}

/// Those of the first `n` entries that are needed.
pub open spec fn remembered(history: Seq<DeployedView>, n: int) -> Seq<DeployedView>
    decreases n,
{
    if n <= 0 {
        Seq::empty()
    } else if needed(history, n - 1) {
        remembered(history, n - 1).push(history[n - 1])
    } else {
        remembered(history, n - 1)
    }
}

/// The latest `keep_last` entries, and of the ones before them those without
/// which an attempt would be forgotten.
pub open spec fn trimmed(history: Seq<DeployedView>, keep_last: nat) -> Seq<DeployedView> {
    if history.len() > keep_last {
        remembered(history, history.len() - keep_last) + history.skip(history.len() - keep_last)
    } else {
        history
    }
}

/// The history once its last attempt has come to an end.
pub open spec fn concluded(
    history: Seq<DeployedView>,
    failed: bool,
    keep_last: nat,
) -> Seq<DeployedView> {
    if failed {
        trimmed(history.update(history.len() - 1, history.last().failed()), keep_last)
    } else {
        trimmed(history, keep_last)
    }
}

impl Deployments {
    /// The history of a host where nothing was saved.
    pub fn initial() -> (deployments: Deployments)
        ensures
            deployments@ == seq![DeployedView::Init],
            tried_once(deployments@),
    {
        let deployments = Deployments { history: vec![Deployed::Init] };
        assert(deployments@ == seq![DeployedView::Init]);
        deployments
    }

    /// The latest attempt.
    pub fn last_deployment(&self) -> (entry: Option<&Deployed>)
        ensures
            match entry {
                Some(e) => self@.len() > 0 && e@ == self@.last(),
                None => self@.len() == 0,
            },
    {
        self.history.last()
    }

    /// What to deploy, given where the references stand.
    pub fn should_deploy(&self, current_commits: &LatestCommits) -> (decision: ShouldDeploy)
        ensures
            decision@ == decide(self@, *current_commits),
    {
        match current_commits {
            LatestCommits::Test(commit) => self.deploy_to_test(commit),
            LatestCommits::Prod(commit) => self.deploy_to_prod(commit),
            LatestCommits::Distance { test, prod, distance } => {
                if *distance <= 0 {
                    self.deploy_to_prod(prod)
                } else {
                    self.deploy_to_test(test)
                }
            },
        }
    }

    fn deploy_to_test(&self, commit: &Commit) -> (decision: ShouldDeploy)
        ensures
            decision@ == decide_on(self@, Environment::Test, commit@),
    {
        if !self.contains_commit_test(commit) {
            ShouldDeploy::ToTest {
                deployments: self.add_test_deployment(commit),
                commit: commit.clone(),
            }
        } else {
            ShouldDeploy::Nothing
        }
    }

    fn deploy_to_prod(&self, commit: &Commit) -> (decision: ShouldDeploy)
        ensures
            decision@ == decide_on(self@, Environment::Prod, commit@),
    {
        if !self.contains_commit_prod(commit) {
            ShouldDeploy::ToProd {
                deployments: self.add_prod_deployment(commit),
                commit: commit.clone(),
            }
        } else {
            ShouldDeploy::Nothing
        }
    }

    /// The history with an attempt at test added.
    pub fn add_test_deployment(&self, commit: &Commit) -> (longer: Deployments)
        ensures
            longer@ == self@.push(DeployedView::TestAligned(commit@)),
    {
        let mut res = Deployments { history: self.history.clone() };
        res.history.push(Deployed::TestAligned(commit.clone()));
        assert(res@ == self@.push(DeployedView::TestAligned(commit@)));
        res
    }

    /// The history with an attempt at prod added.
    pub fn add_prod_deployment(&self, commit: &Commit) -> (longer: Deployments)
        ensures
            longer@ == self@.push(DeployedView::ProdAligned(commit@)),
    {
        let mut res = Deployments { history: self.history.clone() };
        res.history.push(Deployed::ProdAligned(commit.clone()));
        assert(res@ == self@.push(DeployedView::ProdAligned(commit@)));
        res
    }

    /// Whether the commit was tried as test before.
    pub fn contains_commit_test(&self, commit: &Commit) -> (found: bool)
        ensures
            found == tried(self@, Environment::Test, commit@),
    {
        let mut i: usize = 0;
        while i < self.history.len()
            invariant
                i <= self.history.len(),
                forall|j: int| 0 <= j < i ==> !tried_at(self@, Environment::Test, commit@, j),
            decreases self.history.len() - i,
        {
            assert(self@[i as int] == self.history@[i as int]@);
            if let Some(c) = self.history[i].test_commit() {
                if c == commit {
                    assert(tried_at(self@, Environment::Test, commit@, i as int));
                    return true;
                }
            }
            i = i + 1;
        }
        false
    }

    /// Whether the commit was tried as prod before.
    pub fn contains_commit_prod(&self, commit: &Commit) -> (found: bool)
        ensures
            found == tried(self@, Environment::Prod, commit@),
    {
        let mut i: usize = 0;
        while i < self.history.len()
            invariant
                i <= self.history.len(),
                forall|j: int| 0 <= j < i ==> !tried_at(self@, Environment::Prod, commit@, j),
            decreases self.history.len() - i,
        {
            assert(self@[i as int] == self.history@[i as int]@);
            if let Some(c) = self.history[i].prod_commit() {
                if c == commit {
                    assert(tried_at(self@, Environment::Prod, commit@, i as int));
                    return true;
                }
            }
            i = i + 1;
        }
        false
    }

    /// Marks the latest attempt as failed.
    pub fn set_last_failed(&mut self)
        requires
            old(self)@.len() > 0,
        ensures
            final(self)@ == old(self)@.update(
                old(self)@.len() - 1,
                old(self)@.last().failed(),
            ),
    {
        let ghost before = self@;
        let idx: usize = self.history.len() - 1;
        let entry = self.history[idx].failed();
        self.history.set(idx, entry);
        assert(self@ == before.update(before.len() - 1, before.last().failed()));
    }

    /// Whether the entry at `i` is the only trace that is left of its attempt.
    fn is_needed(&self, i: usize) -> (yes: bool)
        requires
            i < self@.len(),
        ensures
            yes == needed(self@, i as int),
    {
        let entry = &self.history[i];
        assert(self@[i as int] == entry@);
        if let Deployed::Init = entry {
            return false;
        }
        let count: usize = self.history.len();
        let mut j: usize = i + 1;
        while j < count
            invariant
                i < j <= count,
                count == self.history.len(),
                entry == self.history@[i as int],
                attempt(entry@) is Some,
                forall|k: int|
                    i < k < j ==> attempt(#[trigger] self@[k]) != attempt(self@[i as int]),
            decreases count - j,
        {
            assert(self@[j as int] == self.history@[j as int]@);
            if entry.same_attempt(&self.history[j]) {
                return false;
            }
            j = j + 1;
        }
        true
    }

    /// Drops what is older than the latest `keep_last` entries, except for the
    /// attempts that would be forgotten with it.
    pub fn trim_history(&mut self, keep_last: usize)
        ensures
            final(self)@ == trimmed(old(self)@, keep_last as nat),
            forall|environment: Environment, commit: Seq<char>| #[trigger]
                tried(final(self)@, environment, commit) <==> tried(
                    old(self)@,
                    environment,
                    commit,
                ),
    {
        let ghost before = self@;
        if self.history.len() > keep_last {
            let cut: usize = self.history.len() - keep_last;
            let mut kept = Deployments { history: Vec::new() };
            let mut i: usize = 0;
            assert(kept@ =~= remembered(before, 0));
            while i < cut
                invariant
                    i <= cut <= self.history.len(),
                    self@ == before,
                    kept@ == remembered(before, i as int),
                decreases cut - i,
            {
                if self.is_needed(i) {
                    let ghost so_far = kept@;
                    kept.history.push(self.history[i].clone());
                    assert(kept@ =~= so_far.push(before[i as int]));
                }
                i = i + 1;
            }
            while i < self.history.len()
                invariant
                    cut <= i <= self.history.len(),
                    self@ == before,
                    kept@ == remembered(before, cut as int) + before.subrange(
                        cut as int,
                        i as int,
                    ),
                decreases self.history.len() - i,
            {
                let ghost so_far = kept@;
                kept.history.push(self.history[i].clone());
                assert(kept@ =~= so_far.push(before[i as int]));
                assert(before.subrange(cut as int, i as int).push(before[i as int])
                    =~= before.subrange(cut as int, i + 1));
                i = i + 1;
            }
            assert(before.subrange(cut as int, before.len() as int) =~= before.skip(cut as int));
            self.history = kept.history;
        }
        proof {
            assert forall|environment: Environment, commit: Seq<char>| #[trigger]
                tried(self@, environment, commit) <==> tried(before, environment, commit) by {
                lemma_trimming_forgets_nothing(before, keep_last as nat, environment, commit);
            }
        }
    }
}

/// What to deploy.
#[derive(Debug)]
pub enum ShouldDeploy {
    Nothing,
    /// `deployments` is the history with the attempt already added.
    ToTest { deployments: Deployments, commit: Commit },
    ToProd { deployments: Deployments, commit: Commit },
}

/// What to deploy, as text.
pub enum DecisionView {
    Nothing,
    Deploy { environment: Environment, deployments: Seq<DeployedView>, commit: Seq<char> },
}

impl View for ShouldDeploy {
    type V = DecisionView;

    open spec fn view(&self) -> DecisionView {
        match self {
            ShouldDeploy::Nothing => DecisionView::Nothing,
            ShouldDeploy::ToTest { deployments, commit } => DecisionView::Deploy {
                environment: Environment::Test,
                deployments: deployments@,
                commit: commit@,
            },
            ShouldDeploy::ToProd { deployments, commit } => DecisionView::Deploy {
                environment: Environment::Prod,
                deployments: deployments@,
                commit: commit@,
            },
        }
    }
}

/// A commit is deployed to an environment unless it was tried there before.
pub open spec fn decide_on(
    history: Seq<DeployedView>,
    environment: Environment,
    commit: Seq<char>,
) -> DecisionView {
    if tried(history, environment, commit) {
        DecisionView::Nothing
    } else {
        DecisionView::Deploy {
            environment,
            deployments: history.push(aligned(environment, commit)),
            commit,
        }
    }
}

/// The decision on the commit whose turn it is.
pub open spec fn decide(history: Seq<DeployedView>, commits: LatestCommits) -> DecisionView {
    decide_on(history, due(commits).0, due(commits).1)
}

/// The deployment to carry out.
#[derive(Debug)]
pub struct DeployOrder {
    pub environment: Environment,
    pub flake_ref: FlakeRef,
    pub hostname: String,
}

/// What is left to do once a deployment has come to an end: save the history,
/// then report the failure, if there is one.
#[derive(Debug)]
pub struct SaveOrder {
    pub path: String,
    pub report: Option<NixCommandError>,
}

/// The flake of an environment at a commit.
pub open spec fn flake_at(
    config: Config,
    environment: Environment,
    commit: Seq<char>,
) -> FlakeRefView {
    let flake = match environment {
        Environment::Test => environment_flake(config.flake_repo, config.flake_repo.test_spec),
        Environment::Prod => environment_flake(config.flake_repo, config.flake_repo.prod_spec),
    };
    FlakeRefView { rev: Some(commit), ..flake }
}

impl ShouldDeploy {
    /// The history that the deployment leads to.
    pub fn deployments(&self) -> (deployments: Option<&Deployments>)
        ensures
            match (deployments, self@) {
                (Some(d), DecisionView::Deploy { deployments: expected, .. }) => d@ == expected,
                (None, DecisionView::Nothing) => true,
                _ => false,
            },
    {
        match self {
            ShouldDeploy::Nothing => None,
            ShouldDeploy::ToTest { deployments, commit: _ } => Some(deployments),
            ShouldDeploy::ToProd { deployments, commit: _ } => Some(deployments),
        }
    }

    /// The deployment to carry out, if any.
    pub fn run(&self, config: &Config) -> (order: Option<DeployOrder>)
        ensures
            match (order, self@) {
                (Some(o), DecisionView::Deploy { environment, commit, .. }) => {
                    &&& o.environment == environment
                    &&& o.flake_ref@ == flake_at(*config, environment, commit)
                    &&& o.flake_ref.type_ == config.flake_repo.type_
                    &&& o.flake_ref.repo@ == config.flake_repo.repo@
                    &&& optional_text(o.flake_ref.host) == optional_text(config.flake_repo.host)
                    &&& optional_text(o.flake_ref.rev) == Some(commit)
                    &&& o.hostname@ == config.hostname@
                },
                (None, DecisionView::Nothing) => true,
                _ => false,
            },
    {
        let (mut flake_test, mut flake_prod) = FlakeRef::from_config(&config.flake_repo);
        match self {
            ShouldDeploy::Nothing => None,
            ShouldDeploy::ToTest { deployments: _, commit } => {
                flake_test.update_rev(commit);
                Some(
                    DeployOrder {
                        environment: Environment::Test,
                        flake_ref: flake_test,
                        hostname: config.hostname.clone(),
                    },
                )
            },
            ShouldDeploy::ToProd { deployments: _, commit } => {
                flake_prod.update_rev(commit);
                Some(
                    DeployOrder {
                        environment: Environment::Prod,
                        flake_ref: flake_prod,
                        hostname: config.hostname.clone(),
                    },
                )
            },
        }
    }

    /// Records how the deployment ended, and says what is left to do.
    pub fn conclude(&mut self, config: &Config, result: Result<(), NixCommandError>) -> (order:
        Option<SaveOrder>)
        requires
            result is Err ==> match old(self)@ {
                DecisionView::Deploy { deployments, .. } => deployments.len() > 0,
                DecisionView::Nothing => true,
            },
        ensures
            final(self)@ == (match old(self)@ {
                DecisionView::Nothing => DecisionView::Nothing,
                DecisionView::Deploy { environment, deployments, commit } => DecisionView::Deploy {
                    environment,
                    deployments: concluded(deployments, result is Err, config.keep_last as nat),
                    commit,
                },
            }),
            match order {
                Some(o) => {
                    &&& old(self)@ is Deploy
                    &&& o.path@ == config.state_file()
                    &&& o.report == (match result {
                        Ok(_) => None,
                        Err(error) => Some(error),
                    })
                },
                None => old(self)@ is Nothing,
            },
    {
        match self {
            ShouldDeploy::Nothing => None,
            ShouldDeploy::ToTest { deployments, commit: _ } => Some(
                conclude_history(deployments, config, result),
            ),
            ShouldDeploy::ToProd { deployments, commit: _ } => Some(
                conclude_history(deployments, config, result),
            ),
        }
    }
}

fn conclude_history(
    deployments: &mut Deployments,
    config: &Config,
    result: Result<(), NixCommandError>,
) -> (order: SaveOrder)
    requires
        result is Err ==> old(deployments)@.len() > 0,
    ensures
        final(deployments)@ == concluded(
            old(deployments)@,
            result is Err,
            config.keep_last as nat,
        ),
        order.path@ == config.state_file(),
        order.report == (match result {
            Ok(_) => None,
            Err(error) => Some(error),
        }),
{
    let report = match result {
        Err(error) => {
            deployments.set_last_failed();
            Some(error)
        },
        Ok(()) => None,
    };
    deployments.trim_history(config.keep_last);
    SaveOrder { path: config.actual_state_path(), report }
}

/// A commit that was tried in its environment is never tried there again,
/// whether the attempt succeeded or failed.
pub proof fn lemma_tried_commit_is_left_alone(history: Seq<DeployedView>, commits: LatestCommits)
    requires
        tried(history, due(commits).0, due(commits).1),
    ensures
        decide(history, commits) is Nothing,
{
}

/// A commit that is new to its environment is deployed there, whatever happened
/// to others before it. The history is kept, with the attempt added at its end.
pub proof fn lemma_new_commit_is_deployed(history: Seq<DeployedView>, commits: LatestCommits)
    requires
        !tried(history, due(commits).0, due(commits).1),
    ensures
        decide(history, commits) matches DecisionView::Deploy { environment, deployments, commit }
            && (environment, commit) == due(commits) && deployments.drop_last() == history
            && deployments.last() == aligned(environment, commit),
{
    let (environment, commit) = due(commits);
    assert(history.push(aligned(environment, commit)).drop_last() == history);
}

/// Where both references exist, test is deployed only if it is ahead of prod,
/// and prod only if it is not behind test.
pub proof fn lemma_the_reference_ahead_is_deployed(
    history: Seq<DeployedView>,
    test: Commit,
    prod: Commit,
    distance: isize,
)
    ensures
        decide(history, LatestCommits::Distance { test, prod, distance }) matches
            DecisionView::Deploy { environment, commit, .. } ==> {
            &&& environment == Environment::Test <==> distance > 0
            &&& environment == Environment::Test ==> commit == test@
            &&& environment == Environment::Prod ==> commit == prod@
        },
{
}

/// Where the two references stand is measured by a comparison of test with prod.
/// Whatever the repository holds, test is deployed only where its commit descends
/// from that of prod, and prod only where that of test does not.
pub proof fn lemma_test_is_deployed_only_ahead_of_prod(
    graph: CommitGraph,
    history: Seq<DeployedView>,
    test: Commit,
    prod: Commit,
    distance: isize,
)
    requires
        graph.consistent(oid_of(test@), oid_of(prod@)),
        graph.end(test@, prod@) == (DistanceStepView::Done { distance }),
    ensures
        decide(history, LatestCommits::Distance { test, prod, distance }) matches
            DecisionView::Deploy { environment, .. } ==> match environment {
            Environment::Test => (graph.descends)(oid_of(test@), oid_of(prod@)),
            Environment::Prod => !(graph.descends)(oid_of(test@), oid_of(prod@)),
        },
{
    lemma_comparison_finds_the_distance(graph, test@, prod@);
    lemma_distance_tells_who_is_ahead(graph, oid_of(test@), oid_of(prod@), distance as int);
    lemma_the_reference_ahead_is_deployed(history, test, prod, distance);
}

/// Where only one reference exists, the other environment is left alone.
pub proof fn lemma_a_single_reference_is_deployed(history: Seq<DeployedView>, only: Commit)
    ensures
        decide(history, LatestCommits::Test(only)) == decide_on(
            history,
            Environment::Test,
            only@,
        ),
        decide(history, LatestCommits::Prod(only)) == decide_on(
            history,
            Environment::Prod,
            only@,
        ),
{
}

/// A failure is recorded once: it keeps the commit, and failing again changes
/// nothing.
pub proof fn lemma_failure_keeps_the_commit(entry: DeployedView, environment: Environment)
    ensures
        entry.failed().commit_for(environment) == entry.commit_for(environment),
        entry.failed().failed() == entry.failed(),
{
}

/// One poll: a decision and, where something is deployed, its outcome.
pub struct Poll {
    pub commits: LatestCommits,
    pub failed: bool,
}

/// The saved history after one poll.
pub open spec fn after_poll(
    history: Seq<DeployedView>,
    poll: Poll,
    keep_last: nat,
) -> Seq<DeployedView> {
    match decide(history, poll.commits) {
        DecisionView::Nothing => history,
        DecisionView::Deploy { deployments, .. } => concluded(deployments, poll.failed, keep_last),
    }
}

/// The saved history after a run of polls.
pub open spec fn after_polls(
    history: Seq<DeployedView>,
    polls: Seq<Poll>,
    keep_last: nat,
) -> Seq<DeployedView>
    decreases polls.len(),
{
    if polls.len() == 0 {
        history
    } else {
        after_poll(after_polls(history, polls.drop_last(), keep_last), polls.last(), keep_last)
    }
}

/// What is tried at an entry is its attempt.
proof fn lemma_tried_is_attempted(
    history: Seq<DeployedView>,
    environment: Environment,
    commit: Seq<char>,
    i: int,
)
    ensures
        tried_at(history, environment, commit, i) <==> 0 <= i < history.len() && attempt(
            history[i],
        ) == Some((environment, commit)),
{
}

/// Where the `k`th of the needed entries stood.
spec fn origin(history: Seq<DeployedView>, n: int, k: int) -> int
    decreases n,
{
    if n <= 0 {
        0
    } else if needed(history, n - 1) && k == remembered(history, n - 1).len() {
        n - 1
    } else {
        origin(history, n - 1, k)
    }
}

proof fn lemma_origin(history: Seq<DeployedView>, n: int, k: int)
    requires
        n <= history.len(),
        0 <= k < remembered(history, n).len(),
    ensures
        0 <= origin(history, n, k) < n,
        history[origin(history, n, k)] == remembered(history, n)[k],
    decreases n,
{
    if n > 0 && !(needed(history, n - 1) && k == remembered(history, n - 1).len()) {
        lemma_origin(history, n - 1, k);
    }
}

proof fn lemma_origins_are_in_order(history: Seq<DeployedView>, n: int, j: int, k: int)
    requires
        n <= history.len(),
        0 <= j < k < remembered(history, n).len(),
    ensures
        origin(history, n, j) < origin(history, n, k),
    decreases n,
{
    if n > 0 {
        if needed(history, n - 1) && k == remembered(history, n - 1).len() {
            lemma_origin(history, n - 1, j);
        } else {
            lemma_origins_are_in_order(history, n - 1, j, k);
        }
    }
}

proof fn lemma_needed_is_remembered(history: Seq<DeployedView>, n: int, i: int)
    requires
        0 <= i < n <= history.len(),
        needed(history, i),
    ensures
        exists|k: int|
            0 <= k < remembered(history, n).len() && #[trigger] remembered(history, n)[k]
                == history[i],
    decreases n,
{
    let shorter = remembered(history, n - 1);
    if i == n - 1 {
        assert(remembered(history, n)[shorter.len() as int] == history[i]);
    } else {
        lemma_needed_is_remembered(history, n - 1, i);
        let k = choose|k: int| 0 <= k < shorter.len() && #[trigger] shorter[k] == history[i];
        assert(remembered(history, n)[k] == history[i]);
    }
}

/// The last attempt at a commit is needed.
proof fn lemma_last_attempt(
    history: Seq<DeployedView>,
    environment: Environment,
    commit: Seq<char>,
    i: int,
) -> (last: int)
    requires
        tried_at(history, environment, commit, i),
    ensures
        i <= last < history.len(),
        tried_at(history, environment, commit, last),
        needed(history, last),
    decreases history.len() - i,
{
    lemma_tried_is_attempted(history, environment, commit, i);
    if exists|j: int|
        i < j < history.len() && attempt(#[trigger] history[j]) == attempt(history[i]) {
        let j = choose|j: int|
            i < j < history.len() && attempt(#[trigger] history[j]) == attempt(history[i]);
        lemma_tried_is_attempted(history, environment, commit, j);
        lemma_last_attempt(history, environment, commit, j)
    } else {
        i
    }
}

/// Trimming forgets no attempt and makes none up, however few entries it is told
/// to keep.
pub proof fn lemma_trimming_forgets_nothing(
    history: Seq<DeployedView>,
    keep_last: nat,
    environment: Environment,
    commit: Seq<char>,
)
    ensures
        tried(trimmed(history, keep_last), environment, commit) <==> tried(
            history,
            environment,
            commit,
        ),
{
    let kept = trimmed(history, keep_last);
    if history.len() > keep_last {
        let cut = history.len() - keep_last;
        let old = remembered(history, cut);
        if tried(history, environment, commit) {
            let i = choose|i: int| #[trigger] tried_at(history, environment, commit, i);
            let last = lemma_last_attempt(history, environment, commit, i);
            if last >= cut {
                assert(kept[old.len() + last - cut] == history[last]);
                assert(tried_at(kept, environment, commit, old.len() + last - cut));
            } else {
                lemma_needed_is_remembered(history, cut, last);
                let k = choose|k: int| 0 <= k < old.len() && #[trigger] old[k] == history[last];
                assert(kept[k] == old[k]);
                assert(tried_at(kept, environment, commit, k));
            }
        }
        if tried(kept, environment, commit) {
            let k = choose|k: int| #[trigger] tried_at(kept, environment, commit, k);
            let i = kept_from(history, keep_last, k);
            lemma_kept_from(history, keep_last, k);
            assert(tried_at(history, environment, commit, i));
        }
    }
}

/// Where the `k`th entry of a trimmed history stood.
spec fn kept_from(history: Seq<DeployedView>, keep_last: nat, k: int) -> int {
    if history.len() > keep_last {
        let cut = history.len() - keep_last;
        let old = remembered(history, cut);
        if k < old.len() {
            origin(history, cut, k)
        } else {
            cut + (k - old.len())
        }
    } else {
        k
    }
}

proof fn lemma_kept_from(history: Seq<DeployedView>, keep_last: nat, k: int)
    requires
        0 <= k < trimmed(history, keep_last).len(),
    ensures
        0 <= kept_from(history, keep_last, k) < history.len(),
        history[kept_from(history, keep_last, k)] == trimmed(history, keep_last)[k],
{
    if history.len() > keep_last {
        let cut = history.len() - keep_last;
        if k < remembered(history, cut).len() {
            lemma_origin(history, cut, k);
        }
    }
}

proof fn lemma_kept_in_order(history: Seq<DeployedView>, keep_last: nat, j: int, k: int)
    requires
        0 <= j < k < trimmed(history, keep_last).len(),
    ensures
        kept_from(history, keep_last, j) < kept_from(history, keep_last, k),
{
    if history.len() > keep_last {
        let cut = history.len() - keep_last;
        let old = remembered(history, cut);
        if k < old.len() {
            lemma_origins_are_in_order(history, cut, j, k);
        } else if j < old.len() {
            lemma_origin(history, cut, j);
        }
    }
}

/// Trimming keeps the latest `keep_last` entries as they are, at the end and in
/// their order.
pub proof fn lemma_trimming_keeps_the_latest(history: Seq<DeployedView>, keep_last: nat, i: int)
    requires
        0 <= i < history.len(),
        history.len() - i <= keep_last,
    ensures
        ({
            let kept = trimmed(history, keep_last);
            let at = kept.len() - (history.len() - i);
            0 <= at && kept[at] == history[i]
        }),
{
}

/// Trimming drops what it can: what it keeps beyond the latest `keep_last`
/// entries are attempts, each of which no later entry repeats.
pub proof fn lemma_trimming_drops_the_rest(history: Seq<DeployedView>, keep_last: nat, k: int)
    requires
        history.len() > keep_last,
        0 <= k < trimmed(history, keep_last).len() - keep_last,
    ensures
        needed(trimmed(history, keep_last), k),
{
    let kept = trimmed(history, keep_last);
    let i = kept_from(history, keep_last, k);
    let cut = history.len() - keep_last;
    lemma_kept_from(history, keep_last, k);
    lemma_origin_is_needed(history, cut, k);
    assert forall|j: int| k < j < kept.len() implies attempt(#[trigger] kept[j]) != attempt(
        kept[k],
    ) by {
        lemma_kept_from(history, keep_last, j);
        lemma_kept_in_order(history, keep_last, k, j);
        assert(history[kept_from(history, keep_last, j)] == kept[j]);
    }
}

proof fn lemma_origin_is_needed(history: Seq<DeployedView>, n: int, k: int)
    requires
        n <= history.len(),
        0 <= k < remembered(history, n).len(),
    ensures
        needed(history, origin(history, n, k)),
    decreases n,
{
    if n > 0 && !(needed(history, n - 1) && k == remembered(history, n - 1).len()) {
        lemma_origin_is_needed(history, n - 1, k);
    }
}

/// What an attempt in progress adds to a history, and how it ends, changes
/// nothing of what was tried before; the attempt itself counts from then on.
proof fn lemma_concluding_forgets_nothing(
    history: Seq<DeployedView>,
    failed: bool,
    keep_last: nat,
    environment: Environment,
    commit: Seq<char>,
)
    requires
        history.len() > 0,
        tried(history, environment, commit),
    ensures
        tried(concluded(history, failed, keep_last), environment, commit),
{
    let ended = if failed {
        history.update(history.len() - 1, history.last().failed())
    } else {
        history
    };
    let i = choose|i: int| #[trigger] tried_at(history, environment, commit, i);
    assert(tried_at(ended, environment, commit, i));
    lemma_trimming_forgets_nothing(ended, keep_last, environment, commit);
}

/// What a poll deploys is at the end of the saved history, as it ended.
pub proof fn lemma_outcome_is_saved(history: Seq<DeployedView>, poll: Poll, keep_last: nat)
    requires
        decide(history, poll.commits) is Deploy,
    ensures
        after_poll(history, poll, keep_last).len() > 0,
        after_poll(history, poll, keep_last).last() == (if poll.failed {
            aligned(due(poll.commits).0, due(poll.commits).1).failed()
        } else {
            aligned(due(poll.commits).0, due(poll.commits).1)
        }),
{
    let deployments = decide(history, poll.commits)->deployments;
    let ended = if poll.failed {
        deployments.update(deployments.len() - 1, deployments.last().failed())
    } else {
        deployments
    };
    let saved = trimmed(ended, keep_last);
    if keep_last == 0 {
        let n = ended.len() as int;
        assert(needed(ended, n - 1));
        assert(remembered(ended, n) == remembered(ended, n - 1).push(ended[n - 1]));
        assert(saved =~= remembered(ended, n));
    } else {
        lemma_trimming_keeps_the_latest(ended, keep_last, ended.len() - 1);
    }
}

/// The commit that a poll has processed is not deployed by the next poll, though
/// the daemon starts anew from the saved history.
pub proof fn lemma_processed_commit_is_not_redeployed(
    history: Seq<DeployedView>,
    poll: Poll,
    keep_last: nat,
)
    ensures
        decide(after_poll(history, poll, keep_last), poll.commits) is Nothing,
{
    if decide(history, poll.commits) is Deploy {
        lemma_outcome_is_saved(history, poll, keep_last);
        let saved = after_poll(history, poll, keep_last);
        assert(tried_at(saved, due(poll.commits).0, due(poll.commits).1, saved.len() - 1));
    }
}

/// A commit that was tried stays known and is never deployed to that environment
/// again, whatever polls follow and however few entries are kept.
pub proof fn lemma_tried_commit_stays_known(
    history: Seq<DeployedView>,
    polls: Seq<Poll>,
    keep_last: nat,
    environment: Environment,
    commit: Seq<char>,
)
    requires
        tried(history, environment, commit),
    ensures
        tried(after_polls(history, polls, keep_last), environment, commit),
        forall|commits: LatestCommits|
            due(commits) == (environment, commit) ==> (#[trigger] decide(
                after_polls(history, polls, keep_last),
                commits,
            )) is Nothing,
    decreases polls.len(),
{
    if polls.len() > 0 {
        let before = after_polls(history, polls.drop_last(), keep_last);
        lemma_tried_commit_stays_known(
            history,
            polls.drop_last(),
            keep_last,
            environment,
            commit,
        );
        let poll = polls.last();
        if let DecisionView::Deploy { deployments, .. } = decide(before, poll.commits) {
            let i = choose|i: int| #[trigger] tried_at(before, environment, commit, i);
            assert(deployments[i] == before[i]);
            assert(tried_at(deployments, environment, commit, i));
            lemma_concluding_forgets_nothing(
                deployments,
                poll.failed,
                keep_last,
                environment,
                commit,
            );
        }
    }
}

/// Of a run of polls, a commit that one has processed is deployed to that
/// environment by none of the later ones.
pub proof fn lemma_no_later_poll_redeploys(
    history: Seq<DeployedView>,
    polls: Seq<Poll>,
    keep_last: nat,
    i: int,
    j: int,
)
    requires
        0 <= i < j < polls.len(),
        due(polls[i].commits) == due(polls[j].commits),
    ensures
        decide(after_polls(history, polls.take(j), keep_last), polls[j].commits) is Nothing,
{
    let (environment, commit) = due(polls[i].commits);
    let first = polls.take(i + 1);
    let then = polls.subrange(i + 1, j);
    let before = after_polls(history, first.drop_last(), keep_last);
    let saved = after_polls(history, first, keep_last);
    assert(first.last() == polls[i]);
    lemma_processed_commit_is_not_redeployed(before, polls[i], keep_last);
    assert(tried(saved, environment, commit));
    lemma_tried_commit_stays_known(saved, then, keep_last, environment, commit);
    assert(first + then =~= polls.take(j));
    lemma_polls_follow_each_other(history, first, then, keep_last);
}

proof fn lemma_polls_follow_each_other(
    history: Seq<DeployedView>,
    first: Seq<Poll>,
    then: Seq<Poll>,
    keep_last: nat,
)
    ensures
        after_polls(history, first + then, keep_last) == after_polls(
            after_polls(history, first, keep_last),
            then,
            keep_last,
        ),
    decreases then.len(),
{
    if then.len() == 0 {
        assert(first + then =~= first);
    } else {
        assert((first + then).drop_last() =~= first + then.drop_last());
        lemma_polls_follow_each_other(history, first, then.drop_last(), keep_last);
    }
}

/// No commit was tried twice in one environment.
pub open spec fn tried_once(history: Seq<DeployedView>) -> bool {
    forall|i: int, j: int, environment: Environment, commit: Seq<char>|
        #![trigger tried_at(history, environment, commit, i), tried_at(history, environment, commit, j)]
        tried_at(history, environment, commit, i) && tried_at(history, environment, commit, j)
            ==> i == j
}

/// No run of polls ever puts a commit into the history twice for one
/// environment.
pub proof fn lemma_no_commit_is_tried_twice(
    history: Seq<DeployedView>,
    polls: Seq<Poll>,
    keep_last: nat,
)
    requires
        tried_once(history),
    ensures
        tried_once(after_polls(history, polls, keep_last)),
    decreases polls.len(),
{
    if polls.len() > 0 {
        let before = after_polls(history, polls.drop_last(), keep_last);
        lemma_no_commit_is_tried_twice(history, polls.drop_last(), keep_last);
        lemma_poll_tries_once(before, polls.last(), keep_last);
    }
}

proof fn lemma_poll_tries_once(history: Seq<DeployedView>, poll: Poll, keep_last: nat)
    requires
        tried_once(history),
    ensures
        tried_once(after_poll(history, poll, keep_last)),
{
    let saved = after_poll(history, poll, keep_last);
    if let DecisionView::Deploy { deployments, .. } = decide(history, poll.commits) {
        let ended = if poll.failed {
            deployments.update(deployments.len() - 1, deployments.last().failed())
        } else {
            deployments
        };
        assert forall|i: int, j: int, environment: Environment, commit: Seq<char>|
            #![trigger tried_at(saved, environment, commit, i), tried_at(saved, environment, commit, j)]
            tried_at(saved, environment, commit, i) && tried_at(
                saved,
                environment,
                commit,
                j,
            ) implies i == j by {
            lemma_kept_from(ended, keep_last, i);
            lemma_kept_from(ended, keep_last, j);
            let a = kept_from(ended, keep_last, i);
            let b = kept_from(ended, keep_last, j);
            if i < j {
                lemma_kept_in_order(ended, keep_last, i, j);
            } else if j < i {
                lemma_kept_in_order(ended, keep_last, j, i);
            }
            assert(ended[a].commit_for(environment) == deployments[a].commit_for(environment));
            assert(ended[b].commit_for(environment) == deployments[b].commit_for(environment));
            if a < history.len() {
                assert(tried_at(history, environment, commit, a));
            }
            if b < history.len() {
                assert(tried_at(history, environment, commit, b));
            }
        }
    }
}

/// A commit counts as tried in an environment exactly if the history holds an
/// attempt at it there, one that succeeded or one that failed.
pub proof fn lemma_attempts_count_whatever_their_outcome(
    history: Seq<DeployedView>,
    commit: Seq<char>,
)
    ensures
        tried(history, Environment::Test, commit) <==> history.contains(
            DeployedView::TestAligned(commit),
        ) || history.contains(DeployedView::TestFailed(commit)),
        tried(history, Environment::Prod, commit) <==> history.contains(
            DeployedView::ProdAligned(commit),
        ) || history.contains(DeployedView::ProdFailed(commit)),
{
    if tried(history, Environment::Test, commit) {
        let i = choose|i: int| #[trigger] tried_at(history, Environment::Test, commit, i);
        assert(history.contains(history[i]));
    }
    if tried(history, Environment::Prod, commit) {
        let i = choose|i: int| #[trigger] tried_at(history, Environment::Prod, commit, i);
        assert(history.contains(history[i]));
    }
    lemma_held_entry_is_tried(history, Environment::Test, DeployedView::TestAligned(commit));
    lemma_held_entry_is_tried(history, Environment::Test, DeployedView::TestFailed(commit));
    lemma_held_entry_is_tried(history, Environment::Prod, DeployedView::ProdAligned(commit));
    lemma_held_entry_is_tried(history, Environment::Prod, DeployedView::ProdFailed(commit));
}

proof fn lemma_held_entry_is_tried(
    history: Seq<DeployedView>,
    environment: Environment,
    entry: DeployedView,
)
    requires
        entry.commit_for(environment) is Some,
    ensures
        history.contains(entry) ==> tried(
            history,
            environment,
            entry.commit_for(environment).unwrap(),
        ),
{
    if history.contains(entry) {
        let i = choose|i: int| 0 <= i < history.len() && history[i] == entry;
        assert(tried_at(history, environment, entry.commit_for(environment).unwrap(), i));
    }
}

/// What is deployed: the one reference that exists or, of two, test where it is
/// ahead of prod and prod otherwise; but not a commit that the history holds an
/// attempt at in that environment. The history goes on with the new attempt.
pub proof fn lemma_due_commit_is_deployed_unless_tried(
    history: Seq<DeployedView>,
    test: Commit,
    prod: Commit,
    distance: isize,
)
    ensures
        ({
            let to_test = if history.contains(DeployedView::TestAligned(test@))
                || history.contains(DeployedView::TestFailed(test@)) {
                DecisionView::Nothing
            } else {
                DecisionView::Deploy {
                    environment: Environment::Test,
                    deployments: history.push(DeployedView::TestAligned(test@)),
                    commit: test@,
                }
            };
            let to_prod = if history.contains(DeployedView::ProdAligned(prod@))
                || history.contains(DeployedView::ProdFailed(prod@)) {
                DecisionView::Nothing
            } else {
                DecisionView::Deploy {
                    environment: Environment::Prod,
                    deployments: history.push(DeployedView::ProdAligned(prod@)),
                    commit: prod@,
                }
            };
            &&& decide(history, LatestCommits::Test(test)) == to_test
            &&& decide(history, LatestCommits::Prod(prod)) == to_prod
            &&& distance > 0 ==> decide(
                history,
                LatestCommits::Distance { test, prod, distance },
            ) == to_test
            &&& distance <= 0 ==> decide(
                history,
                LatestCommits::Distance { test, prod, distance },
            ) == to_prod
        }),
{
    lemma_attempts_count_whatever_their_outcome(history, test@);
    lemma_attempts_count_whatever_their_outcome(history, prod@);
}

/// What is ordered is the flake that is configured for the environment, pinned to
/// the commit: of the same kind and repository, on the same host, with the same
/// branch. It is fetched from where the repository was fetched from, and what nix
/// builds is that repository at the commit.
pub proof fn lemma_ordered_flake_is_the_configured_one(
    config: Config,
    environment: Environment,
    commit: Seq<char>,
)
    ensures
        ({
            let ordered = flake_at(config, environment, commit);
            let configured = match environment {
                Environment::Test => environment_flake(
                    config.flake_repo,
                    config.flake_repo.test_spec,
                ),
                Environment::Prod => environment_flake(
                    config.flake_repo,
                    config.flake_repo.prod_spec,
                ),
            };
            &&& ordered.rev == Some(commit)
            &&& ordered.type_ == config.flake_repo.type_
            &&& ordered.repo == config.flake_repo.repo@
            &&& config.flake_repo.host is None ==> ordered.host is None
            &&& config.flake_repo.host matches Some(host) ==> ordered.host == Some(host@)
            &&& ordered.ref_ == configured.ref_
            &&& ordered.git_fetch_url() == configured.git_fetch_url()
            &&& ordered.flake_url() == (FlakeRefView {
                rev: Some(commit),
                ..configured
            }).flake_url()
        }),
{
}

/// An entry names its environment and keeps its commit; failing changes its outcome
/// and nothing else.
pub proof fn lemma_entries_keep_environment_and_commit(commit: Seq<char>)
    ensures
        aligned(Environment::Test, commit) == DeployedView::TestAligned(commit),
        aligned(Environment::Prod, commit) == DeployedView::ProdAligned(commit),
        DeployedView::TestAligned(commit).failed() == DeployedView::TestFailed(commit),
        DeployedView::ProdAligned(commit).failed() == DeployedView::ProdFailed(commit),
        DeployedView::TestFailed(commit).failed() == DeployedView::TestFailed(commit),
        DeployedView::ProdFailed(commit).failed() == DeployedView::ProdFailed(commit),
        DeployedView::Init.failed() == DeployedView::Init,
        attempt(DeployedView::TestAligned(commit)) == Some((Environment::Test, commit)),
        attempt(DeployedView::TestFailed(commit)) == Some((Environment::Test, commit)),
        attempt(DeployedView::ProdAligned(commit)) == Some((Environment::Prod, commit)),
        attempt(DeployedView::ProdFailed(commit)) == Some((Environment::Prod, commit)),
        attempt(DeployedView::Init) is None,
        forall|entry: DeployedView, environment: Environment| #[trigger]
            entry.commit_for(environment) == (match attempt(entry) {
                Some((e, c)) => if e == environment {
                    Some(c)
                } else {
                    None
                },
                None => None,
            }),
{
}

/// How an attempt ended is recorded in its own entry. As long as the history is not
/// longer than what is kept, nothing else changes.
pub proof fn lemma_outcome_is_recorded_in_its_entry(
    history: Seq<DeployedView>,
    commit: Seq<char>,
    keep_last: nat,
)
    requires
        history.len() < keep_last,
    ensures
        ({
            let to_test = history.push(DeployedView::TestAligned(commit));
            let to_prod = history.push(DeployedView::ProdAligned(commit));
            &&& concluded(to_test, false, keep_last) == to_test
            &&& concluded(to_prod, false, keep_last) == to_prod
            &&& concluded(to_test, true, keep_last) == history.push(
                DeployedView::TestFailed(commit),
            )
            &&& concluded(to_prod, true, keep_last) == history.push(
                DeployedView::ProdFailed(commit),
            )
        }),
{
    let to_test = history.push(DeployedView::TestAligned(commit));
    let to_prod = history.push(DeployedView::ProdAligned(commit));
    assert(to_test.update(to_test.len() - 1, DeployedView::TestFailed(commit)) =~= history.push(
        DeployedView::TestFailed(commit),
    ));
    assert(to_prod.update(to_prod.len() - 1, DeployedView::ProdFailed(commit)) =~= history.push(
        DeployedView::ProdFailed(commit),
    ));
}

/// A longer history is trimmed after the outcome is recorded, and only then.
pub proof fn lemma_outcome_is_recorded_before_trimming(
    history: Seq<DeployedView>,
    keep_last: nat,
)
    requires
        history.len() > 0,
    ensures
        concluded(history, false, keep_last) == trimmed(history, keep_last),
        concluded(history, true, keep_last) == trimmed(
            history.drop_last().push(history.last().failed()),
            keep_last,
        ),
{
    assert(history.update(history.len() - 1, history.last().failed()) =~= history.drop_last().push(
        history.last().failed(),
    ));
}

/// What a trimmed history holds: entries of the history in their order. Of the
/// latest `keep_last` it holds all; of an older one exactly if it is an attempt that
/// no later entry repeats.
pub proof fn lemma_trimming_keeps_the_latest_and_the_last_attempts(
    history: Seq<DeployedView>,
    keep_last: nat,
) -> (from: Seq<int>)
    ensures
        from.len() == trimmed(history, keep_last).len(),
        forall|k: int|
            0 <= k < from.len() ==> 0 <= #[trigger] from[k] < history.len() && trimmed(
                history,
                keep_last,
            )[k] == history[from[k]],
        forall|j: int, k: int| 0 <= j < k < from.len() ==> from[j] < from[k],
        forall|i: int|
            0 <= i < history.len() ==> (#[trigger] from.contains(i) <==> history.len() - i
                <= keep_last || (attempt(history[i]) is Some && forall|j: int|
                i < j < history.len() ==> attempt(#[trigger] history[j]) != attempt(history[i]))),
{
    let kept = trimmed(history, keep_last);
    let from = Seq::new(kept.len(), |k: int| kept_from(history, keep_last, k));
    assert forall|k: int| 0 <= k < from.len() implies 0 <= #[trigger] from[k] < history.len()
        && kept[k] == history[from[k]] by {
        lemma_kept_from(history, keep_last, k);
    }
    assert forall|j: int, k: int| 0 <= j < k < from.len() implies from[j] < from[k] by {
        lemma_kept_in_order(history, keep_last, j, k);
    }
    assert forall|i: int| 0 <= i < history.len() implies (#[trigger] from.contains(i)
        <==> history.len() - i <= keep_last || needed(history, i)) by {
        if history.len() <= keep_last {
            assert(from[i] == i);
        } else {
            let cut = history.len() - keep_last;
            let old = remembered(history, cut);
            if i >= cut {
                assert(from[old.len() + i - cut] == i);
            } else if needed(history, i) {
                let k = lemma_needed_has_its_place(history, cut, i);
                assert(from[k] == i);
            } else if from.contains(i) {
                let k = choose|k: int| 0 <= k < from.len() && from[k] == i;
                if k < old.len() {
                    lemma_origin_is_needed(history, cut, k);
                }
            }
        }
    }
    from
}

proof fn lemma_needed_has_its_place(history: Seq<DeployedView>, n: int, i: int) -> (k: int)
    requires
        0 <= i < n <= history.len(),
        needed(history, i),
    ensures
        0 <= k < remembered(history, n).len(),
        origin(history, n, k) == i,
    decreases n,
{
    if i == n - 1 {
        remembered(history, n - 1).len() as int
    } else {
        lemma_needed_has_its_place(history, n - 1, i)
    }
}

/// What a history and a decision say is what they hold.
pub proof fn lemma_history_says_what_it_holds(deployments: Deployments, commit: Commit)
    ensures
        deployments@.len() == deployments.history@.len(),
        forall|i: int|
            0 <= i < deployments@.len() ==> #[trigger] deployments@[i]
                == deployments.history@[i]@,
        Deployed::Init@ == DeployedView::Init,
        Deployed::TestAligned(commit)@ == DeployedView::TestAligned(commit@),
        Deployed::ProdAligned(commit)@ == DeployedView::ProdAligned(commit@),
        Deployed::TestFailed(commit)@ == DeployedView::TestFailed(commit@),
        Deployed::ProdFailed(commit)@ == DeployedView::ProdFailed(commit@),
        ShouldDeploy::Nothing@ is Nothing,
        (ShouldDeploy::ToTest { deployments, commit })@ == (DecisionView::Deploy {
            environment: Environment::Test,
            deployments: deployments@,
            commit: commit@,
        }),
        (ShouldDeploy::ToProd { deployments, commit })@ == (DecisionView::Deploy {
            environment: Environment::Prod,
            deployments: deployments@,
            commit: commit@,
        }),
{
}

} // verus!
