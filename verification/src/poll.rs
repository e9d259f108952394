//! The daemon: it waits, loads the history, looks where the references stand,
//! deploys what is due, saves the outcome, and waits again.

use vstd::prelude::*;

use crate::config::Config;
use crate::deploy::{
    after_poll, concluded, decide, flake_at, DecisionView, DeployOrder, Deployed, DeployedView,
    Deployments, Environment, Poll, SaveOrder, ShouldDeploy,
};
use crate::flake::FlakeRefView;
use crate::git::{commit_of, Commit, LatestCommits};
use crate::metrics::{labels_view, last_deployment, remote_state, Label};
use crate::nix_commands::NixCommandError;
use crate::observability::{last_commit_labels, remote_state_labels, with_kind, DeploymentType};

verus! {

/// The time between polls.
#[derive(Debug)]
pub struct PollClock {
    pub interval_secs: u64,
    /// How long the last poll took; the interval before the first one.
    pub elapsed_secs: u64,
}

impl PollClock {
    /// The first poll is made at once.
    pub fn new(config: &Config) -> (clock: PollClock)
        ensures
            clock.interval_secs == config.poll_interval_secs,
            clock.elapsed_secs == config.poll_interval_secs,
    {
        PollClock {
            interval_secs: config.poll_interval_secs,
            elapsed_secs: config.poll_interval_secs,
        }
    }

    /// Seconds until the next poll: what the last one left of the interval.
    pub open spec fn wait(self) -> int {
        if self.elapsed_secs < self.interval_secs {
            self.interval_secs - self.elapsed_secs
        } else {
            0
        }
    }

    /// Seconds until the next poll.
    pub fn delay(&self) -> (seconds: u64)
        ensures
            seconds == self.wait(),
    {
        self.interval_secs.saturating_sub(self.elapsed_secs)
    }
}

/// From the start of a poll to the start of the next one passes the interval
/// or, where the poll took longer, the time that it took.
pub proof fn lemma_polls_are_an_interval_apart(clock: PollClock)
    ensures
        clock.elapsed_secs + clock.wait() == if clock.elapsed_secs > clock.interval_secs {
            clock.elapsed_secs as int
        } else {
            clock.interval_secs as int
        },
{
}

/// How far a poll has come.
#[derive(Debug)]
pub enum PollState {
    Waiting,
    Loading,
    Syncing { deployments: Deployments },
    FindingMain { deployments: Deployments, commits: LatestCommits },
    Deploying { action: ShouldDeploy },
    Saving { action: ShouldDeploy },
    Closing,
    /// The daemon has ended.
    Ended,
}

/// How far a poll has come, as text.
pub enum PollStateView {
    Waiting,
    Loading,
    Syncing { history: Seq<DeployedView> },
    FindingMain { history: Seq<DeployedView>, commits: LatestCommits },
    Deploying { decision: DecisionView },
    Saving { decision: DecisionView },
    Closing,
    Ended,
}

impl View for PollState {
    type V = PollStateView;

    open spec fn view(&self) -> PollStateView {
        match self {
            PollState::Waiting => PollStateView::Waiting,
            PollState::Loading => PollStateView::Loading,
            PollState::Syncing { deployments } => PollStateView::Syncing {
                history: deployments@,
            },
            PollState::FindingMain { deployments, commits } => PollStateView::FindingMain {
                history: deployments@,
                commits: *commits,
            },
            PollState::Deploying { action } => PollStateView::Deploying { decision: action@ },
            PollState::Saving { action } => PollStateView::Saving { decision: action@ },
            PollState::Closing => PollStateView::Closing,
            PollState::Ended => PollStateView::Ended,
        }
    }
}

/// What has happened since the last step.
#[derive(Debug)]
pub enum PollEvent {
    /// The time to wait is over.
    Awake,
    /// The history was read, or there is none.
    Loaded { saved: Option<Deployments> },
    /// The repository is up to date, and this is where the references stand.
    Synced { commits: LatestCommits },
    /// The main branch stands at this commit, if there is one.
    MainFound { commit: Option<Commit> },
    /// The deployment has ended.
    Deployed { result: Result<(), NixCommandError> },
    /// The history is saved, and a failure is reported.
    Saved,
    /// The poll is over; it took this long.
    Closed { elapsed_secs: u64 },
    /// The history could not be read or saved, a failure could not be reported,
    /// the references could not be looked up, or a webhook could not be called.
    Failed { message: String },
}

/// What has happened since the last step, as text.
pub enum PollEventView {
    Awake,
    Loaded { saved: Option<Seq<DeployedView>> },
    Synced { commits: LatestCommits },
    MainFound { commit: Option<Seq<char>> },
    Deployed { result: Result<(), NixCommandError> },
    Saved,
    Closed { elapsed_secs: u64 },
    Failed { message: Seq<char> },
}

impl View for PollEvent {
    type V = PollEventView;

    open spec fn view(&self) -> PollEventView {
        match self {
            PollEvent::Awake => PollEventView::Awake,
            PollEvent::Loaded { saved } => PollEventView::Loaded {
                saved: match saved {
                    Some(deployments) => Some(deployments@),
                    None => None,
                },
            },
            PollEvent::Synced { commits } => PollEventView::Synced { commits: *commits },
            PollEvent::MainFound { commit } => PollEventView::MainFound {
                commit: commit_of(*commit),
            },
            PollEvent::Deployed { result } => PollEventView::Deployed { result: *result },
            PollEvent::Saved => PollEventView::Saved,
            PollEvent::Closed { elapsed_secs } => PollEventView::Closed {
                elapsed_secs: *elapsed_secs,
            },
            PollEvent::Failed { message } => PollEventView::Failed { message: message@ },
        }
    }
}

/// What the metrics are set to before anything is deployed.
#[derive(Debug)]
pub struct Readings {
    /// Where the references stand; nothing where there is no main branch.
    pub remote: Option<Vec<Label>>,
    /// What was deployed last; nothing as long as nothing was.
    pub last: Option<Vec<Label>>,
}

/// What to do next.
#[derive(Debug)]
pub enum PollStep {
    /// Wait this long.
    Sleep { seconds: u64 },
    /// Read the history from this file.
    Load { path: String },
    /// Bring the repository up to date, and look where the references stand.
    Sync,
    /// Look where the main branch stands.
    FindMain,
    /// Set the metrics, then deploy.
    Deploy { readings: Readings, order: DeployOrder },
    /// Save the history, then report the failure, if there is one.
    Save { saving: SaveOrder },
    /// Set the metrics, call the webhook for what was deployed, and end the
    /// poll.
    Close { readings: Readings, deployed: Option<Deployed>, after: Option<Vec<Label>> },
    /// End with this error.
    Stop { message: String },
}

/// The labels of a metric that may be left alone.
pub open spec fn optional_labels(labels: Option<Vec<Label>>) -> Option<
    Seq<(Seq<char>, Seq<char>)>,
> {
    match labels {
        Some(l) => Some(labels_view(l@)),
        None => None,
    }
}

/// What the metrics are set to, as text.
pub struct ReadingsView {
    pub remote: Option<Seq<(Seq<char>, Seq<char>)>>,
    pub last: Option<Seq<(Seq<char>, Seq<char>)>>,
}

impl View for Readings {
    type V = ReadingsView;

    open spec fn view(&self) -> ReadingsView {
        ReadingsView { remote: optional_labels(self.remote), last: optional_labels(self.last) }
    }
}

/// What to do next, as text.
pub enum PollStepView {
    Sleep { seconds: int },
    Load { path: Seq<char> },
    Sync,
    FindMain,
    Deploy {
        readings: ReadingsView,
        environment: Environment,
        flake: FlakeRefView,
        hostname: Seq<char>,
    },
    Save { path: Seq<char>, report: Option<NixCommandError> },
    Close {
        readings: ReadingsView,
        deployed: Option<DeployedView>,
        after: Option<Seq<(Seq<char>, Seq<char>)>>,
    },
    Stop { message: Seq<char> },
}

impl View for PollStep {
    type V = PollStepView;

    open spec fn view(&self) -> PollStepView {
        match self {
            PollStep::Sleep { seconds } => PollStepView::Sleep { seconds: *seconds as int },
            PollStep::Load { path } => PollStepView::Load { path: path@ },
            PollStep::Sync => PollStepView::Sync,
            PollStep::FindMain => PollStepView::FindMain,
            PollStep::Deploy { readings, order } => PollStepView::Deploy {
                readings: readings@,
                environment: order.environment,
                flake: order.flake_ref@,
                hostname: order.hostname@,
            },
            PollStep::Save { saving } => PollStepView::Save {
                path: saving.path@,
                report: saving.report,
            },
            PollStep::Close { readings, deployed, after } => PollStepView::Close {
                readings: readings@,
                deployed: match deployed {
                    Some(entry) => Some(entry@),
                    None => None,
                },
                after: optional_labels(*after),
            },
            PollStep::Stop { message } => PollStepView::Stop { message: message@ },
        }
    }
}

/// The daemon between two steps.
#[derive(Debug)]
pub struct Daemon {
    pub clock: PollClock,
    pub kind: DeploymentType,
    pub state: PollState,
}

/// The labels of the latest entry of a history, if it has one.
pub open spec fn history_labels(
    history: Seq<DeployedView>,
    kind: DeploymentType,
) -> Option<Seq<(Seq<char>, Seq<char>)>> {
    if history.len() == 0 {
        None
    } else {
        match last_deployment(history.last()) {
            Some(labels) => Some(with_kind(labels, kind)),
            None => None,
        }
    }
}

/// What the metrics are set to, given what is known.
pub open spec fn readings_of(
    history: Seq<DeployedView>,
    commits: LatestCommits,
    main: Option<Seq<char>>,
    kind: DeploymentType,
) -> ReadingsView {
    ReadingsView {
        remote: match main {
            Some(commit) => Some(
                with_kind(remote_state(commit, commits.prod(), commits.test()), kind),
            ),
            None => None,
        },
        last: history_labels(history, kind),
    }
}

/// Metrics that are left alone.
pub open spec fn no_readings() -> ReadingsView {
    ReadingsView { remote: None, last: None }
}

/// The history that a decision leads to.
pub open spec fn decided_history(decision: DecisionView) -> Seq<DeployedView> {
    match decision {
        DecisionView::Deploy { deployments, .. } => deployments,
        DecisionView::Nothing => Seq::empty(),
    }
}

/// The event is one that the state waits for. Waiting, looking for the main
/// branch and deploying do not fail: a main branch may be missing, and a
/// deployment that fails is an outcome like any other. A daemon that has ended
/// waits for nothing.
pub open spec fn awaits(state: PollStateView, event: PollEventView) -> bool {
    match state {
        PollStateView::Waiting => event is Awake,
        PollStateView::Loading => event is Loaded || event is Failed,
        PollStateView::Syncing { .. } => event is Synced || event is Failed,
        PollStateView::FindingMain { .. } => event is MainFound,
        PollStateView::Deploying { .. } => event is Deployed,
        PollStateView::Saving { .. } => event is Saved || event is Failed,
        PollStateView::Closing => event is Closed || event is Failed,
        PollStateView::Ended => false,
    }
}

/// The state that follows an event.
pub open spec fn state_after(
    state: PollStateView,
    event: PollEventView,
    keep_last: nat,
) -> PollStateView {
    match (state, event) {
        (_, PollEventView::Failed { .. }) => PollStateView::Ended,
        (PollStateView::Waiting, PollEventView::Awake) => PollStateView::Loading,
        (PollStateView::Loading, PollEventView::Loaded { saved }) => PollStateView::Syncing {
            history: match saved {
                Some(history) => history,
                None => seq![DeployedView::Init],
            },
        },
        (PollStateView::Syncing { history }, PollEventView::Synced { commits }) =>
            PollStateView::FindingMain { history, commits },
        (PollStateView::FindingMain { history, commits }, PollEventView::MainFound { .. }) =>
            match decide(history, commits) {
                DecisionView::Nothing => PollStateView::Closing,
                decision => PollStateView::Deploying { decision },
            },
        (
            PollStateView::Deploying {
                decision: DecisionView::Deploy { environment, deployments, commit },
            },
            PollEventView::Deployed { result },
        ) => PollStateView::Saving {
            decision: DecisionView::Deploy {
                environment,
                deployments: concluded(deployments, result is Err, keep_last),
                commit,
            },
        },
        (PollStateView::Saving { .. }, PollEventView::Saved) => PollStateView::Closing,
        (PollStateView::Closing, PollEventView::Closed { .. }) => PollStateView::Waiting,
        _ => state,
    }
}

/// What to do after an event.
pub open spec fn step_after(
    state: PollStateView,
    event: PollEventView,
    config: Config,
    clock: PollClock,
    kind: DeploymentType,
) -> PollStepView {
    match (state, event) {
        (_, PollEventView::Failed { message }) => PollStepView::Stop { message },
        (PollStateView::Waiting, PollEventView::Awake) => PollStepView::Load {
            path: config.state_file(),
        },
        (PollStateView::Loading, _) => PollStepView::Sync,
        (PollStateView::Syncing { .. }, _) => PollStepView::FindMain,
        (PollStateView::FindingMain { history, commits }, PollEventView::MainFound { commit }) => {
            let readings = readings_of(history, commits, commit, kind);
            match decide(history, commits) {
                DecisionView::Nothing => PollStepView::Close {
                    readings,
                    deployed: None,
                    after: None,
                },
                DecisionView::Deploy { environment, commit, .. } => PollStepView::Deploy {
                    readings,
                    environment,
                    flake: flake_at(config, environment, commit),
                    hostname: config.hostname@,
                },
            }
        },
        (PollStateView::Deploying { .. }, PollEventView::Deployed { result }) =>
            PollStepView::Save {
                path: config.state_file(),
                report: match result {
                    Ok(_) => None,
                    Err(error) => Some(error),
                },
            },
        (PollStateView::Saving { decision }, _) => PollStepView::Close {
            readings: no_readings(),
            deployed: if decided_history(decision).len() > 0 {
                Some(decided_history(decision).last())
            } else {
                None
            },
            after: history_labels(decided_history(decision), kind),
        },
        _ => PollStepView::Sleep { seconds: clock.wait() },
    }
}

impl Daemon {
    /// What a state holds is what it needs: an attempt that is under way has its
    /// place in the history.
    pub open spec fn well_formed(self) -> bool {
        match self.state@ {
            PollStateView::Deploying { decision } => decision is Deploy && decided_history(
                decision,
            ).len() > 0,
            PollStateView::Saving { decision } => decision is Deploy,
            _ => true,
        }
    }

    /// A daemon that is about to poll for the first time, and the first step.
    pub fn new(config: &Config) -> (started: (Daemon, PollStep))
        ensures
            started.0.well_formed(),
            started.0.state@ == PollStateView::Waiting,
            started.0.clock.interval_secs == config.poll_interval_secs,
            started.0.clock.elapsed_secs == config.poll_interval_secs,
            started.0.kind == (if config.home_manager is Some {
                DeploymentType::HomeManager
            } else {
                DeploymentType::NixOS
            }),
            started.1@ == (PollStepView::Sleep { seconds: 0 }),
    {
        let clock = PollClock::new(config);
        let seconds: u64 = clock.delay();
        let kind = DeploymentType::of(config);
        (Daemon { clock, kind, state: PollState::Waiting }, PollStep::Sleep { seconds })
    }

    /// Goes on with what has happened since the last step.
    pub fn advance(self, config: &Config, event: PollEvent) -> (next: (Daemon, PollStep))
        requires
            self.well_formed(),
            awaits(self.state@, event@),
        ensures
            next.0.well_formed(),
            next.0.state@ == state_after(self.state@, event@, config.keep_last as nat),
            next.0.kind == self.kind,
            next.0.clock == (match event@ {
                PollEventView::Closed { elapsed_secs } => PollClock { elapsed_secs, ..self.clock },
                _ => self.clock,
            }),
            next.1@ == step_after(self.state@, event@, *config, next.0.clock, self.kind),
    {
        let kind = self.kind;
        let mut clock = self.clock;
        let (state, step) = match (self.state, event) {
            (_, PollEvent::Failed { message }) => (PollState::Ended, PollStep::Stop { message }),
            (PollState::Waiting, PollEvent::Awake) => (
                PollState::Loading,
                PollStep::Load { path: config.actual_state_path() },
            ),
            (PollState::Loading, PollEvent::Loaded { saved }) => {
                let deployments = match saved {
                    Some(deployments) => deployments,
                    None => Deployments::initial(),
                };
                (PollState::Syncing { deployments }, PollStep::Sync)
            },
            (PollState::Syncing { deployments }, PollEvent::Synced { commits }) => (
                PollState::FindingMain { deployments, commits },
                PollStep::FindMain,
            ),
            (PollState::FindingMain { deployments, commits }, PollEvent::MainFound { commit }) => {
                let readings = take_readings(&deployments, &commits, &commit, kind);
                let action = deployments.should_deploy(&commits);
                match action.run(config) {
                    Some(order) => (
                        PollState::Deploying { action },
                        PollStep::Deploy { readings, order },
                    ),
                    None => (
                        PollState::Closing,
                        PollStep::Close { readings, deployed: None, after: None },
                    ),
                }
            },
            (PollState::Deploying { action }, PollEvent::Deployed { result }) => {
                let mut action = action;
                match action.conclude(config, result) {
                    Some(order) => (PollState::Saving { action }, PollStep::Save { saving: order }),
                    None => (
                        PollState::Closing,
                        PollStep::Close {
                            readings: Readings { remote: None, last: None },
                            deployed: None,
                            after: None,
                        },
                    ),
                }
            },
            (PollState::Saving { action }, PollEvent::Saved) => {
                let (deployed, after) = match action.deployments() {
                    Some(deployments) => (
                        last_entry(deployments),
                        latest_labels(deployments, kind),
                    ),
                    None => (None, None),
                };
                (
                    PollState::Closing,
                    PollStep::Close {
                        readings: Readings { remote: None, last: None },
                        deployed,
                        after,
                    },
                )
            },
            (PollState::Closing, PollEvent::Closed { elapsed_secs }) => {
                clock.elapsed_secs = elapsed_secs;
                let seconds: u64 = clock.delay();
                (PollState::Waiting, PollStep::Sleep { seconds })
            },
            (state, _) => (state, PollStep::Sync),
        };
        (Daemon { clock, kind, state }, step)
    }

    /// The history to save.
    pub fn history(&self) -> (deployments: Option<&Deployments>)
        requires
            self.well_formed(),
        ensures
            match (deployments, self.state@) {
                (Some(d), PollStateView::Saving { decision }) => d@ == decided_history(decision),
                (None, PollStateView::Saving { .. }) => false,
                (Some(_), _) => false,
                (None, _) => true,
            },
    {
        match &self.state {
            PollState::Saving { action } => action.deployments(),
            _ => None,
        }
    }
}

fn last_entry(deployments: &Deployments) -> (entry: Option<Deployed>)
    ensures
        match entry {
            Some(e) => deployments@.len() > 0 && e@ == deployments@.last(),
            None => deployments@.len() == 0,
        },
{
    match deployments.last_deployment() {
        Some(entry) => Some(entry.clone()),
        None => None,
    }
}

fn latest_labels(deployments: &Deployments, kind: DeploymentType) -> (labels: Option<Vec<Label>>)
    ensures
        optional_labels(labels) == history_labels(deployments@, kind),
{
    match deployments.last_deployment() {
        Some(entry) => last_commit_labels(entry, kind),
        None => None,
    }
}

fn take_readings(
    deployments: &Deployments,
    commits: &LatestCommits,
    main: &Option<Commit>,
    kind: DeploymentType,
) -> (readings: Readings)
    ensures
        readings@ == readings_of(deployments@, *commits, commit_of(*main), kind),
{
    let remote = match main {
        Some(commit) => Some(
            remote_state_labels(commit, commits.get_prod(), commits.get_test(), kind),
        ),
        None => None,
    };
    Readings { remote, last: latest_labels(deployments, kind) }
}

/// One poll: from the history that was loaded, the references and the outcome of
/// what is deployed, it saves the history after that poll, and nothing is saved
/// where nothing is due.
pub proof fn lemma_poll_saves_its_outcome(
    history: Seq<DeployedView>,
    commits: LatestCommits,
    main: Option<Seq<char>>,
    result: Result<(), NixCommandError>,
    keep_last: nat,
)
    ensures
        ({
            let synced = state_after(
                PollStateView::Syncing { history },
                PollEventView::Synced { commits },
                keep_last,
            );
            let found = state_after(synced, PollEventView::MainFound { commit: main }, keep_last);
            let saving = state_after(found, PollEventView::Deployed { result }, keep_last);
            match decide(history, commits) {
                DecisionView::Nothing => found is Closing,
                DecisionView::Deploy { .. } => saving matches PollStateView::Saving { decision }
                    && decided_history(decision) == after_poll(
                    history,
                    Poll { commits, failed: result is Err },
                    keep_last,
                ),
            }
        }),
{
}

/// What is saved is what the next poll loads: both name one file.
pub proof fn lemma_saved_history_is_loaded_next(
    config: Config,
    clock: PollClock,
    kind: DeploymentType,
    decision: DecisionView,
    result: Result<(), NixCommandError>,
)
    ensures
        step_after(
            PollStateView::Deploying { decision },
            PollEventView::Deployed { result },
            config,
            clock,
            kind,
        ) matches PollStepView::Save { path: saved, .. } && step_after(
            PollStateView::Waiting,
            PollEventView::Awake,
            config,
            clock,
            kind,
        ) == (PollStepView::Load { path: saved }),
{
}

/// The order of a poll: every event but a failure leads on, and only a decision
/// not to deploy skips the deployment and the saving.
pub proof fn lemma_poll_goes_on(
    state: PollStateView,
    event: PollEventView,
    keep_last: nat,
)
    requires
        awaits(state, event),
        event !is Failed,
        state matches PollStateView::Deploying { decision } ==> decision is Deploy,
    ensures
        ({
            let next = state_after(state, event, keep_last);
            match state {
                PollStateView::Waiting => next is Loading,
                PollStateView::Loading => next is Syncing,
                PollStateView::Syncing { .. } => next is FindingMain,
                PollStateView::FindingMain { history, commits } => if decide(
                    history,
                    commits,
                ) is Nothing {
                    next is Closing
                } else {
                    next is Deploying
                },
                PollStateView::Deploying { .. } => next is Saving,
                PollStateView::Saving { .. } => next is Closing,
                PollStateView::Closing => next is Waiting,
                PollStateView::Ended => false,
            }
        }),
{
}

/// The daemon ends exactly if loading, syncing, saving or closing fails, and then
/// with that error; nothing happens after it, so that nothing is deployed. It
/// never ends otherwise: a deployment that fails is saved, and the daemon goes
/// on.
pub proof fn lemma_only_a_failure_ends_the_daemon(
    state: PollStateView,
    event: PollEventView,
    config: Config,
    clock: PollClock,
    kind: DeploymentType,
    keep_last: nat,
)
    requires
        awaits(state, event),
    ensures
        state_after(state, event, keep_last) is Ended <==> event is Failed,
        step_after(state, event, config, clock, kind) is Stop <==> event is Failed,
        event matches PollEventView::Failed { message } ==> step_after(
            state,
            event,
            config,
            clock,
            kind,
        ) == (PollStepView::Stop { message }),
        event is Failed ==> state is Loading || state is Syncing || state is Saving
            || state is Closing,
        forall|later: PollEventView| !#[trigger] awaits(PollStateView::Ended, later),
{
}

/// A poll begins where the history is saved, and a host without one begins with a
/// history that holds no attempt; a history that was saved is taken as it is.
pub proof fn lemma_poll_begins_with_the_saved_history(
    config: Config,
    clock: PollClock,
    kind: DeploymentType,
    saved: Seq<DeployedView>,
    keep_last: nat,
)
    ensures
        state_after(PollStateView::Waiting, PollEventView::Awake, keep_last) is Loading,
        step_after(PollStateView::Waiting, PollEventView::Awake, config, clock, kind) == (
        PollStepView::Load { path: config.state_file() }),
        state_after(
            PollStateView::Loading,
            PollEventView::Loaded { saved: Some(saved) },
            keep_last,
        ) == (PollStateView::Syncing { history: saved }),
        state_after(PollStateView::Loading, PollEventView::Loaded { saved: None }, keep_last) == (
        PollStateView::Syncing { history: seq![DeployedView::Init] }),
        forall|loaded: Option<Seq<DeployedView>>|
            (#[trigger] step_after(
                PollStateView::Loading,
                PollEventView::Loaded { saved: loaded },
                config,
                clock,
                kind,
            )) is Sync,
{
}

/// Once the references are known, the main branch is looked for, and neither the
/// history nor the references are changed by it.
pub proof fn lemma_references_are_kept_for_the_decision(
    config: Config,
    clock: PollClock,
    kind: DeploymentType,
    history: Seq<DeployedView>,
    commits: LatestCommits,
    keep_last: nat,
)
    ensures
        state_after(
            PollStateView::Syncing { history },
            PollEventView::Synced { commits },
            keep_last,
        ) == (PollStateView::FindingMain { history, commits }),
        step_after(
            PollStateView::Syncing { history },
            PollEventView::Synced { commits },
            config,
            clock,
            kind,
        ) is FindMain,
{
}

/// What is decided is carried out: the commit whose turn it is, to its environment,
/// from the configured repository, on the configured host; and nothing where nothing
/// is due. The metrics are set either way.
pub proof fn lemma_decision_is_carried_out(
    config: Config,
    clock: PollClock,
    kind: DeploymentType,
    history: Seq<DeployedView>,
    commits: LatestCommits,
    main: Option<Seq<char>>,
    keep_last: nat,
)
    ensures
        ({
            let state = PollStateView::FindingMain { history, commits };
            let event = PollEventView::MainFound { commit: main };
            let next = state_after(state, event, keep_last);
            match (decide(history, commits), step_after(state, event, config, clock, kind)) {
                (
                    DecisionView::Deploy { environment, deployments, commit },
                    PollStepView::Deploy { readings, environment: e, flake, hostname },
                ) => {
                    &&& e == environment
                    &&& flake.rev == Some(commit)
                    &&& flake.type_ == config.flake_repo.type_
                    &&& flake.repo == config.flake_repo.repo@
                    &&& config.flake_repo.host is None ==> flake.host is None
                    &&& config.flake_repo.host matches Some(host) ==> flake.host == Some(host@)
                    &&& hostname == config.hostname@
                    &&& readings == readings_of(history, commits, main, kind)
                    &&& next == (PollStateView::Deploying {
                        decision: DecisionView::Deploy { environment, deployments, commit },
                    })
                },
                (DecisionView::Nothing, PollStepView::Close { readings, deployed, after }) => {
                    &&& readings == readings_of(history, commits, main, kind)
                    &&& deployed is None
                    &&& after is None
                    &&& next is Closing
                },
                _ => false,
            }
        }),
{
}

/// However a deployment ends, its outcome is saved, and a failure is reported with
/// its error; a success is not reported.
pub proof fn lemma_outcome_is_saved_and_failures_reported(
    config: Config,
    clock: PollClock,
    kind: DeploymentType,
    environment: Environment,
    deployments: Seq<DeployedView>,
    commit: Seq<char>,
    result: Result<(), NixCommandError>,
    keep_last: nat,
)
    ensures
        ({
            let state = PollStateView::Deploying {
                decision: DecisionView::Deploy { environment, deployments, commit },
            };
            let event = PollEventView::Deployed { result };
            &&& state_after(state, event, keep_last) == (PollStateView::Saving {
                decision: DecisionView::Deploy {
                    environment,
                    deployments: concluded(deployments, result is Err, keep_last),
                    commit,
                },
            })
            &&& step_after(state, event, config, clock, kind) matches PollStepView::Save {
                path,
                report,
            } && path == config.state_file() && (result is Ok ==> report is None) && (
            result matches Err(error) ==> report == Some(error))
        }),
{
}

/// Once the outcome is saved, the metrics and the webhook are about the latest entry
/// of the saved history.
pub proof fn lemma_latest_entry_is_announced(
    config: Config,
    clock: PollClock,
    kind: DeploymentType,
    environment: Environment,
    saved: Seq<DeployedView>,
    commit: Seq<char>,
    keep_last: nat,
)
    requires
        saved.len() > 0,
    ensures
        ({
            let state = PollStateView::Saving {
                decision: DecisionView::Deploy { environment, deployments: saved, commit },
            };
            &&& state_after(state, PollEventView::Saved, keep_last) is Closing
            &&& step_after(state, PollEventView::Saved, config, clock, kind) matches
                PollStepView::Close { readings, deployed, after } && {
                &&& deployed == Some(saved.last())
                &&& readings.remote is None && readings.last is None
                &&& match last_deployment(saved.last()) {
                    Some(labels) => after == Some(with_kind(labels, kind)),
                    None => after is None,
                }
            }
            &&& decided_history(
                DecisionView::Deploy { environment, deployments: saved, commit },
            ) == saved
        }),
{
}

/// A poll that is over is followed by the wait for the next one: what is left of the
/// interval, or nothing.
pub proof fn lemma_next_poll_is_waited_for(
    config: Config,
    clock: PollClock,
    kind: DeploymentType,
    elapsed_secs: u64,
    keep_last: nat,
)
    ensures
        ({
            let event = PollEventView::Closed { elapsed_secs };
            &&& state_after(PollStateView::Closing, event, keep_last) is Waiting
            &&& step_after(PollStateView::Closing, event, config, clock, kind) matches
                PollStepView::Sleep { seconds } && {
                &&& seconds >= 0
                &&& seconds == 0 || seconds + clock.elapsed_secs == clock.interval_secs
                &&& seconds == 0 ==> clock.elapsed_secs >= clock.interval_secs
            }
        }),
{
}

/// The metrics tell where the references stand, under the commit of the main branch,
/// and what was deployed last; without a main branch they tell nothing of the
/// references, and without a deployment nothing of it.
pub proof fn lemma_metrics_tell_what_is_known(
    history: Seq<DeployedView>,
    commits: LatestCommits,
    main: Option<Seq<char>>,
    kind: DeploymentType,
)
    ensures
        ({
            let readings = readings_of(history, commits, main, kind);
            &&& main is None ==> readings.remote is None
            &&& main matches Some(commit) ==> readings.remote == Some(
                with_kind(remote_state(commit, commits.prod(), commits.test()), kind),
            )
            &&& history.len() == 0 ==> readings.last is None
            &&& history.len() > 0 ==> match last_deployment(history.last()) {
                Some(labels) => readings.last == Some(with_kind(labels, kind)),
                None => readings.last is None,
            }
        }),
        history.len() > 0 ==> history_labels(history, kind) == (match last_deployment(
            history.last(),
        ) {
            Some(labels) => Some(with_kind(labels, kind)),
            None => None,
        }),
        no_readings().remote is None && no_readings().last is None,
{
}

/// What a state, an event and a step say is what they hold.
pub proof fn lemma_poll_says_what_it_holds(
    state: PollState,
    event: PollEvent,
    step: PollStep,
    readings: Readings,
)
    ensures
        match state {
            PollState::Waiting => state@ is Waiting,
            PollState::Loading => state@ is Loading,
            PollState::Syncing { deployments } => state@ == (PollStateView::Syncing {
                history: deployments@,
            }),
            PollState::FindingMain { deployments, commits } => state@ == (
            PollStateView::FindingMain { history: deployments@, commits }),
            PollState::Deploying { action } => state@ == (PollStateView::Deploying {
                decision: action@,
            }),
            PollState::Saving { action } => state@ == (PollStateView::Saving {
                decision: action@,
            }),
            PollState::Closing => state@ is Closing,
            PollState::Ended => state@ is Ended,
        },
        match event {
            PollEvent::Awake => event@ is Awake,
            PollEvent::Loaded { saved: None } => event@ == (PollEventView::Loaded { saved: None }),
            PollEvent::Loaded { saved: Some(deployments) } => event@ == (PollEventView::Loaded {
                saved: Some(deployments@),
            }),
            PollEvent::Synced { commits } => event@ == (PollEventView::Synced { commits }),
            PollEvent::MainFound { commit: None } => event@ == (PollEventView::MainFound {
                commit: None,
            }),
            PollEvent::MainFound { commit: Some(c) } => event@ == (PollEventView::MainFound {
                commit: Some(c@),
            }),
            PollEvent::Deployed { result } => event@ == (PollEventView::Deployed { result }),
            PollEvent::Saved => event@ is Saved,
            PollEvent::Closed { elapsed_secs } => event@ == (PollEventView::Closed {
                elapsed_secs,
            }),
            PollEvent::Failed { message } => event@ == (PollEventView::Failed {
                message: message@,
            }),
        },
        match step {
            PollStep::Sleep { seconds } => step@ == (PollStepView::Sleep {
                seconds: seconds as int,
            }),
            PollStep::Load { path } => step@ == (PollStepView::Load { path: path@ }),
            PollStep::Sync => step@ is Sync,
            PollStep::FindMain => step@ is FindMain,
            PollStep::Deploy { readings: r, order } => step@ == (PollStepView::Deploy {
                readings: r@,
                environment: order.environment,
                flake: order.flake_ref@,
                hostname: order.hostname@,
            }),
            PollStep::Save { saving } => step@ == (PollStepView::Save {
                path: saving.path@,
                report: saving.report,
            }),
            PollStep::Close { readings: r, deployed, after } => {
                &&& step@ matches PollStepView::Close { readings: s, deployed: d, after: a }
                &&& s == r@
                &&& deployed is None ==> d is None
                &&& deployed matches Some(entry) ==> d == Some(entry@)
                &&& after is None ==> a is None
                &&& after matches Some(labels) ==> a == Some(labels_view(labels@))
            },
            PollStep::Stop { message } => step@ == (PollStepView::Stop { message: message@ }),
        },
        readings.remote is None ==> readings@.remote is None,
        readings.remote matches Some(labels) ==> readings@.remote == Some(labels_view(labels@)),
        readings.last is None ==> readings@.last is None,
        readings.last matches Some(labels) ==> readings@.last == Some(labels_view(labels@)),
{
}

/// Every outcome of a step is awaited, whatever it holds: loading, syncing, saving
/// and closing may succeed or fail, a deployment may end in any way, and a main
/// branch may be there or not. A daemon at the start or the end of a poll is in
/// order whatever was loaded.
pub proof fn lemma_every_outcome_is_awaited(
    saved: Option<Seq<DeployedView>>,
    history: Seq<DeployedView>,
    commits: LatestCommits,
    main: Option<Seq<char>>,
    decision: DecisionView,
    result: Result<(), NixCommandError>,
    elapsed_secs: u64,
    message: Seq<char>,
)
    ensures
        ({
            let failed = PollEventView::Failed { message };
            &&& awaits(PollStateView::Waiting, PollEventView::Awake)
            &&& awaits(PollStateView::Loading, PollEventView::Loaded { saved })
            &&& awaits(PollStateView::Loading, failed)
            &&& awaits(PollStateView::Syncing { history }, PollEventView::Synced { commits })
            &&& awaits(PollStateView::Syncing { history }, failed)
            &&& awaits(
                PollStateView::FindingMain { history, commits },
                PollEventView::MainFound { commit: main },
            )
            &&& awaits(PollStateView::Deploying { decision }, PollEventView::Deployed { result })
            &&& awaits(PollStateView::Saving { decision }, PollEventView::Saved)
            &&& awaits(PollStateView::Saving { decision }, failed)
            &&& awaits(PollStateView::Closing, PollEventView::Closed { elapsed_secs })
            &&& awaits(PollStateView::Closing, failed)
        }),
{
}

/// A daemon is in order in every state; only one that deploys or saves must have
/// something to deploy or save.
pub proof fn lemma_daemon_is_in_order(daemon: Daemon)
    ensures
        daemon.state@ !is Deploying && daemon.state@ !is Saving ==> daemon.well_formed(),
        daemon.state@ matches PollStateView::Saving {
            decision: DecisionView::Deploy { .. },
        } ==> daemon.well_formed(),
        daemon.state@ matches PollStateView::Deploying {
            decision: DecisionView::Deploy { deployments, .. },
        } ==> (deployments.len() > 0 ==> daemon.well_formed()),
{
}

} // verus!
