//! Deployments: the commands that build a system and switch to it, decided
//! step by step from what the commands print.

use vstd::prelude::*;

use crate::config::Config;
use crate::flake::{FlakeError, FlakeRef, FlakeRefView};
use crate::text::{
    ascii_trimmed, begins_with, decimal, decimal_digits, joined,
    lemma_decimal_stands_for_its_number, lines, lossy_text, read_lossy, split_lines, texts,
    trim_ascii,
};

verus! {

/// Why a deployment failed.
#[derive(Debug)]
pub enum NixCommandError {
    Build { hostname: String, stderr: String, stdout: String },
    Execution { message: String },
    Switch { hostname: String, stderr: String, stdout: String },
}

/// What a failure says.
pub enum NixCommandErrorView {
    Build { hostname: Seq<char>, stderr: Seq<char>, stdout: Seq<char> },
    Execution { message: Seq<char> },
    Switch { hostname: Seq<char>, stderr: Seq<char>, stdout: Seq<char> },
}

impl View for NixCommandError {
    type V = NixCommandErrorView;

    open spec fn view(&self) -> NixCommandErrorView {
        match self {
            NixCommandError::Build { hostname, stderr, stdout } => NixCommandErrorView::Build {
                hostname: hostname@,
                stderr: stderr@,
                stdout: stdout@,
            },
            NixCommandError::Execution { message } => NixCommandErrorView::Execution {
                message: message@,
            },
            NixCommandError::Switch { hostname, stderr, stdout } => NixCommandErrorView::Switch {
                hostname: hostname@,
                stderr: stderr@,
                stdout: stdout@,
            },
        }
    }
}

/// The output of a failed command, as it is reported.
pub open spec fn output_text(
    hostname: Seq<char>,
    stdout: Seq<char>,
    stderr: Seq<char>,
) -> Seq<char> {
    hostname + "\nstdout: "@ + stdout + "\nstderr: "@ + stderr
}

impl NixCommandErrorView {
    /// What is reported to the operator.
    pub open spec fn text(self) -> Seq<char> {
        match self {
            NixCommandErrorView::Build { hostname, stderr, stdout } => "Build failed: "@
                + output_text(hostname, stdout, stderr),
            NixCommandErrorView::Execution { message } => "Execution failed: "@ + message,
            NixCommandErrorView::Switch { hostname, stderr, stdout } => "Switch failed: "@
                + output_text(hostname, stdout, stderr),
        }
    }
}

/// The report of the latest failure.
pub open spec fn last_report_file(app_dir: Seq<char>) -> Seq<char> {
    app_dir + "/last_report.json"@
}

/// The report of a failure that a later one has followed, set aside at
/// `seconds` after the Unix epoch.
pub open spec fn dated_report_file(app_dir: Seq<char>, seconds: nat) -> Seq<char> {
    app_dir + "/"@ + decimal(seconds) + "_report.json"@
}

/// How a report is put on disk.
#[derive(Debug)]
pub struct ReportPlan {
    /// Where to move the report that is there already.
    pub set_aside: Option<String>,
    /// Where to write the new report.
    pub write_to: String,
}

impl NixCommandError {
    /// A failure to run a command at all.
    pub fn to_execution(error: &str) -> (failure: NixCommandError)
        ensures
            failure@ == (NixCommandErrorView::Execution { message: error@ }),
    {
        NixCommandError::Execution { message: error.to_owned() }
    }

    /// What is reported to the operator.
    pub fn to_string(&self) -> (message: String)
        ensures
            message@ == self@.text(),
    {
        match self {
            NixCommandError::Build { hostname, stderr, stdout } => joined(
                "Build failed: ",
                output_report(hostname, stdout, stderr).as_str(),
            ),
            NixCommandError::Execution { message } => joined(
                "Execution failed: ",
                message.as_str(),
            ),
            NixCommandError::Switch { hostname, stderr, stdout } => joined(
                "Switch failed: ",
                output_report(hostname, stdout, stderr).as_str(),
            ),
        }
    }

    /// The report of the latest failure.
    pub fn last_error_path(config: &Config) -> (path: String)
        ensures
            path@ == last_report_file(config.app_dir@),
    {
        joined(config.app_dir.as_str(), "/last_report.json")
    }

    /// The report of an earlier failure, set aside at `now` seconds after the
    /// Unix epoch.
    pub fn error_path(config: &Config, now: u64) -> (path: String)
        ensures
            path@ == dated_report_file(config.app_dir@, now as nat),
    {
        let mut path: String = config.app_dir.clone();
        path.append("/");
        path.append(decimal_digits(now).as_str());
        path.append("_report.json");
        path
    }

    /// How a report is put on disk at `now`: the report of an earlier failure,
    /// if `last_exists`, is set aside under its date first.
    pub fn report_plan(config: &Config, last_exists: bool, now: u64) -> (plan: ReportPlan)
        ensures
            plan.write_to@ == last_report_file(config.app_dir@),
            match plan.set_aside {
                Some(path) => last_exists && path@ == dated_report_file(
                    config.app_dir@,
                    now as nat,
                ),
                None => !last_exists,
            },
    {
        let set_aside = if last_exists {
            Some(NixCommandError::error_path(config, now))
        } else {
            None
        };
        ReportPlan { set_aside, write_to: NixCommandError::last_error_path(config) }
    }
}

fn output_report(hostname: &String, stdout: &String, stderr: &String) -> (text: String)
    ensures
        text@ == output_text(hostname@, stdout@, stderr@),
{
    let mut text: String = hostname.clone();
    text.append("\nstdout: ");
    text.append(stdout.as_str());
    text.append("\nstderr: ");
    text.append(stderr.as_str());
    text
}

/// Setting a report aside never overwrites it with itself: the two files are
/// distinct at every date.
pub proof fn lemma_dated_report_is_another_file(app_dir: Seq<char>, seconds: nat)
    ensures
        dated_report_file(app_dir, seconds) != last_report_file(app_dir),
{
    reveal_strlit("/");
    reveal_strlit("/last_report.json");
    lemma_decimal_begins_with_a_digit(seconds);
    let at = app_dir.len() as int + 1;
    assert(dated_report_file(app_dir, seconds)[at] == decimal(seconds)[0]);
    assert(last_report_file(app_dir)[at] == 'l');
}

proof fn lemma_decimal_begins_with_a_digit(n: nat)
    ensures
        decimal(n).len() > 0,
        '0' <= decimal(n)[0] <= '9',
    decreases n,
{
    if n >= 10 {
        lemma_decimal_begins_with_a_digit(n / 10);
    }
}

/// A command to run.
#[derive(Debug)]
pub struct CommandLine {
    pub program: String,
    pub args: Vec<String>,
}

/// A command as text.
pub struct CommandView {
    pub program: Seq<char>,
    pub args: Seq<Seq<char>>,
}

impl View for CommandLine {
    type V = CommandView;

    open spec fn view(&self) -> CommandView {
        CommandView { program: self.program@, args: texts(self.args@) }
    }
}

/// What a command that ran has left behind.
#[derive(Debug)]
pub struct CommandOutput {
    pub success: bool,
    pub stdout: Vec<u8>,
    pub stderr: Vec<u8>,
}

/// The output of a command, read as text.
#[derive(Debug)]
pub struct OutputText {
    pub success: bool,
    pub stdout: String,
    pub stderr: String,
    /// Standard output without the white space around it.
    pub result: String,
}

impl CommandOutput {
    /// The output read as text.
    pub fn read(&self) -> (text: OutputText)
        ensures
            text.success == self.success,
            text.stdout@ == lossy_text(self.stdout@),
            text.stderr@ == lossy_text(self.stderr@),
            text.result@ == lossy_text(ascii_trimmed(self.stdout@)),
    {
        OutputText {
            success: self.success,
            stdout: read_lossy(&self.stdout),
            stderr: read_lossy(&self.stderr),
            result: read_lossy(&trim_ascii(&self.stdout)),
        }
    }
}

/// What a deployment does next.
#[derive(Debug)]
pub enum DeployStep {
    /// Run a command, and go on with its outcome.
    Run { command: CommandLine },
    /// The deployment is over.
    Done { result: Result<(), NixCommandError> },
}

/// What a deployment does next, as text.
pub enum StepView {
    Run { command: CommandView },
    Succeeded,
    Failed { error: NixCommandErrorView },
}

impl View for DeployStep {
    type V = StepView;

    open spec fn view(&self) -> StepView {
        match self {
            DeployStep::Run { command } => StepView::Run { command: command@ },
            DeployStep::Done { result: Ok(_) } => StepView::Succeeded,
            DeployStep::Done { result: Err(error) } => StepView::Failed { error: error@ },
        }
    }
}

/// The last line that is a path in the nix store.
pub open spec fn store_path(list: Seq<Seq<char>>) -> Option<Seq<char>>
    decreases list.len(),
{
    if list.len() == 0 {
        None
    } else if "/nix/store/"@.is_prefix_of(list.last()) {
        Some(list.last())
    } else {
        store_path(list.drop_last())
    }
}

/// The command that builds the system of a host.
pub open spec fn build_command(flake_url: Seq<char>, hostname: Seq<char>) -> CommandView {
    CommandView {
        program: "nix"@,
        args: seq![
            "build"@,
            flake_url + "#nixosConfigurations."@ + hostname + ".config.system.build.toplevel"@,
            "--print-out-paths"@,
        ],
    }
}

/// The command that switches to a built system.
pub open spec fn switch_command(system: Seq<char>, switch_args: Seq<Seq<char>>) -> CommandView {
    CommandView { program: system + "/bin/switch-to-configuration"@, args: switch_args }
}

/// How a deployment begins.
pub open spec fn first_step(flake: FlakeRefView, hostname: Seq<char>) -> StepView {
    match flake.flake_url() {
        Some(url) => StepView::Run { command: build_command(url, hostname) },
        None => StepView::Failed {
            error: NixCommandErrorView::Execution {
                message: (FlakeError::NotBuildable { type_: flake.type_ }).text(),
            },
        },
    }
}

/// How a deployment goes on once the build command has run.
pub open spec fn step_after_build(
    hostname: Seq<char>,
    switch_args: Seq<Seq<char>>,
    success: bool,
    stdout: Seq<char>,
    stderr: Seq<char>,
    result: Seq<char>,
) -> StepView {
    if !success {
        StepView::Failed { error: NixCommandErrorView::Build { hostname, stderr, stdout } }
    } else {
        match store_path(lines(result)) {
            Some(system) => StepView::Run { command: switch_command(system, switch_args) },
            None => StepView::Failed {
                error: NixCommandErrorView::Execution {
                    message: "No derivation path found in build output"@,
                },
            },
        }
    }
}

/// How a deployment ends once the switch command has run.
pub open spec fn step_after_switch(
    hostname: Seq<char>,
    success: bool,
    stdout: Seq<char>,
    stderr: Seq<char>,
) -> StepView {
    if success {
        StepView::Succeeded
    } else {
        StepView::Failed { error: NixCommandErrorView::Switch { hostname, stderr, stdout } }
    }
}

/// The last line of a command's output that is a path in the nix store.
pub fn derivation_path(result: &str) -> (path: Option<String>)
    ensures
        match path {
            Some(p) => store_path(lines(result@)) == Some(p@),
            None => store_path(lines(result@)) is None,
        },
{
    let list = split_lines(result);
    let mut i: usize = list.len();
    assert(lines(result@).take(i as int) == lines(result@));
    while i > 0
        invariant
            i <= list.len(),
            texts(list@) == lines(result@),
            store_path(lines(result@)) == store_path(lines(result@).take(i as int)),
        decreases i,
    {
        let ghost seen = lines(result@).take(i as int);
        assert(seen.last() == list@[i - 1]@);
        if begins_with(list[i - 1].as_str(), "/nix/store/") {
            return Some(list[i - 1].clone());
        }
        assert(seen.drop_last() == lines(result@).take(i - 1));
        i = i - 1;
    }
    None
}

/// How far a deployment has come.
#[derive(Debug, Clone, Copy, PartialEq, Eq, Structural)]
pub enum Stage {
    Building,
    Switching,
    Finished,
}

/// A deployment under way.
#[derive(Debug)]
pub struct NixDeployment {
    pub hostname: String,
    pub switch_args: Vec<String>,
    pub stage: Stage,
}

/// The stage that a step leads to.
pub open spec fn stage_for(step: StepView, running: Stage) -> Stage {
    match step {
        StepView::Run { .. } => running,
        _ => Stage::Finished,
    }
}

/// A deployment of `flake_ref` on `hostname` that switches with `switch_args`.
pub fn deploy(flake_ref: &FlakeRef, hostname: &str, switch_args: Vec<String>) -> (started: (
    NixDeployment,
    DeployStep,
))
    ensures
        started.1@ == first_step(flake_ref@, hostname@),
        started.0.hostname@ == hostname@,
        started.0.switch_args == switch_args,
        started.0.stage == stage_for(started.1@, Stage::Building),
{
    match flake_ref.to_flake_url() {
        Err(error) => {
            let step = DeployStep::Done {
                result: Err(NixCommandError::to_execution(error.to_string().as_str())),
            };
            (
                NixDeployment {
                    hostname: hostname.to_owned(),
                    switch_args,
                    stage: Stage::Finished,
                },
                step,
            )
        },
        Ok(flake_url) => {
            let mut target: String = flake_url;
            target.append("#nixosConfigurations.");
            target.append(hostname);
            target.append(".config.system.build.toplevel");
            let args: Vec<String> = vec![
                "build".to_owned(),
                target,
                "--print-out-paths".to_owned(),
            ];
            let command = CommandLine { program: "nix".to_owned(), args };
            proof {
                let url = flake_ref@.flake_url().unwrap();
                assert(texts(command.args@) == build_command(url, hostname@).args);
            }
            (
                NixDeployment {
                    hostname: hostname.to_owned(),
                    switch_args,
                    stage: Stage::Building,
                },
                DeployStep::Run { command },
            )
        },
    }
}

impl NixDeployment {
    /// How the deployment goes on once the build command has run.
    pub fn after_build(&self, output: &OutputText) -> (step: DeployStep)
        ensures
            step@ == step_after_build(
                self.hostname@,
                texts(self.switch_args@),
                output.success,
                output.stdout@,
                output.stderr@,
                output.result@,
            ),
    {
        if !output.success {
            return DeployStep::Done {
                result: Err(
                    NixCommandError::Build {
                        hostname: self.hostname.clone(),
                        stderr: output.stderr.clone(),
                        stdout: output.stdout.clone(),
                    },
                ),
            };
        }
        match derivation_path(output.result.as_str()) {
            Some(path) => DeployStep::Run {
                command: CommandLine {
                    program: joined(path.as_str(), "/bin/switch-to-configuration"),
                    args: self.switch_args.clone(),
                },
            },
            None => DeployStep::Done {
                result: Err(
                    NixCommandError::to_execution("No derivation path found in build output"),
                ),
            },
        }
    }

    /// How the deployment ends once the switch command has run.
    pub fn after_switch(&self, output: &OutputText) -> (step: DeployStep)
        ensures
            step@ == step_after_switch(
                self.hostname@,
                output.success,
                output.stdout@,
                output.stderr@,
            ),
    {
        if output.success {
            DeployStep::Done { result: Ok(()) }
        } else {
            DeployStep::Done {
                result: Err(
                    NixCommandError::Switch {
                        hostname: self.hostname.clone(),
                        stderr: output.stderr.clone(),
                        stdout: output.stdout.clone(),
                    },
                ),
            }
        }
    }

    /// The step that follows a command: `outcome` is what it printed, or why
    /// it could not be run.
    pub open spec fn next_step(
        self,
        outcome: Result<CommandOutput, String>,
    ) -> StepView {
        match outcome {
            Err(reason) => StepView::Failed {
                error: NixCommandErrorView::Execution { message: reason@ },
            },
            Ok(output) => if self.stage == Stage::Building {
                step_after_build(
                    self.hostname@,
                    texts(self.switch_args@),
                    output.success,
                    lossy_text(output.stdout@),
                    lossy_text(output.stderr@),
                    lossy_text(ascii_trimmed(output.stdout@)),
                )
            } else {
                step_after_switch(
                    self.hostname@,
                    output.success,
                    lossy_text(output.stdout@),
                    lossy_text(output.stderr@),
                )
            },
        }
    }

    /// Goes on with the outcome of the command of the last step: what it
    /// printed, or why it could not be run.
    pub fn advance(&mut self, outcome: Result<CommandOutput, String>) -> (step: DeployStep)
        requires
            old(self).stage != Stage::Finished,
        ensures
            step@ == old(self).next_step(outcome),
            final(self).stage == stage_for(step@, Stage::Switching),
            final(self).hostname == old(self).hostname,
            final(self).switch_args == old(self).switch_args,
    {
        let step = match outcome {
            Err(reason) => DeployStep::Done {
                result: Err(NixCommandError::to_execution(reason.as_str())),
            },
            Ok(output) => {
                let text = output.read();
                match self.stage {
                    Stage::Building => self.after_build(&text),
                    _ => self.after_switch(&text),
                }
            },
        };
        self.stage = match step {
            DeployStep::Run { .. } => Stage::Switching,
            DeployStep::Done { .. } => Stage::Finished,
        };
        step
    }
}

/// What is found in the output is one of its lines, a path in the nix store, and
/// no later line is one.
pub proof fn lemma_store_path_is_the_last_one(list: Seq<Seq<char>>)
    ensures
        match store_path(list) {
            Some(path) => exists|i: int|
                #![trigger list[i]]
                0 <= i < list.len() && list[i] == path && "/nix/store/"@.is_prefix_of(path)
                    && forall|j: int|
                    i < j < list.len() ==> !"/nix/store/"@.is_prefix_of(#[trigger] list[j]),
            None => forall|j: int|
                0 <= j < list.len() ==> !"/nix/store/"@.is_prefix_of(#[trigger] list[j]),
        },
    decreases list.len(),
{
    if list.len() > 0 {
        if "/nix/store/"@.is_prefix_of(list.last()) {
            assert(list[list.len() - 1] == list.last());
        } else {
            let init = list.drop_last();
            lemma_store_path_is_the_last_one(init);
            match store_path(init) {
                Some(path) => {
                    let i = choose|i: int|
                        #![trigger init[i]]
                        0 <= i < init.len() && init[i] == path && "/nix/store/"@.is_prefix_of(path)
                            && forall|j: int|
                            i < j < init.len() ==> !"/nix/store/"@.is_prefix_of(
                                #[trigger] init[j],
                            );
                    assert(list[i] == path);
                    assert forall|j: int| i < j < list.len() implies !"/nix/store/"@.is_prefix_of(
                        #[trigger] list[j],
                    ) by {
                        if j < init.len() {
                            assert(init[j] == list[j]);
                        }
                    }
                },
                None => {
                    assert forall|j: int| 0 <= j < list.len() implies !"/nix/store/"@.is_prefix_of(
                        #[trigger] list[j],
                    ) by {
                        if j < init.len() {
                            assert(init[j] == list[j]);
                        }
                    }
                },
            }
        }
    }
}

/// A switch is made only after a build that succeeded, to a system of the nix
/// store that the build printed, with the arguments of the deployment.
pub proof fn lemma_switch_follows_a_successful_build(
    deployment: NixDeployment,
    outcome: Result<CommandOutput, String>,
    command: CommandView,
)
    requires
        deployment.stage == Stage::Building,
        deployment.next_step(outcome) == (StepView::Run { command }),
    ensures
        outcome matches Ok(output) && output.success && exists|system: Seq<char>|
            "/nix/store/"@.is_prefix_of(system) && lines(
                lossy_text(ascii_trimmed(output.stdout@)),
            ).contains(system) && command == #[trigger] switch_command(
                system,
                texts(deployment.switch_args@),
            ),
{
    let printed = lines(lossy_text(ascii_trimmed(outcome->Ok_0.stdout@)));
    lemma_store_path_is_the_last_one(printed);
    let system = store_path(printed).unwrap();
    assert(command == switch_command(system, texts(deployment.switch_args@)));
}

/// Nothing is run after the switch.
pub proof fn lemma_nothing_runs_after_the_switch(
    deployment: NixDeployment,
    outcome: Result<CommandOutput, String>,
)
    requires
        deployment.stage == Stage::Switching,
    ensures
        deployment.next_step(outcome) !is Run,
{
}

/// A deployment succeeds exactly if its last command, the switch, ran and
/// succeeded; until then it is under way or failed.
pub proof fn lemma_only_a_switch_succeeds(
    deployment: NixDeployment,
    outcome: Result<CommandOutput, String>,
)
    requires
        deployment.stage != Stage::Finished,
    ensures
        deployment.next_step(outcome) is Succeeded <==> {
            &&& deployment.stage == Stage::Switching
            &&& outcome matches Ok(output)
            &&& output.success
        },
{
}

/// A way to deploy a flake on a host.
pub trait NixCommands {
    /// Begins a deployment.
    fn deploy(&self, flake_ref: &FlakeRef, hostname: &str) -> (started: (
        NixDeployment,
        DeployStep,
    ));
}

/// Activates the system and makes it the boot default.
pub struct Prod;

impl NixCommands for Prod {
    fn deploy(&self, flake_ref: &FlakeRef, hostname: &str) -> (started: (
        NixDeployment,
        DeployStep,
    ))
        ensures
            started.1@ == first_step(flake_ref@, hostname@),
            started.0.hostname@ == hostname@,
            texts(started.0.switch_args@) == seq!["switch"@],
            started.0.stage == stage_for(started.1@, Stage::Building),
    {
        let args: Vec<String> = vec!["switch".to_owned()];
        assert(texts(args@) == seq!["switch"@]);
        crate::nix_commands::deploy(flake_ref, hostname, args)
    }
}

/// Activates the system without making it the boot default.
pub struct Test;

impl NixCommands for Test {
    fn deploy(&self, flake_ref: &FlakeRef, hostname: &str) -> (started: (
        NixDeployment,
        DeployStep,
    ))
        ensures
            started.1@ == first_step(flake_ref@, hostname@),
            started.0.hostname@ == hostname@,
            texts(started.0.switch_args@) == seq!["test"@],
            started.0.stage == stage_for(started.1@, Stage::Building),
    {
        let args: Vec<String> = vec!["test".to_owned()];
        assert(texts(args@) == seq!["test"@]);
        crate::nix_commands::deploy(flake_ref, hostname, args)
    }
}

/// A build that succeeded is followed by the switch to the last path in the nix
/// store that it printed, with the arguments of the deployment, whatever it wrote
/// to its standard error.
pub proof fn lemma_successful_build_is_switched_to(
    deployment: NixDeployment,
    output: CommandOutput,
    printed: Seq<Seq<char>>,
    i: int,
)
    requires
        deployment.stage == Stage::Building,
        output.success,
        printed == lines(lossy_text(ascii_trimmed(output.stdout@))),
        0 <= i < printed.len(),
        "/nix/store/"@.is_prefix_of(printed[i]),
        forall|j: int|
            i < j < printed.len() ==> !"/nix/store/"@.is_prefix_of(#[trigger] printed[j]),
    ensures
        deployment.next_step(Ok(output)) matches StepView::Run { command } && {
            &&& command.program == printed[i] + "/bin/switch-to-configuration"@
            &&& command.args.len() == deployment.switch_args@.len()
            &&& forall|k: int|
                0 <= k < command.args.len() ==> #[trigger] command.args[k]
                    == deployment.switch_args@[k]@
        },
{
    lemma_store_path_is_the_last_one(printed);
}

/// The same of the text that was read: what counts is that the command succeeded
/// and which store path its trimmed output names last.
pub proof fn lemma_store_path_is_switched_to(
    hostname: Seq<char>,
    switch_args: Seq<Seq<char>>,
    stdout: Seq<char>,
    stderr: Seq<char>,
    result: Seq<char>,
    i: int,
)
    requires
        0 <= i < lines(result).len(),
        "/nix/store/"@.is_prefix_of(lines(result)[i]),
        forall|j: int|
            i < j < lines(result).len() ==> !"/nix/store/"@.is_prefix_of(
                #[trigger] lines(result)[j],
            ),
    ensures
        step_after_build(hostname, switch_args, true, stdout, stderr, result) == (StepView::Run {
            command: CommandView {
                program: lines(result)[i] + "/bin/switch-to-configuration"@,
                args: switch_args,
            },
        }),
{
    lemma_store_path_is_the_last_one(lines(result));
}

/// A build that failed is reported with the host and all that it printed, and a
/// build that names no store path as such; neither is switched to.
pub proof fn lemma_failed_build_is_reported(
    deployment: NixDeployment,
    output: CommandOutput,
)
    requires
        deployment.stage == Stage::Building,
    ensures
        !output.success ==> deployment.next_step(Ok(output)) == (StepView::Failed {
            error: NixCommandErrorView::Build {
                hostname: deployment.hostname@,
                stderr: lossy_text(output.stderr@),
                stdout: lossy_text(output.stdout@),
            },
        }),
        output.success && (forall|j: int|
            0 <= j < lines(lossy_text(ascii_trimmed(output.stdout@))).len()
                ==> !"/nix/store/"@.is_prefix_of(
                #[trigger] lines(lossy_text(ascii_trimmed(output.stdout@)))[j],
            )) ==> deployment.next_step(Ok(output)) == (StepView::Failed {
            error: NixCommandErrorView::Execution {
                message: "No derivation path found in build output"@,
            },
        }),
{
    lemma_store_path_is_the_last_one(lines(lossy_text(ascii_trimmed(output.stdout@))));
}

/// A switch that failed is reported with the host and all that it printed.
pub proof fn lemma_failed_switch_is_reported(deployment: NixDeployment, output: CommandOutput)
    requires
        deployment.stage == Stage::Switching,
        !output.success,
    ensures
        deployment.next_step(Ok(output)) == (StepView::Failed {
            error: NixCommandErrorView::Switch {
                hostname: deployment.hostname@,
                stderr: lossy_text(output.stderr@),
                stdout: lossy_text(output.stdout@),
            },
        }),
{
}

/// A command that could not be run ends the deployment with the reason, in any
/// stage.
pub proof fn lemma_command_that_did_not_run_is_reported(
    deployment: NixDeployment,
    reason: String,
)
    ensures
        deployment.next_step(Err(reason)) == (StepView::Failed {
            error: NixCommandErrorView::Execution { message: reason@ },
        }),
{
}

/// What follows a switch is a function of whether it succeeded, and of the output
/// that is reported.
pub proof fn lemma_switch_is_judged_by_its_status(
    hostname: Seq<char>,
    stdout: Seq<char>,
    stderr: Seq<char>,
    result: Seq<char>,
    switch_args: Seq<Seq<char>>,
)
    ensures
        step_after_switch(hostname, true, stdout, stderr) is Succeeded,
        step_after_switch(hostname, false, stdout, stderr) == (StepView::Failed {
            error: NixCommandErrorView::Switch { hostname, stderr, stdout },
        }),
        step_after_build(hostname, switch_args, false, stdout, stderr, result) == (
        StepView::Failed { error: NixCommandErrorView::Build { hostname, stderr, stdout } }),
{
}

/// A deployment begins with `nix build` of the system of the host in the flake,
/// and has it print the store path.
pub proof fn lemma_deployment_builds_the_system_of_the_host(
    flake: FlakeRefView,
    hostname: Seq<char>,
    url: Seq<char>,
)
    requires
        flake.flake_url() == Some(url),
    ensures
        first_step(flake, hostname) matches StepView::Run { command } && {
            &&& command.program == "nix"@
            &&& command.args.len() == 3
            &&& command.args[0] == "build"@
            &&& command.args[1] == url + "#nixosConfigurations."@ + hostname
                + ".config.system.build.toplevel"@
            &&& command.args[2] == "--print-out-paths"@
        },
{
}

/// A flake that cannot be built is refused before anything is run, and the refusal
/// names its kind.
pub proof fn lemma_unbuildable_flake_is_refused(flake: FlakeRefView, hostname: Seq<char>)
    requires
        flake.flake_url() is None,
    ensures
        first_step(flake, hostname) == (StepView::Failed {
            error: NixCommandErrorView::Execution {
                message: (FlakeError::NotBuildable { type_: flake.type_ }).text(),
            },
        }),
{
}

/// A deployment is under way exactly as long as there is a command to run.
pub proof fn lemma_deployment_is_over_without_a_command(step: StepView, running: Stage)
    ensures
        step is Run ==> stage_for(step, running) == running,
        step !is Run ==> stage_for(step, running) == Stage::Finished,
{
}

/// Every failure is reported under what failed, with the host, the output and the
/// errors in full.
pub proof fn lemma_failures_are_reported_in_full(
    hostname: Seq<char>,
    stdout: Seq<char>,
    stderr: Seq<char>,
    message: Seq<char>,
)
    ensures
        (NixCommandErrorView::Build { hostname, stderr, stdout }).text() == "Build failed: "@ + (
        hostname + "\nstdout: "@ + stdout + "\nstderr: "@ + stderr),
        (NixCommandErrorView::Switch { hostname, stderr, stdout }).text() == "Switch failed: "@ + (
        hostname + "\nstdout: "@ + stdout + "\nstderr: "@ + stderr),
        (NixCommandErrorView::Execution { message }).text() == "Execution failed: "@ + message,
{
}

/// Reports lie in the directory of the application. Those of different seconds are
/// different files.
pub proof fn lemma_reports_of_different_seconds_are_different_files(
    app_dir: Seq<char>,
    first: nat,
    second: nat,
)
    ensures
        last_report_file(app_dir) == app_dir + "/last_report.json"@,
        (app_dir + "/"@).is_prefix_of(dated_report_file(app_dir, first)),
        dated_report_file(app_dir, first) == app_dir + "/"@ + decimal(first) + "_report.json"@,
        dated_report_file(app_dir, first) == dated_report_file(app_dir, second) ==> first
            == second,
{
    let lead = app_dir + "/"@;
    let end = "_report.json"@;
    let a = lead + decimal(first) + end;
    let b = lead + decimal(second) + end;
    assert(a.subrange(0, lead.len() as int) =~= lead);
    if a == b {
        assert(a.len() == lead.len() + decimal(first).len() + end.len());
        assert(b.len() == lead.len() + decimal(second).len() + end.len());
        let n = lead.len() + decimal(first).len();
        assert(a.subrange(lead.len() as int, n as int) =~= decimal(first));
        assert(b.subrange(lead.len() as int, n as int) =~= decimal(second));
        lemma_decimal_stands_for_its_number(first);
        lemma_decimal_stands_for_its_number(second);
    }
}

/// What a step says is what it holds.
pub proof fn lemma_step_says_what_it_holds(command: CommandLine, error: NixCommandError)
    ensures
        command@.program == command.program@,
        command@.args.len() == command.args@.len(),
        forall|i: int|
            0 <= i < command.args@.len() ==> #[trigger] command@.args[i] == command.args@[i]@,
        (DeployStep::Run { command })@ == (StepView::Run { command: command@ }),
        (DeployStep::Done { result: Ok(()) })@ is Succeeded,
        (DeployStep::Done { result: Err(error) })@ == (StepView::Failed { error: error@ }),
        match error {
            NixCommandError::Build { hostname, stderr, stdout } => error@ == (
            NixCommandErrorView::Build { hostname: hostname@, stderr: stderr@, stdout: stdout@ }),
            NixCommandError::Execution { message } => error@ == (NixCommandErrorView::Execution {
                message: message@,
            }),
            NixCommandError::Switch { hostname, stderr, stdout } => error@ == (
            NixCommandErrorView::Switch { hostname: hostname@, stderr: stderr@, stdout: stdout@ }),
        },
{
}

} // verus!
