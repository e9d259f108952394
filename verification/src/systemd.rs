//! The service under which the daemon runs: whether its unit has changed.

use vstd::prelude::*;

use crate::nix_commands::{CommandLine, CommandOutput, CommandView};
use crate::text::{contains_text, has_text, joined, lossy_text, read_lossy, texts};

verus! {

/// Why the state of a service is not known.
#[derive(Debug)]
pub enum ServiceError {
    /// The command could not be run.
    NotRun { reason: String },
    /// The command failed.
    ShowFailed { stderr: String },
}

impl ServiceError {
    /// What is reported to the operator.
    pub open spec fn text(self) -> Seq<char> {
        match self {
            ServiceError::NotRun { .. } => "Failed to run systemctl show command"@,
            ServiceError::ShowFailed { stderr } => "systemctl show failed: "@ + stderr@,
        }
    }

    /// What is reported to the operator.
    pub fn to_string(&self) -> (message: String)
        ensures
            message@ == self.text(),
    {
        match self {
            ServiceError::NotRun { .. } => "Failed to run systemctl show command".to_owned(),
            ServiceError::ShowFailed { stderr } => joined(
                "systemctl show failed: ",
                stderr.as_str(),
            ),
        }
    }
}

/// The command that asks whether a unit was changed since it was loaded.
pub open spec fn show_command(service: Seq<char>, user: bool) -> CommandView {
    CommandView {
        program: "systemctl"@,
        args: if user {
            seq!["--user"@, "show"@, service, "--property=NeedDaemonReload"@]
        } else {
            seq!["show"@, service, "--property=NeedDaemonReload"@]
        },
    }
}

/// The command that asks whether a unit was changed since it was loaded.
pub fn show_service(service_name: &str, user: bool) -> (command: CommandLine)
    ensures
        command@ == show_command(service_name@, user),
{
    let mut args: Vec<String> = Vec::new();
    if user {
        args.push("--user".to_owned());
    }
    args.push("show".to_owned());
    args.push(service_name.to_owned());
    args.push("--property=NeedDaemonReload".to_owned());
    let command = CommandLine { program: "systemctl".to_owned(), args };
    assert(texts(command.args@) =~= show_command(service_name@, user).args);
    command
}

/// Whether the output says that the unit was changed.
pub fn says_changed(stdout: &str) -> (changed: bool)
    ensures
        changed == has_text(stdout@, "NeedDaemonReload=yes"@),
{
    contains_text(stdout, "NeedDaemonReload=yes")
}

/// Whether a unit was changed, from the outcome of the command that asks.
pub fn read_service(outcome: Result<CommandOutput, String>) -> (changed: Result<
    bool,
    ServiceError,
>)
    ensures
        match (outcome, changed) {
            (Ok(output), Ok(yes)) => output.success && yes == has_text(
                lossy_text(output.stdout@),
                "NeedDaemonReload=yes"@,
            ),
            (Ok(output), Err(ServiceError::ShowFailed { stderr })) => !output.success && stderr@
                == lossy_text(output.stderr@),
            (Err(why), Err(ServiceError::NotRun { reason })) => reason == why,
            _ => false,
        },
{
    match outcome {
        Err(reason) => Err(ServiceError::NotRun { reason }),
        Ok(output) => if !output.success {
            Err(ServiceError::ShowFailed { stderr: read_lossy(&output.stderr) })
        } else {
            Ok(says_changed(read_lossy(&output.stdout).as_str()))
        },
    }
}

/// A service manager.
pub trait ServiceHandler {
    /// The command that asks whether a service was changed.
    fn is_service_changed(&self, service_name: &str) -> (command: CommandLine);
}

/// The service manager of the system.
pub struct SystemdServiceHandler;

/// The service manager of a user.
pub struct SystemdUserServiceHandler;

impl ServiceHandler for SystemdServiceHandler {
    fn is_service_changed(&self, service_name: &str) -> (command: CommandLine)
        ensures
            command@ == show_command(service_name@, false),
    {
        show_service(service_name, false)
    }
}

impl ServiceHandler for SystemdUserServiceHandler {
    fn is_service_changed(&self, service_name: &str) -> (command: CommandLine)
        ensures
            command@ == show_command(service_name@, true),
    {
        show_service(service_name, true)
    }
}

/// The service manager is asked for one property of one unit; that of a user is
/// asked in the same way, behind `--user`.
pub proof fn lemma_manager_is_asked_about_the_service(service: Seq<char>)
    ensures
        show_command(service, false).program == "systemctl"@,
        show_command(service, false).args.len() == 3,
        show_command(service, false).args[0] == "show"@,
        show_command(service, false).args[1] == service,
        show_command(service, false).args[2] == "--property=NeedDaemonReload"@,
        show_command(service, true).program == "systemctl"@,
        show_command(service, true).args.len() == 4,
        show_command(service, true).args[0] == "--user"@,
        show_command(service, true).args.skip(1) == show_command(service, false).args,
{
    assert(show_command(service, true).args.skip(1) =~= show_command(service, false).args);
}

/// A failure to ask is reported as such, and a refusal with what was printed.
pub proof fn lemma_refusal_is_quoted(reason: String, stderr: String)
    ensures
        (ServiceError::NotRun { reason }).text() == "Failed to run systemctl show command"@,
        (ServiceError::ShowFailed { stderr }).text() == "systemctl show failed: "@ + stderr@,
{
}

} // verus!
