//! What the operator configures.

use vstd::prelude::*;

use crate::flake::FlakeType;
use crate::text::{
    is_white_space, joined, lemma_trimming_the_end_takes_white_space, trim_end, trimmed_end,
};

verus! {

/// The reference, or the pinned revision, that one environment tracks.
#[derive(Debug)]
pub struct UrlSpecConfig {
    pub ref_: Option<String>,
    pub rev: Option<String>,
}

/// The repository to deploy from.
#[derive(Debug)]
pub struct ConfigFlake {
    pub type_: FlakeType,
    pub repo: String,
    /// A host of one's own, such as a self-hosted GitLab.
    pub host: Option<String>,
    pub prod_spec: Option<UrlSpecConfig>,
    pub test_spec: Option<UrlSpecConfig>,
}

/// One webhook: the request to send.
#[derive(Debug)]
pub struct WebhookConfig {
    pub url: String,
    pub method: String,
    /// Header lines of the form `Key: Value`.
    pub headers: Vec<String>,
    /// The body, sent with `POST` only.
    pub data: Option<String>,
}

/// The webhook, if any, that follows each outcome of a deployment.
#[derive(Debug)]
pub struct WebhooksConfig {
    pub on_test_success: Option<WebhookConfig>,
    pub on_test_failure: Option<WebhookConfig>,
    pub on_prod_success: Option<WebhookConfig>,
    pub on_prod_failure: Option<WebhookConfig>,
}

impl Default for WebhooksConfig {
    /// No webhooks.
    fn default() -> (webhooks: WebhooksConfig)
        ensures
            webhooks.on_test_success is None,
            webhooks.on_test_failure is None,
            webhooks.on_prod_success is None,
            webhooks.on_prod_failure is None,
    {
        WebhooksConfig {
            on_test_success: None,
            on_test_failure: None,
            on_prod_success: None,
            on_prod_failure: None,
        }
    }
}

/// A user's Home Manager configuration, deployed in place of the system's.
#[derive(Debug)]
pub struct HomeManagerConfig {
    pub username: String,
    pub package: String,
}

/// A passphrase, read through a method only.
#[derive(Debug)]
pub struct Passphrase(String);

impl View for Passphrase {
    type V = Seq<char>;

    closed spec fn view(&self) -> Seq<char> {
        self.0@
    }
}

impl Passphrase {
    /// A passphrase.
    pub fn new(text: String) -> (passphrase: Passphrase)
        ensures
            passphrase@ == text@,
    {
        Passphrase(text)
    }

    /// The text of the passphrase.
    pub fn text(&self) -> (text: &String)
        ensures
            text@ == self@,
    {
        &self.0
    }
}

/// The SSH key with which private repositories are read.
#[derive(Debug)]
pub struct PrivateKey {
    pub path: String,
    pub passphrase_path: String,
    pub secret: Passphrase,
}

impl PrivateKey {
    /// A key whose passphrase is not known yet.
    pub fn new(path: String, passphrase_path: String) -> (key: PrivateKey)
        ensures
            key.path == path,
            key.passphrase_path == passphrase_path,
            key.secret@ == Seq::<char>::empty(),
    {
        PrivateKey { path, passphrase_path, secret: Passphrase::new(String::new()) }
    }

    /// Takes up the passphrase, as the file at `passphrase_path` holds it.
    pub fn setup(&mut self, contents: String)
        ensures
            final(self).secret@ == contents@,
            final(self).path == old(self).path,
            final(self).passphrase_path == old(self).passphrase_path,
    {
        self.secret = Passphrase::new(contents);
    }

    /// The passphrase that unlocks the key.
    pub fn passphrase(&self) -> (passphrase: &String)
        ensures
            passphrase@ == self.secret@,
    {
        self.secret.text()
    }
}

/// What the operator configures.
#[derive(Debug)]
pub struct Config {
    pub flake_repo: ConfigFlake,
    pub poll_interval_secs: u64,
    pub app_dir: String,
    pub hostname: String,
    pub otel_http_endpoint: Option<String>,
    pub private_key: Option<PrivateKey>,
    /// How many entries the saved history keeps besides those without which an
    /// attempt would be forgotten.
    pub keep_last: usize,
    pub home_manager_switch: bool,
    pub home_manager_command: String,
    /// A token for private repositories on GitHub.
    pub github_token: Option<String>,
    pub home_manager: Option<HomeManagerConfig>,
    pub webhooks: WebhooksConfig,
}

/// Where the history of system deployments is saved.
pub open spec fn nixos_state_file(app_dir: Seq<char>) -> Seq<char> {
    app_dir + "/state.json"@
}

/// Where the history of Home Manager deployments is saved.
pub open spec fn home_manager_state_file(app_dir: Seq<char>) -> Seq<char> {
    app_dir + "/home_manager_deployments.json"@
}

impl Config {
    /// The file that holds the history of what this configuration deploys.
    pub open spec fn state_file(self) -> Seq<char> {
        if self.home_manager is Some {
            home_manager_state_file(self.app_dir@)
        } else {
            nixos_state_file(self.app_dir@)
        }
    }

    /// Where the history of system deployments is saved.
    pub fn nixos_state_path(&self) -> (path: String)
        ensures
            path@ == nixos_state_file(self.app_dir@),
    {
        joined(self.app_dir.as_str(), "/state.json")
    }

    /// Where the history of Home Manager deployments is saved.
    pub fn home_manager_state_path(&self) -> (path: String)
        ensures
            path@ == home_manager_state_file(self.app_dir@),
    {
        joined(self.app_dir.as_str(), "/home_manager_deployments.json")
    }

    /// The file that holds the history of what this configuration deploys.
    pub fn actual_state_path(&self) -> (path: String)
        ensures
            path@ == self.state_file(),
    {
        match self.home_manager {
            Some(_) => self.home_manager_state_path(),
            None => self.nixos_state_path(),
        }
    }
}

/// Histories of systems and of Home Manager never share a file.
pub proof fn lemma_state_files_are_distinct(app_dir: Seq<char>)
    ensures
        nixos_state_file(app_dir) != home_manager_state_file(app_dir),
{
    reveal_strlit("/state.json");
    reveal_strlit("/home_manager_deployments.json");
    assert(nixos_state_file(app_dir).len() != home_manager_state_file(app_dir).len());
}

/// Without a private key, only public repositories can be read.
pub fn no_private_key() -> (key: Option<PrivateKey>)
    ensures
        key is None,
{
    None
}

/// Without an endpoint, no metrics are exported.
pub fn no_prometheus_endpoint() -> (endpoint: Option<String>)
    ensures
        endpoint is None,
{
    None
}

/// One minute between two polls.
pub fn default_poll_interval() -> (seconds: u64)
    ensures
        seconds == 60,
{
    60
}

/// Where state is kept unless configured otherwise.
pub fn default_app_dir() -> (dir: String)
    ensures
        dir@ == "/var/lib/pullix"@,
{
    "/var/lib/pullix".to_owned()
}

/// The host name, from what the system reports of it.
pub fn linux_hostname(reported: &str) -> (hostname: String)
    ensures
        hostname@ == trimmed_end(reported@),
        hostname@.is_prefix_of(reported@),
        forall|i: int|
            hostname@.len() <= i < reported@.len() ==> is_white_space(#[trigger] reported@[i]),
        hostname@.len() > 0 ==> !is_white_space(hostname@.last()),
{
    proof {
        lemma_trimming_the_end_takes_white_space(reported@);
    }
    trim_end(reported)
}

/// The system is deployed, not a user's Home Manager.
pub fn no_home_manager_switch() -> (switch: bool)
    ensures
        !switch,
{
    false
}

/// The history of the system is in `state.json`, that of Home Manager in a file of
/// its own, both right in the directory of the application.
pub proof fn lemma_history_lies_in_the_directory(config: Config)
    ensures
        config.home_manager is None ==> config.state_file() == config.app_dir@ + "/state.json"@,
        config.home_manager is Some ==> config.state_file() == config.app_dir@
            + "/home_manager_deployments.json"@,
        nixos_state_file(config.app_dir@) == config.app_dir@ + "/state.json"@,
        home_manager_state_file(config.app_dir@) == config.app_dir@
            + "/home_manager_deployments.json"@,
{
}

} // verus!
