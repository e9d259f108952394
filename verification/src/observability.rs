//! Traces and metrics: where they go, and what they say of a kind of
//! deployment.

use vstd::prelude::*;

use crate::config::Config;
use crate::deploy::Deployed;
use crate::git::Commit;
use crate::metrics::{
    label, labels_view, last_deployment, remote_state, Label,
};
use crate::text::joined;

verus! {

/// What is deployed.
#[derive(Debug, Clone, Copy, PartialEq, Eq, Structural)]
pub enum DeploymentType {
    HomeManager,
    NixOS,
}

impl DeploymentType {
    /// The name of the kind.
    pub open spec fn text(self) -> Seq<char> {
        match self {
            DeploymentType::HomeManager => "HomeManager"@,
            DeploymentType::NixOS => "NixOS"@,
        }
    }

    /// The name of the kind.
    pub fn to_string(&self) -> (name: String)
        ensures
            name@ == self.text(),
    {
        match self {
            DeploymentType::HomeManager => "HomeManager".to_owned(),
            DeploymentType::NixOS => "NixOS".to_owned(),
        }
    }

    /// The kind that a configuration deploys.
    pub fn of(config: &Config) -> (kind: DeploymentType)
        ensures
            kind == (if config.home_manager is Some {
                DeploymentType::HomeManager
            } else {
                DeploymentType::NixOS
            }),
    {
        match config.home_manager {
            Some(_) => DeploymentType::HomeManager,
            None => DeploymentType::NixOS,
        }
    }
}

/// Labels with the kind of deployment added.
pub open spec fn with_kind(
    labels: Seq<(Seq<char>, Seq<char>)>,
    kind: DeploymentType,
) -> Seq<(Seq<char>, Seq<char>)> {
    labels.push(("deployment_type"@, kind.text()))
}

fn add_kind(labels: Vec<Label>, kind: DeploymentType) -> (longer: Vec<Label>)
    ensures
        labels_view(longer@) == with_kind(labels_view(labels@), kind),
{
    let mut longer = labels;
    longer.push(label("deployment_type", kind.to_string()));
    assert(labels_view(longer@) =~= with_kind(labels_view(labels@), kind));
    longer
}

/// The labels that tell where the references of the repository stand.
pub fn remote_state_labels(
    main_commit: &Commit,
    prod_commit: Option<&Commit>,
    test_commit: Option<&Commit>,
    kind: DeploymentType,
) -> (labels: Vec<Label>)
    ensures
        labels_view(labels@) == with_kind(
            remote_state(
                main_commit@,
                match prod_commit {
                    Some(c) => Some(c@),
                    None => None,
                },
                match test_commit {
                    Some(c) => Some(c@),
                    None => None,
                },
            ),
            kind,
        ),
{
    add_kind(crate::metrics::remote_state_labels(main_commit, prod_commit, test_commit), kind)
}

/// The labels that tell what was deployed last; none as long as nothing was.
pub fn last_commit_labels(deployed: &Deployed, kind: DeploymentType) -> (labels: Option<Vec<Label>>)
    ensures
        match (labels, last_deployment(deployed@)) {
            (Some(l), Some(expected)) => labels_view(l@) == with_kind(expected, kind),
            (None, None) => true,
            _ => false,
        },
{
    match crate::metrics::last_commit_labels(deployed) {
        Some(labels) => Some(add_kind(labels, kind)),
        None => None,
    }
}

/// Where traces and metrics are exported to.
#[derive(Debug)]
pub struct ExportPlan {
    pub traces_url: String,
    pub metrics_url: String,
    /// Seconds between two exports of metrics.
    pub interval_secs: u64,
}

/// No endpoint is configured.
#[derive(Debug)]
pub struct MissingEndpoint;

impl MissingEndpoint {
    /// What is reported to the operator.
    pub fn to_string(&self) -> (message: String)
        ensures
            message@ == "Otel endpoint not provided."@,
    {
        "Otel endpoint not provided.".to_owned()
    }
}

/// Where traces and metrics are exported to: below the configured endpoint,
/// metrics once per poll.
pub fn setup(config: &Config) -> (plan: Result<ExportPlan, MissingEndpoint>)
    ensures
        match (plan, config.otel_http_endpoint) {
            (Ok(p), Some(endpoint)) => {
                &&& p.traces_url@ == endpoint@ + "/v1/traces"@
                &&& p.metrics_url@ == endpoint@ + "/v1/metrics"@
                &&& p.interval_secs == config.poll_interval_secs
            },
            (Err(_), None) => true,
            _ => false,
        },
{
    match &config.otel_http_endpoint {
        Some(endpoint) => Ok(
            ExportPlan {
                traces_url: joined(endpoint.as_str(), "/v1/traces"),
                metrics_url: joined(endpoint.as_str(), "/v1/metrics"),
                interval_secs: config.poll_interval_secs,
            },
        ),
        None => Err(MissingEndpoint),
    }
}

/// The kind of deployment is added behind the other labels, which stay as they are.
pub proof fn lemma_kind_is_the_last_label(
    labels: Seq<(Seq<char>, Seq<char>)>,
    kind: DeploymentType,
)
    ensures
        with_kind(labels, kind).len() == labels.len() + 1,
        with_kind(labels, kind).drop_last() == labels,
        with_kind(labels, kind).last().0 == "deployment_type"@,
        kind == DeploymentType::NixOS ==> with_kind(labels, kind).last().1 == "NixOS"@,
        kind == DeploymentType::HomeManager ==> with_kind(labels, kind).last().1
            == "HomeManager"@,
{
    assert(with_kind(labels, kind).drop_last() =~= labels);
}

} // verus!
