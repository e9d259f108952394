//! What the metrics say of the repository and of the host.

use vstd::prelude::*;

use crate::config::Config;
use crate::deploy::{Deployed, DeployedView};
use crate::git::Commit;
use crate::text::optional_text;

verus! {

/// A label of a metric.
#[derive(Debug)]
pub struct Label {
    pub key: String,
    pub value: String,
}

impl View for Label {
    type V = (Seq<char>, Seq<char>);

    open spec fn view(&self) -> (Seq<char>, Seq<char>) {
        (self.key@, self.value@)
    }
}

/// The keys and values of a list of labels.
pub open spec fn labels_view(labels: Seq<Label>) -> Seq<(Seq<char>, Seq<char>)> {
    labels.map_values(|label: Label| label@)
}

/// A label.
pub fn label(key: &str, value: String) -> (made: Label)
    ensures
        made@ == (key@, value@),
{
    Label { key: key.to_owned(), value }
}

/// The commit of a reference, or `unknown` where the reference does not exist.
pub open spec fn commit_or_unknown(commit: Option<Seq<char>>) -> Seq<char> {
    match commit {
        Some(c) => c,
        None => "unknown"@,
    }
}

fn known_commit(commit: Option<&Commit>) -> (text: String)
    ensures
        text@ == commit_or_unknown(
            match commit {
                Some(c) => Some(c@),
                None => None,
            },
        ),
{
    match commit {
        Some(c) => c.to_string(),
        None => "unknown".to_owned(),
    }
}

/// The labels that tell where the references of the repository stand.
pub open spec fn remote_state(
    main: Seq<char>,
    prod: Option<Seq<char>>,
    test: Option<Seq<char>>,
) -> Seq<(Seq<char>, Seq<char>)> {
    seq![
        ("main_commit"@, main),
        ("prod_commit"@, commit_or_unknown(prod)),
        ("test_commit"@, commit_or_unknown(test)),
    ]
}

/// The labels that tell where the references of the repository stand.
pub fn remote_state_labels(
    main_commit: &Commit,
    prod_commit: Option<&Commit>,
    test_commit: Option<&Commit>,
) -> (labels: Vec<Label>)
    ensures
        labels_view(labels@) == remote_state(
            main_commit@,
            match prod_commit {
                Some(c) => Some(c@),
                None => None,
            },
            match test_commit {
                Some(c) => Some(c@),
                None => None,
            },
        ),
{
    let labels: Vec<Label> = vec![
        label("main_commit", main_commit.to_string()),
        label("prod_commit", known_commit(prod_commit)),
        label("test_commit", known_commit(test_commit)),
    ];
    assert(labels_view(labels@) =~= seq![labels@[0]@, labels@[1]@, labels@[2]@]);
    labels
}

/// The labels that tell what was deployed last; none as long as nothing was.
pub open spec fn last_deployment(entry: DeployedView) -> Option<Seq<(Seq<char>, Seq<char>)>> {
    match entry {
        DeployedView::Init => None,
        DeployedView::TestAligned(commit) => Some(
            seq![("deployed"@, "test"@), ("commit"@, commit)],
        ),
        DeployedView::ProdAligned(commit) => Some(
            seq![("deployed"@, "prod"@), ("commit"@, commit)],
        ),
        DeployedView::TestFailed(commit) => Some(
            seq![("deployed"@, "fail"@), ("commit"@, commit)],
        ),
        DeployedView::ProdFailed(commit) => Some(
            seq![("deployed"@, "fail"@), ("commit"@, commit)],
        ),
    }
}

/// The labels that tell what was deployed last; none as long as nothing was.
pub fn last_commit_labels(deployed: &Deployed) -> (labels: Option<Vec<Label>>)
    ensures
        match (labels, last_deployment(deployed@)) {
            (Some(l), Some(expected)) => labels_view(l@) == expected,
            (None, None) => true,
            _ => false,
        },
{
    match deployed {
        Deployed::Init => None,
        Deployed::TestAligned(commit) => Some(outcome_labels("test", commit)),
        Deployed::ProdAligned(commit) => Some(outcome_labels("prod", commit)),
        Deployed::TestFailed(commit) => Some(outcome_labels("fail", commit)),
        Deployed::ProdFailed(commit) => Some(outcome_labels("fail", commit)),
    }
}

fn outcome_labels(outcome: &str, commit: &Commit) -> (labels: Vec<Label>)
    ensures
        labels_view(labels@) == seq![("deployed"@, outcome@), ("commit"@, commit@)],
{
    let labels: Vec<Label> = vec![
        label("deployed", outcome.to_owned()),
        label("commit", commit.to_string()),
    ];
    assert(labels_view(labels@) =~= seq![labels@[0]@, labels@[1]@]);
    labels
}

/// Where metrics are exported to, if anywhere.
pub fn setup_otel(config: &Config) -> (endpoint: Option<String>)
    ensures
        optional_text(endpoint) == optional_text(config.otel_http_endpoint),
{
    config.otel_http_endpoint.clone()
}

/// The state of the repository is told by its main commit and by the commits of the
/// two references, each under its own label; a reference that does not exist is
/// `unknown`.
pub proof fn lemma_references_are_told_under_their_labels(
    main: Seq<char>,
    prod: Option<Seq<char>>,
    test: Option<Seq<char>>,
)
    ensures
        remote_state(main, prod, test).len() == 3,
        remote_state(main, prod, test)[0] == ("main_commit"@, main),
        remote_state(main, prod, test)[1].0 == "prod_commit"@,
        remote_state(main, prod, test)[2].0 == "test_commit"@,
        prod matches Some(commit) ==> remote_state(main, prod, test)[1].1 == commit,
        prod is None ==> remote_state(main, prod, test)[1].1 == "unknown"@,
        test matches Some(commit) ==> remote_state(main, prod, test)[2].1 == commit,
        test is None ==> remote_state(main, prod, test)[2].1 == "unknown"@,
{
}

/// The last deployment is told by its commit and by where it went: to test, to prod,
/// or wrong. Nothing is told as long as nothing was deployed.
pub proof fn lemma_deployment_is_told_with_its_commit(commit: Seq<char>, entry: DeployedView)
    ensures
        last_deployment(DeployedView::Init) is None,
        entry !is Init ==> (last_deployment(entry) matches Some(labels) && labels.len() == 2
            && labels[0].0 == "deployed"@ && labels[1].0 == "commit"@),
        last_deployment(DeployedView::TestAligned(commit)) matches Some(labels) && labels[0].1
            == "test"@ && labels[1].1 == commit,
        last_deployment(DeployedView::ProdAligned(commit)) matches Some(labels) && labels[0].1
            == "prod"@ && labels[1].1 == commit,
        last_deployment(DeployedView::TestFailed(commit)) matches Some(labels) && labels[0].1
            == "fail"@ && labels[1].1 == commit,
        last_deployment(DeployedView::ProdFailed(commit)) matches Some(labels) && labels[0].1
            == "fail"@ && labels[1].1 == commit,
{
}

/// What labels say is what they hold, in their order.
pub proof fn lemma_labels_say_what_they_hold(labels: Seq<Label>)
    ensures
        labels_view(labels).len() == labels.len(),
        forall|i: int|
            0 <= i < labels.len() ==> #[trigger] labels_view(labels)[i] == (
                labels[i].key@,
                labels[i].value@,
            ),
{
}

} // verus!
