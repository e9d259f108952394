//! Bringing a repository up to date with its origin, one operation at a time.

use vstd::prelude::*;

use crate::flake::{FlakeRef, FlakeRefView};
use crate::git::{GitError, GitErrorView};

verus! {

/// An operation on the repository, or the end.
#[derive(Debug)]
pub enum SyncStep {
    /// Whether there is a remote of this name.
    FindRemote { remote: String },
    /// Point an existing remote at this URL.
    SetUrl { remote: String, url: String },
    /// Create a remote for this URL.
    CreateRemote { remote: String, url: String },
    /// The names of all local tags.
    ListTags,
    /// Delete a local tag.
    DeleteTag { tag: String },
    /// Fetch from the remote.
    Fetch { remote: String, refspec: String },
    Done,
}

/// An operation on the repository, or the end, as text, or that it has failed.
pub enum SyncStepView {
    FindRemote { remote: Seq<char> },
    SetUrl { remote: Seq<char>, url: Seq<char> },
    CreateRemote { remote: Seq<char>, url: Seq<char> },
    ListTags,
    DeleteTag { tag: Seq<char> },
    Fetch { remote: Seq<char>, refspec: Seq<char> },
    Done,
    Failed { error: GitErrorView },
}

impl View for SyncStep {
    type V = SyncStepView;

    open spec fn view(&self) -> SyncStepView {
        match self {
            SyncStep::FindRemote { remote } => SyncStepView::FindRemote { remote: remote@ },
            SyncStep::SetUrl { remote, url } => SyncStepView::SetUrl {
                remote: remote@,
                url: url@,
            },
            SyncStep::CreateRemote { remote, url } => SyncStepView::CreateRemote {
                remote: remote@,
                url: url@,
            },
            SyncStep::ListTags => SyncStepView::ListTags,
            SyncStep::DeleteTag { tag } => SyncStepView::DeleteTag { tag: tag@ },
            SyncStep::Fetch { remote, refspec } => SyncStepView::Fetch {
                remote: remote@,
                refspec: refspec@,
            },
            SyncStep::Done => SyncStepView::Done,
        }
    }
}

/// How the operation of the last step went.
#[derive(Debug)]
pub enum SyncEvent {
    /// The remote was looked for.
    RemoteFound { exists: bool },
    /// The names of the local tags; one that is not text is left out.
    Tags { names: Vec<Option<String>> },
    /// The operation was carried out.
    Carried,
    /// The operation failed, for the reason that git gives.
    Failed { message: String },
}

/// How the operation of the last step went, as text.
pub enum SyncEventView {
    RemoteFound { exists: bool },
    Tags { tags: Seq<Seq<char>> },
    Carried,
    Failed { message: Seq<char> },
}

/// The names among a list that are text.
pub open spec fn named_tags(names: Seq<Option<String>>) -> Seq<Seq<char>>
    decreases names.len(),
{
    if names.len() == 0 {
        Seq::empty()
    } else {
        match names.last() {
            Some(name) => named_tags(names.drop_last()).push(name@),
            None => named_tags(names.drop_last()),
        }
    }
}

impl View for SyncEvent {
    type V = SyncEventView;

    open spec fn view(&self) -> SyncEventView {
        match self {
            SyncEvent::RemoteFound { exists } => SyncEventView::RemoteFound { exists: *exists },
            SyncEvent::Tags { names } => SyncEventView::Tags { tags: named_tags(names@) },
            SyncEvent::Carried => SyncEventView::Carried,
            SyncEvent::Failed { message } => SyncEventView::Failed { message: message@ },
        }
    }
}

/// How far the work has come.
#[derive(Debug)]
pub enum SyncStage {
    FindingRemote,
    SettingUrl,
    CreatingRemote,
    ListingTags,
    /// The tags that are still to be deleted, in reverse order.
    DeletingTags { tags: Vec<String> },
    Fetching,
    Done,
}

/// How far the work has come, as text, or that it has failed.
pub enum SyncStageView {
    FindingRemote,
    SettingUrl,
    CreatingRemote,
    ListingTags,
    DeletingTags { tags: Seq<Seq<char>> },
    Fetching,
    Done,
    Failed { error: GitErrorView },
}

/// The texts of a list, last one first.
pub open spec fn reversed_texts(list: Seq<String>) -> Seq<Seq<char>> {
    Seq::new(list.len(), |i: int| list[list.len() - 1 - i]@)
}

impl View for SyncStage {
    type V = SyncStageView;

    open spec fn view(&self) -> SyncStageView {
        match self {
            SyncStage::FindingRemote => SyncStageView::FindingRemote,
            SyncStage::SettingUrl => SyncStageView::SettingUrl,
            SyncStage::CreatingRemote => SyncStageView::CreatingRemote,
            SyncStage::ListingTags => SyncStageView::ListingTags,
            SyncStage::DeletingTags { tags } => SyncStageView::DeletingTags {
                tags: reversed_texts(tags@),
            },
            SyncStage::Fetching => SyncStageView::Fetching,
            SyncStage::Done => SyncStageView::Done,
        }
    }
}

/// A repository that is being brought up to date.
#[derive(Debug)]
pub struct RepoSync {
    pub url: String,
    pub stage: SyncStage,
}

/// Deleting goes on as long as there are tags; then everything is fetched.
pub open spec fn deleting(tags: Seq<Seq<char>>) -> SyncStageView {
    if tags.len() > 0 {
        SyncStageView::DeletingTags { tags }
    } else {
        SyncStageView::Fetching
    }
}

/// The stage waits for an event of this kind.
pub open spec fn takes(stage: SyncStageView, event: SyncEventView) -> bool {
    match stage {
        SyncStageView::FindingRemote => event is RemoteFound,
        SyncStageView::ListingTags => event is Tags || event is Failed,
        SyncStageView::SettingUrl
        | SyncStageView::CreatingRemote
        | SyncStageView::Fetching => event is Carried || event is Failed,
        SyncStageView::DeletingTags { tags } => tags.len() > 0 && (event is Carried
            || event is Failed),
        SyncStageView::Done | SyncStageView::Failed { .. } => false,
    }
}

/// The stage that follows an event.
pub open spec fn stage_after(
    stage: SyncStageView,
    event: SyncEventView,
    url: Seq<char>,
) -> SyncStageView {
    match (stage, event) {
        (SyncStageView::Fetching, SyncEventView::Failed { message }) => SyncStageView::Failed {
            error: GitErrorView::Fetch { url, message },
        },
        (_, SyncEventView::Failed { message }) => SyncStageView::Failed {
            error: GitErrorView::Repository { message },
        },
        (SyncStageView::FindingRemote, SyncEventView::RemoteFound { exists }) => if exists {
            SyncStageView::SettingUrl
        } else {
            SyncStageView::CreatingRemote
        },
        (SyncStageView::SettingUrl, _) | (SyncStageView::CreatingRemote, _) =>
            SyncStageView::ListingTags,
        (SyncStageView::ListingTags, SyncEventView::Tags { tags }) => deleting(tags),
        (SyncStageView::DeletingTags { tags }, _) => deleting(tags.skip(1)),
        (SyncStageView::Fetching, _) => SyncStageView::Done,
        _ => stage,
    }
}

/// The operation of a stage.
pub open spec fn step_of(stage: SyncStageView, url: Seq<char>) -> SyncStepView {
    match stage {
        SyncStageView::FindingRemote => SyncStepView::FindRemote { remote: "origin"@ },
        SyncStageView::SettingUrl => SyncStepView::SetUrl { remote: "origin"@, url },
        SyncStageView::CreatingRemote => SyncStepView::CreateRemote { remote: "origin"@, url },
        SyncStageView::ListingTags => SyncStepView::ListTags,
        SyncStageView::DeletingTags { tags } => SyncStepView::DeleteTag { tag: tags[0] },
        SyncStageView::Fetching => SyncStepView::Fetch {
            remote: "origin"@,
            refspec: "+refs/*:refs/*"@,
        },
        SyncStageView::Done => SyncStepView::Done,
        SyncStageView::Failed { error } => SyncStepView::Failed { error },
    }
}

/// The error of a flake that git cannot fetch.
pub open spec fn not_fetchable(flake: FlakeRefView, error: GitErrorView) -> bool {
    error matches GitErrorView::NotFetchable { error: reason } && flake.git_fetch_error(reason)
}

impl RepoSync {
    /// There is a tag to delete as long as tags are being deleted.
    pub open spec fn well_formed(self) -> bool {
        self.stage@ matches SyncStageView::DeletingTags { tags } ==> tags.len() > 0
    }

    /// Begins to bring a repository up to date with the origin of a flake.
    pub fn new(flake_ref: &FlakeRef) -> (sync: Result<RepoSync, GitError>)
        ensures
            match sync {
                Ok(s) => {
                    &&& flake_ref@.git_fetch_url() == Some(s.url@)
                    &&& s.stage@ == SyncStageView::FindingRemote
                    &&& s.well_formed()
                },
                Err(error) => {
                    &&& flake_ref@.git_fetch_url() is None
                    &&& not_fetchable(flake_ref@, error@)
                },
            },
    {
        match flake_ref.to_git_fetch_url() {
            Ok(url) => Ok(RepoSync { url, stage: SyncStage::FindingRemote }),
            Err(error) => Err(GitError::NotFetchable { error }),
        }
    }

    /// The operation to carry out.
    pub fn step(&self) -> (step: SyncStep)
        requires
            self.well_formed(),
        ensures
            step@ == step_of(self.stage@, self.url@),
    {
        match &self.stage {
            SyncStage::FindingRemote => SyncStep::FindRemote { remote: "origin".to_owned() },
            SyncStage::SettingUrl => SyncStep::SetUrl {
                remote: "origin".to_owned(),
                url: self.url.clone(),
            },
            SyncStage::CreatingRemote => SyncStep::CreateRemote {
                remote: "origin".to_owned(),
                url: self.url.clone(),
            },
            SyncStage::ListingTags => SyncStep::ListTags,
            SyncStage::DeletingTags { tags } => SyncStep::DeleteTag {
                tag: tags[tags.len() - 1].clone(),
            },
            SyncStage::Fetching => SyncStep::Fetch {
                remote: "origin".to_owned(),
                refspec: "+refs/*:refs/*".to_owned(),
            },
            SyncStage::Done => SyncStep::Done,
        }
    }

    /// Goes on with how the operation of the last step went.
    pub fn advance(self, event: SyncEvent) -> (next: Result<RepoSync, GitError>)
        requires
            self.well_formed(),
            takes(self.stage@, event@),
        ensures
            match next {
                Ok(sync) => {
                    &&& sync.well_formed()
                    &&& sync.url == self.url
                    &&& sync.stage@ == stage_after(self.stage@, event@, self.url@)
                    &&& sync.stage@ !is Failed
                },
                Err(error) => stage_after(self.stage@, event@, self.url@) == (
                SyncStageView::Failed { error: error@ }),
            },
    {
        let url = self.url;
        let stage = match (self.stage, event) {
            (SyncStage::Fetching, SyncEvent::Failed { message }) => {
                return Err(GitError::Fetch { url, message });
            },
            (_, SyncEvent::Failed { message }) => {
                return Err(GitError::Repository { message });
            },
            (SyncStage::FindingRemote, SyncEvent::RemoteFound { exists }) => if exists {
                SyncStage::SettingUrl
            } else {
                SyncStage::CreatingRemote
            },
            (SyncStage::SettingUrl, _) => SyncStage::ListingTags,
            (SyncStage::CreatingRemote, _) => SyncStage::ListingTags,
            (SyncStage::ListingTags, SyncEvent::Tags { names }) => delete_all(names),
            (SyncStage::DeletingTags { tags }, _) => {
                let mut left = tags;
                let _ = left.pop();
                assert(reversed_texts(left@) =~= reversed_texts(tags@).skip(1));
                if left.len() > 0 {
                    SyncStage::DeletingTags { tags: left }
                } else {
                    SyncStage::Fetching
                }
            },
            (SyncStage::Fetching, _) => SyncStage::Done,
            (stage, _) => stage,
        };
        Ok(RepoSync { url, stage })
    }
}

fn delete_all(names: Vec<Option<String>>) -> (stage: SyncStage)
    ensures
        stage@ == deleting(named_tags(names@)),
{
    let mut tags: Vec<String> = Vec::new();
    let mut i: usize = names.len();
    let ghost all = named_tags(names@);
    assert(names@.take(i as int) == names@);
    assert(named_tags(names@) + reversed_texts(tags@) =~= all);
    while i > 0
        invariant
            i <= names.len(),
            all == named_tags(names@),
            named_tags(names@.take(i as int)) + reversed_texts(tags@) == all,
        decreases i,
    {
        let ghost seen = names@.take(i as int);
        assert(seen.drop_last() == names@.take(i - 1));
        assert(seen.last() == names@[i - 1]);
        if let Some(name) = &names[i - 1] {
            let ghost old_tags = tags@;
            tags.push(name.clone());
            assert(reversed_texts(tags@) =~= seq![name@] + reversed_texts(old_tags));
            assert(named_tags(seen.drop_last()).push(name@) + reversed_texts(old_tags)
                =~= named_tags(seen.drop_last()) + reversed_texts(tags@));
        }
        i = i - 1;
    }
    assert(names@.take(0) == Seq::<Option<String>>::empty());
    assert(reversed_texts(tags@) =~= all);
    if tags.len() > 0 {
        SyncStage::DeletingTags { tags }
    } else {
        SyncStage::Fetching
    }
}

/// The stage after a number of operations that were carried out.
pub open spec fn stage_at(stage: SyncStageView, url: Seq<char>, carried: nat) -> SyncStageView
    decreases carried,
{
    if carried == 0 {
        stage
    } else {
        stage_after(
            stage_at(stage, url, (carried - 1) as nat),
            SyncEventView::Carried,
            url,
        )
    }
}

/// Every tag that was listed is deleted, one after the other, and only then is
/// anything fetched: a tag that was moved or deleted at the origin is seen.
pub proof fn lemma_tags_are_deleted_before_the_fetch(
    tags: Seq<Seq<char>>,
    url: Seq<char>,
    carried: nat,
)
    requires
        carried <= tags.len(),
    ensures
        ({
            let listed = stage_after(SyncStageView::ListingTags, SyncEventView::Tags { tags }, url);
            let step = step_of(stage_at(listed, url, carried), url);
            if carried < tags.len() {
                step == (SyncStepView::DeleteTag { tag: tags[carried as int] })
            } else {
                step == (SyncStepView::Fetch { remote: "origin"@, refspec: "+refs/*:refs/*"@ })
            }
        }),
{
    lemma_deleting_goes_on(tags, url, carried);
}

proof fn lemma_deleting_goes_on(tags: Seq<Seq<char>>, url: Seq<char>, carried: nat)
    requires
        carried <= tags.len(),
    ensures
        stage_at(deleting(tags), url, carried) == deleting(tags.skip(carried as int)),
    decreases carried,
{
    if carried == 0 {
        assert(tags.skip(0) == tags);
    } else {
        let before = (carried - 1) as nat;
        lemma_deleting_goes_on(tags, url, before);
        assert(tags.skip(before as int).skip(1) == tags.skip(carried as int));
    }
}

/// Whether the remote was there or not, it points at the URL of the flake before
/// anything else is done.
pub proof fn lemma_remote_points_at_the_url(url: Seq<char>, exists: bool)
    ensures
        ({
            let stage = stage_after(
                SyncStageView::FindingRemote,
                SyncEventView::RemoteFound { exists },
                url,
            );
            &&& step_of(stage, url) == (if exists {
                SyncStepView::SetUrl { remote: "origin"@, url }
            } else {
                SyncStepView::CreateRemote { remote: "origin"@, url }
            })
            &&& stage_after(stage, SyncEventView::Carried, url) is ListingTags
        }),
{
}

/// A failed fetch is reported with the URL and with what git said; any other failed
/// operation with what git said alone. Nothing is done after a failure.
pub proof fn lemma_failure_says_what_git_said(
    stage: SyncStageView,
    url: Seq<char>,
    message: Seq<char>,
)
    requires
        takes(stage, SyncEventView::Failed { message }),
    ensures
        ({
            let ended = stage_after(stage, SyncEventView::Failed { message }, url);
            let error = if stage is Fetching {
                GitErrorView::Fetch { url, message }
            } else {
                GitErrorView::Repository { message }
            };
            &&& step_of(ended, url) == (SyncStepView::Failed { error })
            &&& forall|later: SyncEventView| !#[trigger] takes(ended, later)
        }),
{
}

/// A sync that does not fail looks for the remote, points it at the URL of the
/// flake, lists the tags, deletes every one of them, fetches everything, and is
/// over. Each operation is about the one remote.
pub proof fn lemma_sync_goes_through_every_operation(
    url: Seq<char>,
    exists: bool,
    tags: Seq<Seq<char>>,
)
    ensures
        ({
            let pointed = stage_after(
                SyncStageView::FindingRemote,
                SyncEventView::RemoteFound { exists },
                url,
            );
            let listing = stage_after(pointed, SyncEventView::Carried, url);
            let listed = stage_after(listing, SyncEventView::Tags { tags }, url);
            let cleared = stage_at(listed, url, tags.len());
            let fetched = stage_after(cleared, SyncEventView::Carried, url);
            &&& step_of(SyncStageView::FindingRemote, url) == (SyncStepView::FindRemote {
                remote: "origin"@,
            })
            &&& exists ==> step_of(pointed, url) == (SyncStepView::SetUrl {
                remote: "origin"@,
                url,
            })
            &&& !exists ==> step_of(pointed, url) == (SyncStepView::CreateRemote {
                remote: "origin"@,
                url,
            })
            &&& step_of(listing, url) is ListTags
            &&& forall|i: int|
                0 <= i < tags.len() ==> step_of(
                    #[trigger] stage_at(listed, url, i as nat),
                    url,
                ) == (SyncStepView::DeleteTag { tag: tags[i] })
            &&& step_of(cleared, url) == (SyncStepView::Fetch {
                remote: "origin"@,
                refspec: "+refs/*:refs/*"@,
            })
            &&& step_of(fetched, url) is Done
        }),
{
    let listed = stage_after(SyncStageView::ListingTags, SyncEventView::Tags { tags }, url);
    assert forall|i: int| 0 <= i < tags.len() implies step_of(
        #[trigger] stage_at(listed, url, i as nat),
        url,
    ) == (SyncStepView::DeleteTag { tag: tags[i] }) by {
        lemma_tags_are_deleted_before_the_fetch(tags, url, i as nat);
    }
    lemma_tags_are_deleted_before_the_fetch(tags, url, tags.len());
    lemma_deleting_goes_on(tags, url, tags.len());
}

/// Every name that is text counts as a tag, in the order of the list; a name that is
/// not is left out.
pub proof fn lemma_named_tags_are_the_names_in_order(
    names: Seq<Option<String>>,
    name: String,
)
    ensures
        named_tags(Seq::<Option<String>>::empty()) == Seq::<Seq<char>>::empty(),
        named_tags(names.push(Some(name))) == named_tags(names).push(name@),
        named_tags(names.push(None)) == named_tags(names),
{
    assert(names.push(Some(name)).drop_last() =~= names);
    assert(names.push(None).drop_last() =~= names);
}

/// The tags that are still to be deleted are those of the list, from its end.
pub proof fn lemma_tags_are_taken_from_the_end(list: Seq<String>)
    ensures
        reversed_texts(list).len() == list.len(),
        forall|i: int|
            0 <= i < list.len() ==> #[trigger] reversed_texts(list)[i] == list[list.len() - 1
                - i]@,
{
}

/// A flake that git cannot fetch is refused with the reason of the flake.
pub proof fn lemma_unfetchable_flake_is_refused(flake: FlakeRefView, error: GitErrorView)
    requires
        not_fetchable(flake, error),
    ensures
        error matches GitErrorView::NotFetchable { error: reason } && flake.git_fetch_error(reason)
            && error.text() == reason.text(),
{
}

/// What a step, an event and a stage say is what they hold.
pub proof fn lemma_sync_says_what_it_holds(step: SyncStep, event: SyncEvent, stage: SyncStage)
    ensures
        match step {
            SyncStep::FindRemote { remote } => step@ == (SyncStepView::FindRemote {
                remote: remote@,
            }),
            SyncStep::SetUrl { remote, url } => step@ == (SyncStepView::SetUrl {
                remote: remote@,
                url: url@,
            }),
            SyncStep::CreateRemote { remote, url } => step@ == (SyncStepView::CreateRemote {
                remote: remote@,
                url: url@,
            }),
            SyncStep::ListTags => step@ is ListTags,
            SyncStep::DeleteTag { tag } => step@ == (SyncStepView::DeleteTag { tag: tag@ }),
            SyncStep::Fetch { remote, refspec } => step@ == (SyncStepView::Fetch {
                remote: remote@,
                refspec: refspec@,
            }),
            SyncStep::Done => step@ is Done,
        },
        match event {
            SyncEvent::RemoteFound { exists } => event@ == (SyncEventView::RemoteFound { exists }),
            SyncEvent::Tags { names } => event@ == (SyncEventView::Tags {
                tags: named_tags(names@),
            }),
            SyncEvent::Carried => event@ is Carried,
            SyncEvent::Failed { message } => event@ == (SyncEventView::Failed {
                message: message@,
            }),
        },
        match stage {
            SyncStage::FindingRemote => stage@ is FindingRemote,
            SyncStage::SettingUrl => stage@ is SettingUrl,
            SyncStage::CreatingRemote => stage@ is CreatingRemote,
            SyncStage::ListingTags => stage@ is ListingTags,
            SyncStage::DeletingTags { tags } => stage@ == (SyncStageView::DeletingTags {
                tags: reversed_texts(tags@),
            }),
            SyncStage::Fetching => stage@ is Fetching,
            SyncStage::Done => stage@ is Done,
        },
{
}

/// Every way in which an operation can go is taken, whatever it holds.
pub proof fn lemma_every_outcome_is_taken(
    exists: bool,
    tags: Seq<Seq<char>>,
    left: Seq<Seq<char>>,
    message: Seq<char>,
)
    ensures
        ({
            let failed = SyncEventView::Failed { message };
            &&& takes(SyncStageView::FindingRemote, SyncEventView::RemoteFound { exists })
            &&& takes(SyncStageView::SettingUrl, SyncEventView::Carried)
            &&& takes(SyncStageView::SettingUrl, failed)
            &&& takes(SyncStageView::CreatingRemote, SyncEventView::Carried)
            &&& takes(SyncStageView::CreatingRemote, failed)
            &&& takes(SyncStageView::ListingTags, SyncEventView::Tags { tags })
            &&& takes(SyncStageView::ListingTags, failed)
            &&& left.len() > 0 ==> takes(
                SyncStageView::DeletingTags { tags: left },
                SyncEventView::Carried,
            ) && takes(SyncStageView::DeletingTags { tags: left }, failed)
            &&& takes(SyncStageView::Fetching, SyncEventView::Carried)
            &&& takes(SyncStageView::Fetching, failed)
        }),
{
}

/// A sync is in order in every stage; only one that deletes tags must have some left.
pub proof fn lemma_sync_is_in_order(sync: RepoSync)
    ensures
        sync.well_formed() <==> (sync.stage@ matches SyncStageView::DeletingTags { tags }
            ==> tags.len() > 0),
{
}

} // verus!
