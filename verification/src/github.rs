//! Synchronisation of a release with GitHub: what to request next, and what
//! the whole exchange comes to.

use crate::repository::{Provider, Repository, RepositoryView};
use crate::text::{decimal, push_decimal, push_text, string_of};
use vstd::prelude::*;

verus! {

/// What became of a release on GitHub.
#[derive(Debug, Clone, PartialEq, Eq)]
pub struct ReleaseInfo {
    pub tag: String,
    pub url: String,
    pub created: bool,
    pub updated: bool,
    /// Nothing was sent: the address is where the release can be made by hand.
    pub skipped: bool,
}

/// A `ReleaseInfo` with its texts as character sequences.
pub struct ReleaseInfoView {
    pub tag: Seq<char>,
    pub url: Seq<char>,
    pub created: bool,
    pub updated: bool,
    pub skipped: bool,
}

impl View for ReleaseInfo {
    type V = ReleaseInfoView;

    open spec fn view(&self) -> ReleaseInfoView {
        ReleaseInfoView {
            tag: self.tag@,
            url: self.url@,
            created: self.created,
            updated: self.updated,
            skipped: self.skipped,
        }
    }
}

/// Why a release could not be synchronised.
#[derive(Debug, PartialEq, Eq)]
pub enum GithubError {
    NoRepo,
    NotGithub,
    Network(String),
    Status(u16),
}

/// A `GithubError` with its text as a character sequence.
pub enum GithubErrorView {
    NoRepo,
    NotGithub,
    Network(Seq<char>),
    Status(u16),
}

impl View for GithubError {
    type V = GithubErrorView;

    open spec fn view(&self) -> GithubErrorView {
        match self {
            GithubError::NoRepo => GithubErrorView::NoRepo,
            GithubError::NotGithub => GithubErrorView::NotGithub,
            GithubError::Network(m) => GithubErrorView::Network(m@),
            GithubError::Status(s) => GithubErrorView::Status(*s),
        }
    }
}

impl GithubError {
    /// The error in words.
    pub open spec fn message(&self) -> Seq<char> {
        match self {
            GithubError::NoRepo => "no repository information available for github sync"@,
            GithubError::NotGithub => "repository provider not GitHub"@,
            GithubError::Network(m) => "network error: "@ + m@,
            GithubError::Status(s) => "unexpected response status "@ + decimal(*s as nat),
        }
    }

    /// The error in words.
    pub fn to_string(&self) -> (r: String)
        ensures
            r@ == self.message(),
    {
        let mut out: Vec<char> = Vec::new();
        match self {
            GithubError::NoRepo => {
                push_text(&mut out, "no repository information available for github sync");
            },
            GithubError::NotGithub => {
                push_text(&mut out, "repository provider not GitHub");
            },
            GithubError::Network(m) => {
                push_text(&mut out, "network error: ");
                push_text(&mut out, m.as_str());
            },
            GithubError::Status(s) => {
                push_text(&mut out, "unexpected response status ");
                push_decimal(&mut out, *s as u64);
            },
        }
        string_of(out.as_slice())
    }
}

/// Where an exchange with GitHub stands.
#[derive(Debug, PartialEq, Eq)]
pub enum SyncState {
    /// Nothing was sent yet.
    Start,
    /// The release for the tag was asked for.
    Looking,
    /// A new release was sent.
    Creating,
    /// The new text of the release at `url` was sent.
    Updating { url: String },
    /// The exchange is over.
    Done,
}

/// What happened since the last request.
#[derive(Debug, PartialEq, Eq)]
pub enum SyncEvent {
    /// The exchange is to begin.
    Begin,
    /// The request could not be sent or no answer came.
    SendFailed(String),
    /// An answer came with this status, and its body was not read.
    Status(u16),
    /// An answer of success came, and its body names this release.
    Release { id: u64, url: String },
    /// An answer of success came, and its body could not be read.
    BadBody(String),
}

/// What to do next.
#[derive(Debug, PartialEq, Eq)]
pub enum SyncAction {
    /// Nothing: the event was not awaited.
    Idle,
    /// Ask for the release at `url`.
    Get { url: String },
    /// Send a new release to `url`.
    Post { url: String, tag_name: String, name: String, body: String },
    /// Send the new text of the release at `url`.
    Patch { url: String, body: String },
    /// The exchange is over with this outcome.
    Finish(Result<ReleaseInfo, GithubError>),
}

/// `SyncState` over character sequences.
pub enum SyncStateView {
    Start,
    Looking,
    Creating,
    Updating { url: Seq<char> },
    Done,
}

/// `SyncEvent` over character sequences.
pub enum SyncEventView {
    Begin,
    SendFailed(Seq<char>),
    Status(u16),
    Release { id: u64, url: Seq<char> },
    BadBody(Seq<char>),
}

/// `SyncAction` over character sequences.
pub enum SyncActionView {
    Idle,
    Get { url: Seq<char> },
    Post { url: Seq<char>, tag_name: Seq<char>, name: Seq<char>, body: Seq<char> },
    Patch { url: Seq<char>, body: Seq<char> },
    Finish(Result<ReleaseInfoView, GithubErrorView>),
}

impl View for SyncState {
    type V = SyncStateView;

    open spec fn view(&self) -> SyncStateView {
        match self {
            SyncState::Start => SyncStateView::Start,
            SyncState::Looking => SyncStateView::Looking,
            SyncState::Creating => SyncStateView::Creating,
            SyncState::Updating { url } => SyncStateView::Updating { url: url@ },
            SyncState::Done => SyncStateView::Done,
        }
    }
}

impl View for SyncEvent {
    type V = SyncEventView;

    open spec fn view(&self) -> SyncEventView {
        match self {
            SyncEvent::Begin => SyncEventView::Begin,
            SyncEvent::SendFailed(e) => SyncEventView::SendFailed(e@),
            SyncEvent::Status(s) => SyncEventView::Status(*s),
            SyncEvent::Release { id, url } => SyncEventView::Release { id: *id, url: url@ },
            SyncEvent::BadBody(e) => SyncEventView::BadBody(e@),
        }
    }
}

impl View for SyncAction {
    type V = SyncActionView;

    open spec fn view(&self) -> SyncActionView {
        match self {
            SyncAction::Idle => SyncActionView::Idle,
            SyncAction::Get { url } => SyncActionView::Get { url: url@ },
            SyncAction::Post { url, tag_name, name, body } => SyncActionView::Post {
                url: url@,
                tag_name: tag_name@,
                name: name@,
                body: body@,
            },
            SyncAction::Patch { url, body } => SyncActionView::Patch { url: url@, body: body@ },
            SyncAction::Finish(Ok(info)) => SyncActionView::Finish(Ok(info@)),
            SyncAction::Finish(Err(e)) => SyncActionView::Finish(Err(e@)),
        }
    }
}

/// The page on which a release for `tag` can be made by hand.
pub open spec fn manual_url(repo: RepositoryView, tag: Seq<char>) -> Seq<char> {
    "https://github.com/"@ + repo.owner + "/"@ + repo.name + "/releases/tag/"@ + tag
}

/// The address of GitHub's interface: the one that is given, or the public
/// one.
pub open spec fn api_root(api_base: Option<Seq<char>>) -> Seq<char> {
    match api_base {
        Some(base) => base,
        None => "https://api.github.com"@,
    }
}

/// The address of the repository's releases in GitHub's interface.
pub open spec fn releases_api(repo: RepositoryView, api_base: Option<Seq<char>>) -> Seq<char> {
    api_root(api_base) + "/repos/"@ + repo.owner + "/"@ + repo.name + "/releases"@
}

/// The address at which GitHub is asked for the user with an address.
pub open spec fn user_search(api_base: Option<Seq<char>>, email: Seq<char>) -> Seq<char> {
    api_root(api_base) + "/search/users?q="@ + email + "+in:email"@
}

/// The view of an optional text.
pub open spec fn base_view(api_base: Option<&str>) -> Option<Seq<char>> {
    match api_base {
        Some(b) => Some(b@),
        None => None,
    }
}

/// The outcome where nothing was sent.
pub open spec fn skipped_info(repo: RepositoryView, tag: Seq<char>) -> ReleaseInfoView {
    ReleaseInfoView {
        tag,
        url: manual_url(repo, tag),
        created: false,
        updated: false,
        skipped: true,
    }
}

/// The step of the exchange: the state after `event`, and what to do next.
///
/// At the start, a repository that is not on GitHub ends the exchange with an
/// error, a missing token ends it with the manual address, and else the
/// release for the tag is asked for. If none exists (status 404) a new one is
/// sent; if one exists its text is sent anew; any other answer ends the
/// exchange with the manual address. A new release that is refused ends it
/// with the status; an update ends it well whatever the answer. A request
/// that cannot be sent, or an answer of success that cannot be read, ends it
/// with a network error.
pub open spec fn sync_transition(
    state: SyncStateView,
    event: SyncEventView,
    repo: RepositoryView,
    has_token: bool,
    tag: Seq<char>,
    body: Seq<char>,
    api_base: Option<Seq<char>>,
) -> (SyncStateView, SyncActionView) {
    match (state, event) {
        (SyncStateView::Start, SyncEventView::Begin) => if repo.provider != Provider::GitHub {
            (SyncStateView::Done, SyncActionView::Finish(Err(GithubErrorView::NotGithub)))
        } else if !has_token {
            (SyncStateView::Done, SyncActionView::Finish(Ok(skipped_info(repo, tag))))
        } else {
            (
                SyncStateView::Looking,
                SyncActionView::Get { url: releases_api(repo, api_base) + "/tags/"@ + tag },
            )
        },
        (SyncStateView::Looking, SyncEventView::Status(s)) => if s == 404 {
            (
                SyncStateView::Creating,
                SyncActionView::Post {
                    url: releases_api(repo, api_base),
                    tag_name: tag,
                    name: tag,
                    body,
                },
            )
        } else {
            (SyncStateView::Done, SyncActionView::Finish(Ok(skipped_info(repo, tag))))
        },
        (SyncStateView::Looking, SyncEventView::Release { id, url }) => (
            SyncStateView::Updating { url },
            SyncActionView::Patch {
                url: releases_api(repo, api_base) + "/"@ + decimal(id as nat),
                body,
            },
        ),
        (SyncStateView::Creating, SyncEventView::Status(s)) => (
            SyncStateView::Done,
            SyncActionView::Finish(Err(GithubErrorView::Status(s))),
        ),
        (SyncStateView::Creating, SyncEventView::Release { id, url }) => (
            SyncStateView::Done,
            SyncActionView::Finish(
                Ok(ReleaseInfoView { tag, url, created: true, updated: false, skipped: false }),
            ),
        ),
        (SyncStateView::Updating { url }, SyncEventView::SendFailed(e)) => (
            SyncStateView::Done,
            SyncActionView::Finish(Err(GithubErrorView::Network(e))),
        ),
        (SyncStateView::Updating { url }, SyncEventView::Begin) => (state, SyncActionView::Idle),
        (SyncStateView::Updating { url }, _) => (
            SyncStateView::Done,
            SyncActionView::Finish(
                Ok(ReleaseInfoView { tag, url, created: false, updated: true, skipped: false }),
            ),
        ),
        (SyncStateView::Looking, SyncEventView::SendFailed(e)) | (
            SyncStateView::Creating,
            SyncEventView::SendFailed(e),
        ) | (SyncStateView::Looking, SyncEventView::BadBody(e)) | (
            SyncStateView::Creating,
            SyncEventView::BadBody(e),
        ) => (SyncStateView::Done, SyncActionView::Finish(Err(GithubErrorView::Network(e)))),
        _ => (state, SyncActionView::Idle),
    }
}

/// Whether a status is one of success.
pub open spec fn is_success(status: u16) -> bool {
    200 <= status < 300
}

/// Whether a status is one of success.
pub fn status_is_success(status: u16) -> (r: bool)
    ensures
        r == is_success(status),
{
    200 <= status && status < 300
}

/// The address of GitHub's interface.
fn api_root_of(api_base: Option<&str>) -> (r: Vec<char>)
    ensures
        r@ == api_root(base_view(api_base)),
{
    let mut out: Vec<char> = Vec::new();
    match api_base {
        Some(base) => {
            push_text(&mut out, base);
        },
        None => {
            push_text(&mut out, "https://api.github.com");
        },
    }
    out
}

/// The address of the repository's releases in GitHub's interface.
fn releases_of(repo: &Repository, api_base: Option<&str>) -> (r: Vec<char>)
    ensures
        r@ == releases_api(repo@, base_view(api_base)),
{
    let mut out = api_root_of(api_base);
    push_text(&mut out, "/repos/");
    push_text(&mut out, repo.owner.as_str());
    push_text(&mut out, "/");
    push_text(&mut out, repo.name.as_str());
    push_text(&mut out, "/releases");
    assert(out@ =~= releases_api(repo@, base_view(api_base)));
    out
}

/// The address at which GitHub is asked for the user with the address
/// `email`.
pub fn user_search_url(api_base: Option<&str>, email: &str) -> (r: String)
    ensures
        r@ == user_search(base_view(api_base), email@),
{
    let mut out = api_root_of(api_base);
    push_text(&mut out, "/search/users?q=");
    push_text(&mut out, email);
    push_text(&mut out, "+in:email");
    assert(out@ =~= user_search(base_view(api_base), email@));
    string_of(out.as_slice())
}

/// The handle under which the user with the login `login` is shown.
pub fn handle_of(login: &str) -> (r: String)
    ensures
        r@ == "@"@ + login@,
{
    let mut out: Vec<char> = Vec::new();
    push_text(&mut out, "@");
    push_text(&mut out, login);
    string_of(out.as_slice())
}

/// The outcome where nothing was sent.
fn skipped(repo: &Repository, tag: &str) -> (r: ReleaseInfo)
    ensures
        r@ == skipped_info(repo@, tag@),
{
    let mut out: Vec<char> = Vec::new();
    push_text(&mut out, "https://github.com/");
    push_text(&mut out, repo.owner.as_str());
    push_text(&mut out, "/");
    push_text(&mut out, repo.name.as_str());
    push_text(&mut out, "/releases/tag/");
    push_text(&mut out, tag);
    assert(out@ =~= manual_url(repo@, tag@));
    ReleaseInfo {
        tag: tag.to_owned(),
        url: string_of(out.as_slice()),
        created: false,
        updated: false,
        skipped: true,
    }
}

/// Takes one step of the exchange with GitHub over the release for `tag`
/// with the text `body`: from the state and what happened since the last
/// request to the next state and what to do now.
pub fn sync_step(
    state: SyncState,
    event: SyncEvent,
    repo: &Repository,
    has_token: bool,
    tag: &str,
    body: &str,
    api_base: Option<&str>,
) -> (r: (SyncState, SyncAction))
    ensures
        (r.0@, r.1@) == sync_transition(
            state@,
            event@,
            repo@,
            has_token,
            tag@,
            body@,
            base_view(api_base),
        ),
{
    match (state, event) {
        (SyncState::Start, SyncEvent::Begin) => {
            if !matches!(repo.provider, Provider::GitHub) {
                (SyncState::Done, SyncAction::Finish(Err(GithubError::NotGithub)))
            } else if !has_token {
                (SyncState::Done, SyncAction::Finish(Ok(skipped(repo, tag))))
            } else {
                let mut url = releases_of(repo, api_base);
                push_text(&mut url, "/tags/");
                push_text(&mut url, tag);
                (SyncState::Looking, SyncAction::Get { url: string_of(url.as_slice()) })
            }
        },
        (SyncState::Looking, SyncEvent::Status(s)) => {
            if s == 404 {
                let url = releases_of(repo, api_base);
                (
                    SyncState::Creating,
                    SyncAction::Post {
                        url: string_of(url.as_slice()),
                        tag_name: tag.to_owned(),
                        name: tag.to_owned(),
                        body: body.to_owned(),
                    },
                )
            } else {
                (SyncState::Done, SyncAction::Finish(Ok(skipped(repo, tag))))
            }
        },
        (SyncState::Looking, SyncEvent::Release { id, url }) => {
            let mut target = releases_of(repo, api_base);
            push_text(&mut target, "/");
            push_decimal(&mut target, id);
            (
                SyncState::Updating { url },
                SyncAction::Patch { url: string_of(target.as_slice()), body: body.to_owned() },
            )
        },
        (SyncState::Creating, SyncEvent::Status(s)) => (
            SyncState::Done,
            SyncAction::Finish(Err(GithubError::Status(s))),
        ),
        (SyncState::Creating, SyncEvent::Release { id, url }) => (
            SyncState::Done,
            SyncAction::Finish(
                Ok(
                    ReleaseInfo {
                        tag: tag.to_owned(),
                        url,
                        created: true,
                        updated: false,
                        skipped: false,
                    },
                ),
            ),
        ),
        (SyncState::Updating { url }, SyncEvent::SendFailed(e)) => (
            SyncState::Done,
            SyncAction::Finish(Err(GithubError::Network(e))),
        ),
        (SyncState::Updating { url }, SyncEvent::Begin) => (
            SyncState::Updating { url },
            SyncAction::Idle,
        ),
        (SyncState::Updating { url }, _) => (
            SyncState::Done,
            SyncAction::Finish(
                Ok(
                    ReleaseInfo {
                        tag: tag.to_owned(),
                        url,
                        created: false,
                        updated: true,
                        skipped: false,
                    },
                ),
            ),
        ),
        (SyncState::Looking, SyncEvent::SendFailed(e)) => (
            SyncState::Done,
            SyncAction::Finish(Err(GithubError::Network(e))),
        ),
        (SyncState::Creating, SyncEvent::SendFailed(e)) => (
            SyncState::Done,
            SyncAction::Finish(Err(GithubError::Network(e))),
        ),
        (SyncState::Looking, SyncEvent::BadBody(e)) => (
            SyncState::Done,
            SyncAction::Finish(Err(GithubError::Network(e))),
        ),
        (SyncState::Creating, SyncEvent::BadBody(e)) => (
            SyncState::Done,
            SyncAction::Finish(Err(GithubError::Network(e))),
        ),
        (state, _) => (state, SyncAction::Idle),
    }
}

/// How many requests an exchange in this state may still make.
pub open spec fn requests_left(state: SyncStateView) -> nat {
    match state {
        SyncStateView::Start => 3,
        SyncStateView::Looking => 2,
        SyncStateView::Creating => 1,
        SyncStateView::Updating { url } => 1,
        SyncStateView::Done => 0,
    }
}

/// Whether an action sends a request.
pub open spec fn is_request(action: SyncActionView) -> bool {
    action is Get || action is Post || action is Patch
}

/// Every step that does anything brings the exchange nearer to its end, so
/// an exchange makes three requests at most; a step that does nothing leaves
/// the state as it is; the exchange is over exactly when its outcome is
/// handed out; and the first request is made only with a token and for a
/// repository on GitHub.
pub proof fn lemma_sync_ends(
    state: SyncStateView,
    event: SyncEventView,
    repo: RepositoryView,
    has_token: bool,
    tag: Seq<char>,
    body: Seq<char>,
    api_base: Option<Seq<char>>,
)
    ensures
        ({
            let next = sync_transition(state, event, repo, has_token, tag, body, api_base);
            &&& next.1 is Idle ==> next.0 == state
            &&& !(next.1 is Idle) ==> requests_left(next.0) < requests_left(state)
            &&& next.1 is Finish <==> (next.0 is Done && !(state is Done))
            &&& state is Start && is_request(next.1) ==> has_token && repo.provider
                == Provider::GitHub
        }),
{
}

/// Without a token nothing is sent: the exchange ends at once, with the
/// manual address for a repository on GitHub and with an error for any other.
pub proof fn lemma_sync_without_token(
    repo: RepositoryView,
    tag: Seq<char>,
    body: Seq<char>,
    api_base: Option<Seq<char>>,
)
    ensures
        sync_transition(
            SyncStateView::Start,
            SyncEventView::Begin,
            repo,
            false,
            tag,
            body,
            api_base,
        ) == if repo.provider == Provider::GitHub {
            (SyncStateView::Done, SyncActionView::Finish(Ok(skipped_info(repo, tag))))
        } else {
            (SyncStateView::Done, SyncActionView::Finish(Err(GithubErrorView::NotGithub)))
        },
{
}

} // verus!
