use novalyn::github::{
    handle_of, status_is_success, sync_step, user_search_url, GithubError, ReleaseInfo,
    SyncAction, SyncEvent, SyncState,
};
use novalyn::repository::Repository;

fn finish(action: SyncAction) -> Result<ReleaseInfo, GithubError> {
    match action {
        SyncAction::Finish(r) => r,
        other => panic!("the exchange goes on: {:?}", other),
    }
}

#[test]
fn github_sync_fallback_without_token() {
    let repo = Repository::parse("https://github.com/owner/repo.git").unwrap();
    let (state, action) = sync_step(SyncState::Start, SyncEvent::Begin, &repo, false, "v0.1.0", "Body", None);
    assert_eq!(state, SyncState::Done);
    let info = finish(action).unwrap();
    assert!(info.skipped);
    assert!(info.url.contains("/releases/tag/v0.1.0"));
}

#[test]
fn github_sync_constructs_correct_manual_url() {
    let repo = Repository::parse("https://github.com/test/repo.git").unwrap();
    let (_, action) =
        sync_step(SyncState::Start, SyncEvent::Begin, &repo, false, "v1.2.3", "Release body", None);
    let info = finish(action).unwrap();

    assert!(info.skipped, "should skip when no token");
    assert!(!info.created, "should not be marked as created");
    assert!(!info.updated, "should not be marked as updated");
    assert_eq!(info.tag, "v1.2.3");
    assert_eq!(info.url, "https://github.com/test/repo/releases/tag/v1.2.3");
}

#[test]
fn github_sync_non_github_repo_error() {
    let repo = Repository::parse("https://gitlab.com/test/repo.git").unwrap();
    let (_, action) = sync_step(SyncState::Start, SyncEvent::Begin, &repo, true, "v1.0.0", "Body", None);
    let err = finish(action).unwrap_err();
    assert_eq!(err.to_string(), "repository provider not GitHub");
}

#[test]
fn release_that_does_not_exist_is_created() {
    let repo = Repository::parse("git@github.com:o/r.git").unwrap();
    let (state, action) = sync_step(SyncState::Start, SyncEvent::Begin, &repo, true, "v1", "text", None);
    assert_eq!(state, SyncState::Looking);
    assert_eq!(
        action,
        SyncAction::Get { url: "https://api.github.com/repos/o/r/releases/tags/v1".into() }
    );
    let (state, action) = sync_step(state, SyncEvent::Status(404), &repo, true, "v1", "text", None);
    assert_eq!(state, SyncState::Creating);
    assert_eq!(
        action,
        SyncAction::Post {
            url: "https://api.github.com/repos/o/r/releases".into(),
            tag_name: "v1".into(),
            name: "v1".into(),
            body: "text".into(),
        }
    );
    let (state, action) = sync_step(
        state,
        SyncEvent::Release { id: 9, url: "https://github.com/o/r/releases/tag/v1".into() },
        &repo,
        true,
        "v1",
        "text",
        None,
    );
    assert_eq!(state, SyncState::Done);
    assert_eq!(
        finish(action),
        Ok(ReleaseInfo {
            tag: "v1".into(),
            url: "https://github.com/o/r/releases/tag/v1".into(),
            created: true,
            updated: false,
            skipped: false,
        })
    );
}

#[test]
fn release_that_exists_is_updated() {
    let repo = Repository::parse("git@github.com:o/r.git").unwrap();
    let (state, action) = sync_step(
        SyncState::Looking,
        SyncEvent::Release { id: 4711, url: "page".into() },
        &repo,
        true,
        "v1",
        "text",
        None,
    );
    assert_eq!(state, SyncState::Updating { url: "page".into() });
    assert_eq!(
        action,
        SyncAction::Patch {
            url: "https://api.github.com/repos/o/r/releases/4711".into(),
            body: "text".into(),
        }
    );
    let (state, action) = sync_step(state, SyncEvent::Status(500), &repo, true, "v1", "text", None);
    assert_eq!(state, SyncState::Done);
    let info = finish(action).unwrap();
    assert!(info.updated && !info.created && !info.skipped);
    assert_eq!(info.url, "page");
}

#[test]
fn failures_end_the_exchange() {
    let repo = Repository::parse("git@github.com:o/r.git").unwrap();
    let step = |state, event| sync_step(state, event, &repo, true, "v1", "text", None);
    let (_, a) = step(SyncState::Looking, SyncEvent::SendFailed("down".into()));
    assert_eq!(finish(a), Err(GithubError::Network("down".into())));
    let (_, a) = step(SyncState::Looking, SyncEvent::BadBody("no json".into()));
    assert_eq!(finish(a), Err(GithubError::Network("no json".into())));
    let (_, a) = step(SyncState::Looking, SyncEvent::Status(500));
    assert!(finish(a).unwrap().skipped);
    let (_, a) = step(SyncState::Creating, SyncEvent::Status(422));
    assert_eq!(finish(a), Err(GithubError::Status(422)));
    let (_, a) = step(SyncState::Creating, SyncEvent::SendFailed("down".into()));
    assert_eq!(finish(a), Err(GithubError::Network("down".into())));
    let (_, a) = step(SyncState::Updating { url: "u".into() }, SyncEvent::SendFailed("down".into()));
    assert_eq!(finish(a), Err(GithubError::Network("down".into())));
    let (s, a) = step(SyncState::Done, SyncEvent::Status(200));
    assert_eq!((s, a), (SyncState::Done, SyncAction::Idle));
    let (s, a) = step(SyncState::Start, SyncEvent::Status(200));
    assert_eq!((s, a), (SyncState::Start, SyncAction::Idle));
    let (s, a) = step(SyncState::Looking, SyncEvent::Begin);
    assert_eq!((s, a), (SyncState::Looking, SyncAction::Idle));
}

#[test]
fn statuses_of_success() {
    assert!(status_is_success(200));
    assert!(status_is_success(204));
    assert!(status_is_success(299));
    assert!(!status_is_success(199));
    assert!(!status_is_success(300));
    assert!(!status_is_success(404));
}

#[test]
fn another_interface_can_be_named() {
    let repo = Repository::parse("git@github.com:o/r.git").unwrap();
    let (_, action) = sync_step(
        SyncState::Start,
        SyncEvent::Begin,
        &repo,
        true,
        "v1",
        "text",
        Some("http://localhost:8080"),
    );
    assert_eq!(
        action,
        SyncAction::Get { url: "http://localhost:8080/repos/o/r/releases/tags/v1".into() }
    );
    let (_, action) = sync_step(
        SyncState::Looking,
        SyncEvent::Release { id: 3, url: "u".into() },
        &repo,
        true,
        "v1",
        "text",
        Some("http://localhost:8080"),
    );
    assert_eq!(
        action,
        SyncAction::Patch { url: "http://localhost:8080/repos/o/r/releases/3".into(), body: "text".into() }
    );
}

#[test]
fn users_are_searched_by_address_and_shown_by_handle() {
    assert_eq!(
        user_search_url(None, "test@example.com"),
        "https://api.github.com/search/users?q=test@example.com+in:email"
    );
    assert_eq!(user_search_url(Some("http://x"), "a@b"), "http://x/search/users?q=a@b+in:email");
    assert_eq!(handle_of("testuser"), "@testuser");
}
