use novalyn::error::NovalynError;
use novalyn::github::GithubError;
use novalyn::pipeline::ExitCode;

#[test]
fn test_config_error_display() {
    let err = NovalynError::Config("Invalid configuration".to_string());
    assert!(err.to_string().contains("Invalid configuration"));
}

#[test]
fn test_git_error_display() {
    let err = NovalynError::Git("Repository not found".to_string());
    assert!(err.to_string().contains("Repository not found"));
}

#[test]
fn test_io_error_display() {
    let err = NovalynError::Io("File not found".to_string());
    assert!(err.to_string().contains("File not found"));
}

#[test]
fn test_semantic_error_display() {
    let err = NovalynError::Semantic("Invalid commit format".to_string());
    assert!(err.to_string().contains("Invalid commit format"));
}

#[test]
fn test_error_exit_codes() {
    let config_err = NovalynError::Config("test".to_string());
    assert_eq!(config_err.exit_code(), 2);

    let git_err = NovalynError::Git("test".to_string());
    assert_eq!(git_err.exit_code(), 4);

    let io_err = NovalynError::Io("test".to_string());
    assert_eq!(io_err.exit_code(), 5);

    let semantic_err = NovalynError::Semantic("test".to_string());
    assert_eq!(semantic_err.exit_code(), 6);
}

#[test]
fn error_exit_codes() {
    let config_err = NovalynError::Config("test".to_string());
    let git_err = NovalynError::Git("test".to_string());
    let io_err = NovalynError::Io("test".to_string());
    let semantic_err = NovalynError::Semantic("test".to_string());

    assert_eq!(config_err.exit_code(), 2);
    assert_eq!(git_err.exit_code(), 4);
    assert_eq!(io_err.exit_code(), 5);
    assert_eq!(semantic_err.exit_code(), 6);
}

#[test]
fn errors_are_shown_with_their_kind() {
    assert_eq!(NovalynError::Config("a".into()).to_string(), "config error: a");
    assert_eq!(NovalynError::Git("b".into()).to_string(), "git error: b");
    assert_eq!(NovalynError::Io("c".into()).to_string(), "io error: c");
    assert_eq!(NovalynError::Semantic("".into()).to_string(), "semantic error: ");
}

#[test]
fn test_github_error_display() {
    let err = GithubError::NoRepo;
    assert_eq!(
        err.to_string(),
        "no repository information available for github sync"
    );

    let err = GithubError::NotGithub;
    assert_eq!(err.to_string(), "repository provider not GitHub");

    let err = GithubError::Network("test error".to_string());
    assert_eq!(err.to_string(), "network error: test error");

    let err = GithubError::Status(404);
    assert_eq!(err.to_string(), "unexpected response status 404");
}

#[test]
fn exit_codes_of_a_run() {
    assert_eq!(ExitCode::Success.code(), 0);
    assert_eq!(ExitCode::NoChange.code(), 3);
    assert_eq!(ExitCode::of_change(true), ExitCode::Success);
    assert_eq!(ExitCode::of_change(false), ExitCode::NoChange);
}
