use af::browser::{browser_open_args, browser_search_dirs};
use af::clone::{
    clone_destination, clone_url, replacement_action, select_credential_strategy, target_directory_state,
    AllowedCredentials, CredentialStrategy, MissingDestination, PromptKind, ReplacementAction,
    TargetDirectoryState,
};
use af::label::format_directory;
use af::repo::{ide_for_languages, Repo};

fn allowing(f: impl FnOnce(&mut AllowedCredentials)) -> AllowedCredentials {
    let mut allowed = AllowedCredentials::none();
    f(&mut allowed);
    allowed
}

#[test]
fn non_git_directory_requires_confirmation_without_force() {
    let action = replacement_action(TargetDirectoryState::NonGitDirectory, false);
    assert_eq!(
        action,
        ReplacementAction::Prompt(PromptKind::NonGitDirectory)
    );
}

#[test]
fn non_git_directory_is_removed_with_force() {
    let action = replacement_action(TargetDirectoryState::NonGitDirectory, true);
    assert_eq!(action, ReplacementAction::RemoveWithoutPrompt);
}

#[test]
fn replacement_actions_for_every_state() {
    for force in [false, true] {
        assert_eq!(
            replacement_action(TargetDirectoryState::MissingOrEmpty, force),
            ReplacementAction::CloneDirectly
        );
        assert_eq!(
            replacement_action(TargetDirectoryState::GitRepository { dirty: true }, force),
            ReplacementAction::Prompt(PromptKind::DirtyGitRepository)
        );
    }
    assert_eq!(
        replacement_action(TargetDirectoryState::GitRepository { dirty: false }, false),
        ReplacementAction::Prompt(PromptKind::CleanGitRepository)
    );
    assert_eq!(
        replacement_action(TargetDirectoryState::GitRepository { dirty: false }, true),
        ReplacementAction::RemoveWithoutPrompt
    );
}

#[test]
fn https_uses_credential_helper_when_plaintext_auth_is_allowed() {
    let strategy = select_credential_strategy(
        "https://github.com/org/repo",
        Some("oauth2"),
        allowing(|a| a.user_pass_plaintext = true),
        "git",
    )
    .unwrap();
    assert_eq!(
        strategy,
        CredentialStrategy::CredentialHelper(Some("oauth2".to_string()))
    );
}

#[test]
fn ssh_uses_username_probe_before_agent_auth() {
    let strategy = select_credential_strategy(
        "git@github.com:org/repo.git",
        None,
        allowing(|a| a.username = true),
        "git",
    )
    .unwrap();
    assert_eq!(strategy, CredentialStrategy::Username("git".to_string()));
}

#[test]
fn ssh_uses_agent_when_ssh_key_auth_is_allowed() {
    let strategy = select_credential_strategy(
        "git@github.com:org/repo.git",
        Some("git"),
        allowing(|a| a.ssh_key = true),
        "fallback",
    )
    .unwrap();
    assert_eq!(strategy, CredentialStrategy::SshAgent("git".to_string()));
}

#[test]
fn unsupported_auth_strategy_returns_error() {
    let err = select_credential_strategy(
        "https://github.com/org/repo",
        None,
        AllowedCredentials::none(),
        "git",
    )
    .unwrap_err();
    assert!(err
        .message()
        .contains("no supported authentication methods available"));
}

#[test]
fn http_default_credentials_and_ssh_username_preference() {
    let strategy = select_credential_strategy(
        "http://gitlab.com/group/project",
        None,
        allowing(|a| a.default = true),
        "git",
    )
    .unwrap();
    assert_eq!(strategy, CredentialStrategy::Default);

    let strategy = select_credential_strategy(
        "git@github.com:org/repo.git",
        Some("me"),
        allowing(|a| {
            a.username = true;
            a.ssh_key = true;
        }),
        "git",
    )
    .unwrap();
    assert_eq!(strategy, CredentialStrategy::Username("me".to_string()));

    assert!(select_credential_strategy(
        "git@github.com:org/repo.git",
        None,
        allowing(|a| a.user_pass_plaintext = true),
        "git",
    )
    .is_err());
}

#[test]
fn repo_is_read_from_ssh_url() {
    let repo = Repo::parse("git@github.com:org/my.repo.git").unwrap();
    assert_eq!(repo.username, "git");
    assert_eq!(repo.host, "github.com");
    assert_eq!(repo.org, "org");
    assert_eq!(repo.name, "my.repo");
    assert_eq!(repo.short_format(), "github.com/org/my.repo");
}

#[test]
fn repo_rejects_other_urls() {
    let err = Repo::parse("https://github.com/org/repo").unwrap_err();
    assert_eq!(err.message(), "Invalid repository URL: https://github.com/org/repo");
    assert!(Repo::parse("git@github.com:org/.git").is_err());
    assert!(Repo::parse("git@:org/repo.git").is_err());
    assert!(Repo::parse("git@github.com:/repo.git").is_err());
}

#[test]
fn clone_url_converts_only_when_asked() {
    assert_eq!(
        clone_url("https://github.com/org/repo/tree/main", true).unwrap(),
        "git@github.com:org/repo.git"
    );
    assert_eq!(
        clone_url("https://github.com/org/repo/tree/main", false).unwrap(),
        "https://github.com/org/repo"
    );
    assert!(clone_url("ftp://github.com/org/repo", true).is_err());
}

#[test]
fn destination_prefers_directory_then_root() {
    assert_eq!(
        clone_destination(Some("/work/here"), Some("/projects"), "org", "repo").unwrap(),
        "/work/here"
    );
    assert_eq!(
        clone_destination(None, Some("/projects"), "org", "repo").unwrap(),
        "/projects/org/repo"
    );
    let err = clone_destination(None, None, "org", "repo").unwrap_err();
    assert_eq!(err, MissingDestination);
    assert_eq!(
        err.message(),
        "At least one of --directory or --root-directory must be provided"
    );
}

#[test]
fn directory_is_shown_relative_to_home() {
    assert_eq!(format_directory("/Users/test/projects/x", "/Users/test"), "~/projects/x");
    assert_eq!(format_directory("/opt/x", "/Users/test"), "/opt/x");
    assert_eq!(format_directory("ab", ""), "~a~b~");
}

#[test]
fn browser_dirs_and_arguments() {
    assert_eq!(
        browser_search_dirs(None),
        vec!["/opt/homebrew".to_string(), "/Applications".to_string()]
    );
    assert_eq!(
        browser_search_dirs(Some("/usr/local")),
        vec!["/usr/local".to_string(), "/Applications".to_string()]
    );
    assert_eq!(
        browser_open_args(true, "https://example.com/"),
        vec!["--new-tab", "--url", "https://example.com/"]
    );
    assert_eq!(
        browser_open_args(false, "https://example.com/"),
        vec!["--url", "https://example.com/"]
    );
}

fn languages(pairs: &[(&str, i64)]) -> Vec<(String, i64)> {
    pairs.iter().map(|(n, b)| (n.to_string(), *b)).collect()
}

#[test]
fn ide_follows_the_largest_language_with_an_ide() {
    assert_eq!(
        ide_for_languages(&languages(&[("Shell", 10), ("Rust", 500), ("Go", 300)])),
        Some("rustrover")
    );
    assert_eq!(
        ide_for_languages(&languages(&[("Python", 900), ("Go", 10)])),
        Some("goland")
    );
    assert_eq!(
        ide_for_languages(&languages(&[("JavaScript", 40), ("C++", 41)])),
        Some("clion")
    );
    assert_eq!(ide_for_languages(&languages(&[("Python", 900)])), None);
    assert_eq!(ide_for_languages(&[].to_vec()), None);
}

#[test]
fn a_later_language_of_the_same_size_replaces_an_earlier_one() {
    assert_eq!(
        ide_for_languages(&languages(&[("Go", 100), ("Rust", 100)])),
        Some("rustrover")
    );
    assert_eq!(
        ide_for_languages(&languages(&[("Rust", 100), ("Python", 100)])),
        None
    );
}

#[test]
fn destination_is_classified_from_what_was_found() {
    assert_eq!(
        target_directory_state(false, false, None),
        TargetDirectoryState::MissingOrEmpty
    );
    assert_eq!(
        target_directory_state(true, false, None),
        TargetDirectoryState::MissingOrEmpty
    );
    assert_eq!(
        target_directory_state(true, true, None),
        TargetDirectoryState::NonGitDirectory
    );
    assert_eq!(
        target_directory_state(true, true, Some(true)),
        TargetDirectoryState::GitRepository { dirty: true }
    );
    assert_eq!(
        target_directory_state(true, true, Some(false)),
        TargetDirectoryState::GitRepository { dirty: false }
    );
}
