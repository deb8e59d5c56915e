//! Decisions taken when cloning a project: what to do with an existing
//! destination, which credentials to offer, which URL to clone and where.

use vstd::prelude::*;
use vstd::string::*;
use crate::repository::{convert_to_ssh, parse_repository, RepositoryUrlError};
use crate::paths::join_path;
use crate::text::{chars_of, occurs_at_index};

verus! {

/// What the clone destination holds.
#[derive(Debug, Clone, Copy, PartialEq, Eq, Structural)]
pub enum TargetDirectoryState {
    MissingOrEmpty,
    NonGitDirectory,
    GitRepository { dirty: bool },
}

/// What the user is asked before an existing destination is removed.
#[derive(Debug, Clone, Copy, PartialEq, Eq, Structural)]
pub enum PromptKind {
    DirtyGitRepository,
    CleanGitRepository,
    NonGitDirectory,
}

/// What happens to the destination before cloning.
#[derive(Debug, Clone, Copy, PartialEq, Eq, Structural)]
pub enum ReplacementAction {
    CloneDirectly,
    Prompt(PromptKind),
    RemoveWithoutPrompt,
}

/// What the destination holds, from what was found there: whether it is present,
/// whether it has any entry, and, when it opens as a Git repository, whether
/// that has uncommitted or untracked changes.
pub open spec fn target_state_of(present: bool, has_entries: bool, repository: Option<bool>) -> TargetDirectoryState {
    if !present || !has_entries {
        TargetDirectoryState::MissingOrEmpty
    } else {
        match repository {
            Some(dirty) => TargetDirectoryState::GitRepository { dirty },
            None => TargetDirectoryState::NonGitDirectory,
        }
    }
}

/// Classifies the destination (see `target_state_of`).
pub fn target_directory_state(present: bool, has_entries: bool, repository: Option<bool>) -> (r:
    TargetDirectoryState)
    ensures
        r == target_state_of(present, has_entries, repository),
{
    if !present || !has_entries {
        return TargetDirectoryState::MissingOrEmpty;
    }
    match repository {
        Some(dirty) => TargetDirectoryState::GitRepository { dirty },
        None => TargetDirectoryState::NonGitDirectory,
    }
}

/// What happens to the destination: an empty or missing one is cloned into; a
/// Git repository with uncommitted changes is never removed without asking;
/// anything else is removed without asking when forced, and after asking
/// otherwise.
pub open spec fn replacement_action_of(state: TargetDirectoryState, force: bool) -> ReplacementAction {
    match state {
        TargetDirectoryState::MissingOrEmpty => ReplacementAction::CloneDirectly,
        TargetDirectoryState::NonGitDirectory => if force {
            ReplacementAction::RemoveWithoutPrompt
        } else {
            ReplacementAction::Prompt(PromptKind::NonGitDirectory)
        },
        TargetDirectoryState::GitRepository { dirty } => if dirty {
            ReplacementAction::Prompt(PromptKind::DirtyGitRepository)
        } else if force {
            ReplacementAction::RemoveWithoutPrompt
        } else {
            ReplacementAction::Prompt(PromptKind::CleanGitRepository)
        },
    }
}

/// Decides what to do with the destination (see `replacement_action_of`).
pub fn replacement_action(state: TargetDirectoryState, force: bool) -> (r: ReplacementAction)
    ensures
        r == replacement_action_of(state, force),
{
    match state {
        TargetDirectoryState::MissingOrEmpty => ReplacementAction::CloneDirectly,
        TargetDirectoryState::NonGitDirectory => if force {
            ReplacementAction::RemoveWithoutPrompt
        } else {
            ReplacementAction::Prompt(PromptKind::NonGitDirectory)
        },
        TargetDirectoryState::GitRepository { dirty } => if dirty {
            ReplacementAction::Prompt(PromptKind::DirtyGitRepository)
        } else if force {
            ReplacementAction::RemoveWithoutPrompt
        } else {
            ReplacementAction::Prompt(PromptKind::CleanGitRepository)
        },
    }
}

/// Law: a Git repository with uncommitted changes is never removed without
/// asking, whether or not the clone is forced; and only an empty or missing
/// destination is cloned into directly.
pub proof fn law_dirty_repository_always_prompts(state: TargetDirectoryState, force: bool)
    ensures
        state == (TargetDirectoryState::GitRepository { dirty: true }) ==> replacement_action_of(
            state,
            force,
        ) == ReplacementAction::Prompt(PromptKind::DirtyGitRepository),
        replacement_action_of(state, force) == ReplacementAction::CloneDirectly <==> state
            == TargetDirectoryState::MissingOrEmpty,
        replacement_action_of(state, force) == ReplacementAction::RemoveWithoutPrompt ==> force,
{
}

/// The kinds of credentials that the remote accepts.
#[derive(Debug, Clone, Copy, PartialEq, Eq, Structural)]
pub struct AllowedCredentials {
    pub user_pass_plaintext: bool,
    pub ssh_key: bool,
    pub default: bool,
    pub username: bool,
}

impl AllowedCredentials {
    /// No kind of credential.
    pub fn none() -> (r: AllowedCredentials)
        ensures
            !r.user_pass_plaintext && !r.ssh_key && !r.default && !r.username,
    {
        AllowedCredentials { user_pass_plaintext: false, ssh_key: false, default: false, username: false }
    }
}

/// The credentials offered to the remote.
#[derive(Debug, Clone, PartialEq, Eq)]
pub enum CredentialStrategy {
    Username(String),
    SshAgent(String),
    CredentialHelper(Option<String>),
    Default,
}

/// The mathematical value of a `CredentialStrategy`.
pub enum CredentialStrategyView {
    Username(Seq<char>),
    SshAgent(Seq<char>),
    CredentialHelper(Option<Seq<char>>),
    Default,
}

impl View for CredentialStrategy {
    type V = CredentialStrategyView;

    open spec fn view(&self) -> CredentialStrategyView {
        match self {
            CredentialStrategy::Username(u) => CredentialStrategyView::Username(u@),
            CredentialStrategy::SshAgent(u) => CredentialStrategyView::SshAgent(u@),
            CredentialStrategy::CredentialHelper(u) => CredentialStrategyView::CredentialHelper(
                crate::repository::option_text_view(*u),
            ),
            CredentialStrategy::Default => CredentialStrategyView::Default,
        }
    }
}

/// No kind of credential that `af` can offer is accepted.
#[derive(Debug, Clone, Copy, PartialEq, Eq, Structural)]
pub struct NoSupportedAuthentication;

impl NoSupportedAuthentication {
    /// `no supported authentication methods available`.
    pub fn message(&self) -> (r: &'static str)
        ensures
            r@ == "no supported authentication methods available"@,
    {
        "no supported authentication methods available"
    }
}

pub open spec fn http_prefix() -> Seq<char> {
    seq!['h', 't', 't', 'p', ':', '/', '/']
}

pub open spec fn https_prefix() -> Seq<char> {
    seq!['h', 't', 't', 'p', 's', ':', '/', '/']
}

/// The credentials to offer: over HTTP(S), the credential helper (with the
/// URL's user name) when plain-text passwords are accepted, else the default
/// credentials when those are; over SSH, the user name (from the URL, else
/// the fallback) when only a user name is asked for, else the SSH agent when
/// keys are accepted.
pub open spec fn credential_strategy_of(
    remote_url: Seq<char>,
    username_from_url: Option<Seq<char>>,
    allowed: AllowedCredentials,
    fallback_username: Seq<char>,
) -> Option<CredentialStrategyView> {
    if crate::text::starts_with(remote_url, http_prefix()) || crate::text::starts_with(
        remote_url,
        https_prefix(),
    ) {
        if allowed.user_pass_plaintext {
            Some(CredentialStrategyView::CredentialHelper(username_from_url))
        } else if allowed.default {
            Some(CredentialStrategyView::Default)
        } else {
            None
        }
    } else {
        let username = match username_from_url {
            Some(u) => u,
            None => fallback_username,
        };
        if allowed.username {
            Some(CredentialStrategyView::Username(username))
        } else if allowed.ssh_key {
            Some(CredentialStrategyView::SshAgent(username))
        } else {
            None
        }
    }
}

/// Chooses the credentials to offer (see `credential_strategy_of`).
pub fn select_credential_strategy(
    remote_url: &str,
    username_from_url: Option<&str>,
    allowed: AllowedCredentials,
    fallback_username: &str,
) -> (r: Result<CredentialStrategy, NoSupportedAuthentication>)
    ensures
        match r {
            Ok(s) => credential_strategy_of(
                remote_url@,
                crate::label::option_str_view(username_from_url),
                allowed,
                fallback_username@,
            ) == Some(s@),
            Err(_) => credential_strategy_of(
                remote_url@,
                crate::label::option_str_view(username_from_url),
                allowed,
                fallback_username@,
            ) is None,
        },
{
    let url = chars_of(remote_url);
    let http = ['h', 't', 't', 'p', ':', '/', '/'];
    let https = ['h', 't', 't', 'p', 's', ':', '/', '/'];
    assert(http@ == http_prefix());
    assert(https@ == https_prefix());
    if occurs_at_index(&url, &http, 0) || occurs_at_index(&url, &https, 0) {
        if allowed.user_pass_plaintext {
            return Ok(
                CredentialStrategy::CredentialHelper(
                    match username_from_url {
                        Some(u) => Some(u.to_owned()),
                        None => None,
                    },
                ),
            );
        }
        if allowed.default {
            return Ok(CredentialStrategy::Default);
        }
    } else {
        let username = match username_from_url {
            Some(u) => u,
            None => fallback_username,
        };
        if allowed.username {
            return Ok(CredentialStrategy::Username(username.to_owned()));
        }
        if allowed.ssh_key {
            return Ok(CredentialStrategy::SshAgent(username.to_owned()));
        }
    }
    Err(NoSupportedAuthentication)
}

/// The URL to clone: the repository's SSH URL when converting to SSH, its
/// canonical URL otherwise.
pub fn clone_url(repository: &str, convert: bool) -> (r: Result<String, RepositoryUrlError>)
    ensures
        match r {
            Ok(s) => crate::repository::repository_parts_of(repository@) matches Some(p) && s@ == (
            if convert {
                crate::repository::ssh_url_of(p)
            } else {
                crate::repository::canonical_url_of(p)
            }),
            Err(e) => crate::repository::repository_parts_of(repository@) is None && e
                == RepositoryUrlError::Unsupported,
        },
{
    if !convert {
        return parse_repository(repository);
    }
    convert_to_ssh(repository)
}

/// Neither a destination directory nor a root directory was given.
#[derive(Debug, Clone, Copy, PartialEq, Eq, Structural)]
pub struct MissingDestination;

impl MissingDestination {
    /// `At least one of --directory or --root-directory must be provided`.
    pub fn message(&self) -> (r: &'static str)
        ensures
            r@ == "At least one of --directory or --root-directory must be provided"@,
    {
        "At least one of --directory or --root-directory must be provided"
    }
}

/// Where a project is cloned: the directory given, else `<root>/<org>/<name>`
/// under the root directory given.
pub open spec fn clone_destination_of(
    directory: Option<Seq<char>>,
    root: Option<Seq<char>>,
    org: Seq<char>,
    name: Seq<char>,
) -> Option<Seq<char>> {
    match directory {
        Some(d) => Some(d),
        None => match root {
            Some(r) => Some(
                crate::paths::joined_path(crate::paths::joined_path(r, org), name),
            ),
            None => None,
        },
    }
}

/// Chooses where to clone a project (see `clone_destination_of`).
pub fn clone_destination(directory: Option<&str>, root: Option<&str>, org: &str, name: &str) -> (r:
    Result<String, MissingDestination>)
    ensures
        match r {
            Ok(s) => clone_destination_of(
                crate::label::option_str_view(directory),
                crate::label::option_str_view(root),
                org@,
                name@,
            ) == Some(s@),
            Err(_) => clone_destination_of(
                crate::label::option_str_view(directory),
                crate::label::option_str_view(root),
                org@,
                name@,
            ) is None,
        },
{
    match directory {
        Some(d) => Ok(d.to_owned()),
        None => match root {
            Some(r) => {
                let under_org = join_path(r, org);
                Ok(join_path(under_org.as_str(), name))
            },
            None => Err(MissingDestination),
        },
    }
}

/// Law: over HTTP(S) the fallback user name plays no part: the credential
/// helper, when plain-text credentials are allowed, is asked with exactly the
/// user name from the URL (none when the URL has none). Over SSH the user name
/// is the URL's, else the fallback, and a user-name request comes before the
/// SSH agent.
pub proof fn law_credential_user_names(
    remote_url: Seq<char>,
    username_from_url: Option<Seq<char>>,
    allowed: AllowedCredentials,
    fallback: Seq<char>,
    other_fallback: Seq<char>,
)
    ensures
        crate::text::starts_with(remote_url, http_prefix()) || crate::text::starts_with(
            remote_url,
            https_prefix(),
        ) ==> {
            &&& credential_strategy_of(remote_url, username_from_url, allowed, fallback)
                == credential_strategy_of(remote_url, username_from_url, allowed, other_fallback)
            &&& allowed.user_pass_plaintext ==> credential_strategy_of(
                remote_url,
                username_from_url,
                allowed,
                fallback,
            ) == Some(CredentialStrategyView::CredentialHelper(username_from_url))
            &&& !allowed.user_pass_plaintext && allowed.default ==> credential_strategy_of(
                remote_url,
                username_from_url,
                allowed,
                fallback,
            ) == Some(CredentialStrategyView::Default)
            &&& !allowed.user_pass_plaintext && !allowed.default ==> credential_strategy_of(
                remote_url,
                username_from_url,
                allowed,
                fallback,
            ) is None
        },
        !crate::text::starts_with(remote_url, http_prefix()) && !crate::text::starts_with(
            remote_url,
            https_prefix(),
        ) && allowed.username ==> credential_strategy_of(
            remote_url,
            username_from_url,
            allowed,
            fallback,
        ) == Some(
            CredentialStrategyView::Username(
                match username_from_url {
                    Some(u) => u,
                    None => fallback,
                },
            ),
        ),
        !crate::text::starts_with(remote_url, http_prefix()) && !crate::text::starts_with(
            remote_url,
            https_prefix(),
        ) && !allowed.username && allowed.ssh_key ==> credential_strategy_of(
            remote_url,
            username_from_url,
            allowed,
            fallback,
        ) == Some(
            CredentialStrategyView::SshAgent(
                match username_from_url {
                    Some(u) => u,
                    None => fallback,
                },
            ),
        ),
        !crate::text::starts_with(remote_url, http_prefix()) && !crate::text::starts_with(
            remote_url,
            https_prefix(),
        ) && !allowed.username && !allowed.ssh_key ==> credential_strategy_of(
            remote_url,
            username_from_url,
            allowed,
            fallback,
        ) is None,
{
}

} // verus!
