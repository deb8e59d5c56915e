use af::repository::{
    convert_to_ssh, parse_repository, parse_repository_parts, validate_repository,
    RepositoryTransport, RepositoryUrlError,
};

#[test]
fn parses_valid_ssh_url() {
    let url = "git@github.com:org/repo.git";
    let parsed = parse_repository(url).unwrap();
    assert_eq!(parsed, url.trim());
}

#[test]
fn parses_valid_https_url() {
    let url = "https://github.com/org/repo";
    let parsed = parse_repository(url).unwrap();
    assert_eq!(parsed, url);
}

#[test]
fn parses_valid_https_url_with_trailing_path() {
    let url = "https://github.com/org/repo/tree/main";
    let parsed = parse_repository(url).unwrap();
    assert_eq!(parsed, "https://github.com/org/repo");
}

#[test]
fn parses_valid_https_url_with_git_suffix() {
    let url = "https://github.com/org/repo.git";
    let parsed = parse_repository(url).unwrap();
    assert_eq!(parsed, "https://github.com/org/repo");
}

#[test]
fn preserves_http_scheme() {
    let url = "http://gitlab.com/group/project/tree/main";
    let parsed = parse_repository(url).unwrap();
    assert_eq!(parsed, "http://gitlab.com/group/project");
}

#[test]
fn trims_whitespace_before_parsing() {
    let url = "  git@github.com:org/repo.git  ";
    let parsed = parse_repository(url).unwrap();
    assert_eq!(parsed, "git@github.com:org/repo.git");
}

#[test]
fn fails_on_invalid_url() {
    let url = "ftp://github.com/org/repo";
    let err = parse_repository(url).unwrap_err().message(false);
    assert!(
        err.contains("Unsupported repository URL"),
        "unexpected error message: {}",
        err
    );
}

#[test]
fn return_ssh() {
    let url = "git@github.com:org/repo.git";
    let ssh = convert_to_ssh(url).unwrap();
    assert_eq!(ssh, "git@github.com:org/repo.git");
}

#[test]
fn converts_https_to_ssh() {
    let url = "https://github.com/org/repo";
    let ssh = convert_to_ssh(url).unwrap();
    assert_eq!(ssh, "git@github.com:org/repo.git");
}

#[test]
fn converts_http_to_ssh() {
    let url = "http://gitlab.com/group/project";
    let ssh = convert_to_ssh(url).unwrap();
    assert_eq!(ssh, "git@gitlab.com:group/project.git");
}

#[test]
fn strips_trailing_git_suffix() {
    let url = "https://bitbucket.org/team/repo.git";
    let ssh = convert_to_ssh(url).unwrap();
    assert_eq!(ssh, "git@bitbucket.org:team/repo.git");
}

#[test]
fn ignores_extra_path_parts() {
    let url = "https://github.com/org/repo/tree/main";
    let ssh = convert_to_ssh(url).unwrap();
    assert_eq!(ssh, "git@github.com:org/repo.git");
}

#[test]
fn trims_input() {
    let url = "  https://github.com/org/repo  ";
    let ssh = convert_to_ssh(url).unwrap();
    assert_eq!(ssh, "git@github.com:org/repo.git");
}

#[test]
fn parses_repository_parts_from_tree_url() {
    let url = "https://github.com/org/repo/tree/main";
    let parts = parse_repository_parts(url).unwrap();
    assert_eq!(parts.host, "github.com");
    assert_eq!(parts.org, "org");
    assert_eq!(parts.name, "repo");
    assert_eq!(parts.transport, RepositoryTransport::Https);
}

#[test]
fn error_message_lists_supported_formats() {
    let err = parse_repository("ftp://github.com/org/repo").unwrap_err();
    assert_eq!(err, RepositoryUrlError::Unsupported);
    assert_eq!(
        err.message(false),
        "Unsupported repository URL. Supported formats: [git@<host>:<org>/<repo>.git, http[s]://<host>/<org>/<repo>[/...]]"
    );
    assert_eq!(
        err.message(true),
        "Unsupported repository URL. Supported formats: [\u{1b}[1mgit@<host>:<org>/<repo>.git\u{1b}[0m, \u{1b}[1mhttp[s]://<host>/<org>/<repo>[/...]\u{1b}[0m]"
    );
}

#[test]
fn ssh_parts_are_read_from_ssh_url() {
    let parts = parse_repository_parts("git@gitlab.com:group/project.git").unwrap();
    assert_eq!(parts.transport, RepositoryTransport::Ssh);
    assert_eq!(parts.host, "gitlab.com");
    assert_eq!(parts.org, "group");
    assert_eq!(parts.name, "project");
    assert_eq!(parts.ssh_url(), "git@gitlab.com:group/project.git");
    assert_eq!(parts.canonical_url(), "git@gitlab.com:group/project.git");
}

#[test]
fn http_parts_give_canonical_and_ssh_urls() {
    let parts = parse_repository_parts("http://gitlab.com/group/project.git/").unwrap();
    assert_eq!(parts.transport, RepositoryTransport::Http);
    assert_eq!(parts.canonical_url(), "http://gitlab.com/group/project");
    assert_eq!(parts.ssh_url(), "git@gitlab.com:group/project.git");
}

#[test]
fn empty_segments_are_skipped() {
    let parsed = parse_repository("https://github.com//org//repo").unwrap();
    assert_eq!(parsed, "https://github.com/org/repo");
}

#[test]
fn rejects_urls_without_org_and_name() {
    assert!(parse_repository("https://github.com/org").is_err());
    assert!(parse_repository("https://github.com/").is_err());
    assert!(parse_repository("https://github.com/org/.git").is_err());
    assert!(parse_repository("").is_err());
    assert!(parse_repository("not a url").is_err());
}

#[test]
fn ssh_url_with_slash_in_host_is_not_ssh_form() {
    assert!(parse_repository("git@github.com/x:org/repo.git").is_err());
}

#[test]
fn validate_accepts_exactly_what_parse_accepts() {
    assert!(validate_repository("https://github.com/org/repo").is_ok());
    assert!(validate_repository("git@github.com:org/repo.git").is_ok());
    assert_eq!(
        validate_repository("ftp://github.com/org/repo"),
        Err(RepositoryUrlError::Unsupported)
    );
}

#[test]
fn converting_twice_changes_nothing() {
    let once = convert_to_ssh("https://github.com/org/repo/tree/main").unwrap();
    let twice = convert_to_ssh(&once).unwrap();
    assert_eq!(once, twice);
}

#[test]
fn parsing_a_canonical_url_gives_it_back() {
    let once = parse_repository("  https://github.com/org/repo.git ").unwrap();
    assert_eq!(parse_repository(&once).unwrap(), once);
}

#[test]
fn ssh_url_round_trip_keeps_parts() {
    let parts = parse_repository_parts("https://gitlab.com/group/project/-/tree/main").unwrap();
    let again = parse_repository_parts(&parts.ssh_url()).unwrap();
    assert_eq!(again.transport, RepositoryTransport::Ssh);
    assert_eq!(again.host, parts.host);
    assert_eq!(again.org, parts.org);
    assert_eq!(again.name, parts.name);
}

#[test]
fn ssh_url_is_preserved_by_parsing() {
    assert_eq!(
        parse_repository("\tgit@example.org:team/tool.git\n").unwrap(),
        "git@example.org:team/tool.git"
    );
}

#[test]
fn converting_an_ipv6_host_is_idempotent() {
    let once = convert_to_ssh("http://[::1]/org/repo").unwrap();
    assert_eq!(once, "git@[::1]:org/repo.git");
    assert_eq!(convert_to_ssh(&once).unwrap(), once);
    assert_eq!(parse_repository(&once).unwrap(), once);
}

#[test]
fn git_at_text_is_read_as_ssh_or_refused() {
    assert_eq!(
        parse_repository_parts("git@github.com:org/repo.git").unwrap().transport,
        RepositoryTransport::Ssh
    );
    assert!(parse_repository_parts("git@github.com/org/repo").is_err());
}
