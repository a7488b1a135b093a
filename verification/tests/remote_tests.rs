use gitflow::error::GitFlowError;
use gitflow::git::remote::{
    parse_github_url, push_refspec, repo_from_parsed, repo_from_remote, ssh_repo_of,
};

fn found(owner: &str, name: &str) -> Option<(String, String)> {
    Some((owner.to_string(), name.to_string()))
}

#[test]
fn ssh_address() {
    assert_eq!(parse_github_url("git@github.com:owner/repo.git").ok(), found("owner", "repo"));
    assert_eq!(parse_github_url("git@github.com:owner/repo").ok(), found("owner", "repo"));
    assert_eq!(parse_github_url("git@github.com:owner/repo.git/extra").ok(), found("owner", "repo"));
    assert_eq!(ssh_repo_of("git@github.com:git@github.com:o/r.git.git"), found("o", "r"));
    assert_eq!(ssh_repo_of("git@github.com:owner/"), found("owner", ""));
    assert_eq!(ssh_repo_of("git@github.com:owner"), None);
    assert_eq!(ssh_repo_of("https://github.com/owner/repo"), None);
}

#[test]
fn https_address() {
    assert_eq!(parse_github_url("https://github.com/owner/repo.git").ok(), found("owner", "repo"));
    assert_eq!(parse_github_url("https://github.com/owner/repo").ok(), found("owner", "repo"));
    assert_eq!(
        parse_github_url("https://user@github.com/owner/repo.git/tree/main").ok(),
        found("owner", "repo")
    );
    assert_eq!(parse_github_url("ssh://git@github.com/owner/repo.git").ok(), found("owner", "repo"));
}

#[test]
fn address_without_owner_and_name() {
    match parse_github_url("https://github.com/owner") {
        Err(GitFlowError::Config(message)) => {
            assert_eq!(message, "Could not parse GitHub URL: https://github.com/owner")
        }
        other => panic!("unexpected: {:?}", other),
    }
    match parse_github_url("https://gitlab.com/owner/repo") {
        Err(GitFlowError::Config(message)) => {
            assert_eq!(message, "Could not parse GitHub URL: https://gitlab.com/owner/repo")
        }
        other => panic!("unexpected: {:?}", other),
    }
}

#[test]
fn address_that_is_no_url() {
    assert!(matches!(parse_github_url("github.com/owner/repo"), Err(GitFlowError::Url(_))));
    assert!(matches!(parse_github_url("git@github.com:owner"), Err(GitFlowError::Url(_))));
}

#[test]
fn address_that_cannot_be_a_base() {
    match parse_github_url("mailto:someone@github.com") {
        Err(GitFlowError::Config(message)) => assert_eq!(message, "Invalid GitHub URL"),
        other => panic!("unexpected: {:?}", other),
    }
}

#[test]
fn repo_from_parsed_takes_the_first_two_segments() {
    let segments = vec!["o".to_string(), "r.git.git".to_string(), "x".to_string()];
    assert_eq!(repo_from_parsed("https://github.com/any", Ok(Some(segments))).ok(), found("o", "r"));
    let one = vec!["o".to_string()];
    assert!(matches!(
        repo_from_parsed("https://github.com/o", Ok(Some(one))),
        Err(GitFlowError::Config(_))
    ));
    assert!(matches!(
        repo_from_parsed("https://github.com/o", Ok(None)),
        Err(GitFlowError::Config(_))
    ));
    // an address that does not hold the host name is not looked at as a URL
    let two = vec!["o".to_string(), "r".to_string()];
    assert!(matches!(
        repo_from_parsed("https://example.com/o/r", Ok(Some(two))),
        Err(GitFlowError::Config(_))
    ));
}

#[test]
fn refspec_pushes_a_branch_under_its_name() {
    assert_eq!(push_refspec("feature/x"), "refs/heads/feature/x:refs/heads/feature/x");
}

#[test]
fn repo_from_what_the_lookup_of_the_remote_gave() {
    match repo_from_remote("origin", Err(git2::Error::from_str("no such remote"))) {
        Err(GitFlowError::RemoteNotFound(name)) => assert_eq!(name, "origin"),
        other => panic!("unexpected: {:?}", other),
    }
    match repo_from_remote("upstream", Err(git2::Error::from_str("no such remote"))) {
        Err(GitFlowError::RemoteNotFound(name)) => assert_eq!(name, "upstream"),
        other => panic!("unexpected: {:?}", other),
    }
    match repo_from_remote("origin", Ok(None)) {
        Err(GitFlowError::Config(message)) => assert_eq!(message, "Remote URL not found"),
        other => panic!("unexpected: {:?}", other),
    }
    assert_eq!(
        repo_from_remote("origin", Ok(Some("git@github.com:owner/repo.git".to_string()))).ok(),
        found("owner", "repo")
    );
    assert!(matches!(
        repo_from_remote("origin", Ok(Some("https://example.com/a/b".to_string()))),
        Err(GitFlowError::Config(_))
    ));
}
