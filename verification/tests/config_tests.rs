use gitflow::cli::BranchDetectionStrategy;
use gitflow::commands::config::{
    handle_config, parse_relationship, writes_settings, ConfigOutcome,
};
use gitflow::configuration::{Config, PrInfo, PrTable};
use gitflow::error::GitFlowError;
use gitflow::git::branch::BranchRelationStrategy;

fn names(list: &[&str]) -> Vec<String> {
    list.iter().map(|s| s.to_string()).collect()
}

fn pr(number: u64) -> PrInfo {
    PrInfo {
        url: format!("https://example.com/pr/{}", number),
        number,
        title: format!("PR {}", number),
        created_at: "2024-01-01".to_string(),
    }
}

fn config_message(r: Result<ConfigOutcome, GitFlowError>) -> String {
    match r {
        Err(GitFlowError::Config(message)) => message,
        other => panic!("expected a configuration error, got {:?}", other),
    }
}

#[test]
fn fresh_settings() {
    let config = Config::new();
    assert_eq!(config.default_base_branch, "main");
    assert_eq!(config.branch_detection_strategy, BranchRelationStrategy::CommitHistory);
    assert!(config.branch_relationships.is_empty());
    assert_eq!(config.prs.len(), 0);
    assert!(config.get_pr("main").is_none());
}

#[test]
fn add_pr_then_get_pr() {
    let mut config = Config::new();
    config.add_pr("feature".to_string(), pr(7));
    config.add_pr("other".to_string(), pr(8));
    assert_eq!(config.get_pr("feature").unwrap().number, 7);
    assert_eq!(config.get_pr("other").unwrap().title, "PR 8");
    assert!(config.get_pr("missing").is_none());
    assert_eq!(config.prs.len(), 2);
}

#[test]
fn add_pr_replaces_the_pull_request_of_a_branch() {
    let mut config = Config::new();
    config.add_pr("feature".to_string(), pr(7));
    config.add_pr("other".to_string(), pr(8));
    config.add_pr("feature".to_string(), pr(9));
    assert_eq!(config.get_pr("feature").unwrap().number, 9);
    assert_eq!(config.get_pr("other").unwrap().number, 8);
    assert_eq!(config.prs.len(), 2);
    assert_eq!(config.prs.record(0).unwrap().branch, "feature");
    assert!(config.prs.record(2).is_none());
}

#[test]
fn pr_table_alone() {
    let mut table = PrTable::new();
    assert_eq!(table.len(), 0);
    table.insert("a".to_string(), pr(1));
    assert_eq!(table.get("a").unwrap().url, "https://example.com/pr/1");
    assert!(table.get("b").is_none());
}

#[test]
fn setters_change_their_field_only() {
    let mut config = Config::new();
    config.add_branch_relationship("main".to_string(), "a".to_string());
    config.set_default_base_branch("develop".to_string());
    config.set_branch_detection_strategy(BranchRelationStrategy::Manual);
    assert_eq!(config.default_base_branch, "develop");
    assert_eq!(config.branch_detection_strategy, BranchRelationStrategy::Manual);
    assert_eq!(config.branch_relationships.get("main").cloned(), Some(names(&["a"])));
}

#[test]
fn relationships_are_added_and_removed() {
    let mut config = Config::new();
    config.add_branch_relationship("main".to_string(), "a".to_string());
    config.add_branch_relationship("main".to_string(), "b".to_string());
    assert_eq!(config.branch_relationships.get("main").cloned(), Some(names(&["a", "b"])));
    config.remove_branch_relationship("main", "a");
    assert_eq!(config.branch_relationships.get("main").cloned(), Some(names(&["b"])));
    config.remove_branch_relationship("main", "b");
    assert!(config.branch_relationships.is_empty());
    config.remove_branch_relationship("main", "b");
    assert!(config.branch_relationships.is_empty());
}

#[test]
fn parse_relationship_trims_both_names() {
    assert_eq!(
        parse_relationship("main:feature"),
        Some(("main".to_string(), "feature".to_string()))
    );
    assert_eq!(
        parse_relationship("  main : feature\t"),
        Some(("main".to_string(), "feature".to_string()))
    );
    assert_eq!(parse_relationship(":"), Some((String::new(), String::new())));
    assert_eq!(parse_relationship(" :x"), Some((String::new(), "x".to_string())));
}

#[test]
fn parse_relationship_wants_one_colon() {
    assert_eq!(parse_relationship("main"), None);
    assert_eq!(parse_relationship(""), None);
    assert_eq!(parse_relationship("a:b:c"), None);
    assert_eq!(parse_relationship("a::b"), None);
}

#[test]
fn handle_config_without_arguments_shows_the_settings() {
    let mut config = Config::new();
    let r = handle_config(&mut config, None, None, None, None);
    assert!(matches!(r, Ok(ConfigOutcome::ShowCurrent)));
    assert_eq!(config.default_base_branch, "main");
    assert!(config.branch_relationships.is_empty());
}

#[test]
fn handle_config_makes_every_change() {
    let mut config = Config::new();
    config.add_branch_relationship("main".to_string(), "old".to_string());
    let r = handle_config(
        &mut config,
        Some("develop"),
        Some(BranchDetectionStrategy::Default),
        Some("main: new"),
        Some("main:old"),
    );
    assert!(matches!(r, Ok(ConfigOutcome::Updated)));
    assert_eq!(config.default_base_branch, "develop");
    assert_eq!(config.branch_detection_strategy, BranchRelationStrategy::DefaultRoot);
    assert_eq!(config.branch_relationships.get("main").cloned(), Some(names(&["new"])));
}

#[test]
fn handle_config_maps_the_strategy_names() {
    let cases = [
        (BranchDetectionStrategy::History, BranchRelationStrategy::CommitHistory),
        (BranchDetectionStrategy::Time, BranchRelationStrategy::CreationTime),
        (BranchDetectionStrategy::Default, BranchRelationStrategy::DefaultRoot),
        (BranchDetectionStrategy::Manual, BranchRelationStrategy::Manual),
    ];
    for (named, expected) in cases {
        let mut config = Config::new();
        assert!(matches!(
            handle_config(&mut config, None, Some(named), None, None),
            Ok(ConfigOutcome::Updated)
        ));
        assert_eq!(config.branch_detection_strategy, expected);
        assert_eq!(BranchRelationStrategy::from(named), expected);
    }
}

#[test]
fn handle_config_refuses_a_malformed_addition() {
    let mut config = Config::new();
    let r = handle_config(&mut config, Some("develop"), None, Some("main-feature"), Some("a:b"));
    assert_eq!(config_message(r), "Relationship must be in format 'parent:child'");
    // the change made before the failure stays
    assert_eq!(config.default_base_branch, "develop");
    assert!(config.branch_relationships.is_empty());
}

#[test]
fn handle_config_refuses_an_empty_name() {
    let mut config = Config::new();
    let r = handle_config(&mut config, None, None, Some("main: "), None);
    assert_eq!(config_message(r), "Parent and child branch names cannot be empty");
    let r = handle_config(&mut config, None, None, Some(":child"), None);
    assert_eq!(config_message(r), "Parent and child branch names cannot be empty");
    assert!(config.branch_relationships.is_empty());
}

#[test]
fn handle_config_refuses_a_malformed_removal_after_the_addition() {
    let mut config = Config::new();
    let r = handle_config(&mut config, None, None, Some("main:a"), Some("main"));
    assert_eq!(config_message(r), "Relationship must be in format 'parent:child'");
    assert_eq!(config.branch_relationships.get("main").cloned(), Some(names(&["a"])));
}

#[test]
fn handle_config_removal_accepts_empty_names() {
    let mut config = Config::new();
    config.add_branch_relationship("main".to_string(), "a".to_string());
    let r = handle_config(&mut config, None, None, None, Some(":"));
    assert!(matches!(r, Ok(ConfigOutcome::Updated)));
    assert_eq!(config.branch_relationships.get("main").cloned(), Some(names(&["a"])));
}

#[test]
fn messages_of_failures() {
    assert_eq!(GitFlowError::Aborted("stop".to_string()).message(), "Operation aborted: stop");
    assert_eq!(GitFlowError::BranchNotFound("x".to_string()).message(), "Branch not found: x");
    assert_eq!(GitFlowError::Config("bad".to_string()).message(), "Configuration error: bad");
    assert_eq!(GitFlowError::Environment("unset".to_string()).message(), "Environment error: unset");
    assert_eq!(GitFlowError::RemoteNotFound("origin".to_string()).message(), "Remote not found: origin");
    assert_eq!(GitFlowError::Unknown("?".to_string()).message(), "Unknown error: ?");
    assert_eq!(
        GitFlowError::Git(git2::Error::from_str("broken")).message(),
        "Git error: broken"
    );
    assert_eq!(
        GitFlowError::Url(url::ParseError::EmptyHost).message(),
        format!("Invalid URL: {}", url::ParseError::EmptyHost)
    );
}

#[test]
fn the_settings_are_written_after_a_change_only() {
    assert!(!writes_settings(None, None, None, None));
    assert!(writes_settings(Some("develop"), None, None, None));
    assert!(writes_settings(None, Some(BranchDetectionStrategy::Time), None, None));
    assert!(writes_settings(None, None, Some("main:a"), None));
    assert!(writes_settings(None, None, None, Some("main:a")));
    assert!(writes_settings(None, None, None, Some(":")));
    // a command that fails before its first change writes nothing
    assert!(!writes_settings(None, None, Some("main-a"), None));
    assert!(!writes_settings(None, None, Some("main: "), Some("main:a")));
    assert!(!writes_settings(None, None, None, Some("main")));
    // what was changed before the failure is written
    assert!(writes_settings(Some("develop"), None, Some("main-a"), None));
    assert!(writes_settings(None, None, Some("main:a"), Some("main")));
}
