use git2::build::CheckoutBuilder;
use git2::{Oid, Repository, RepositoryInitOptions, Signature, Time};
use gitflow::commands::cascade::run_cascade;
use gitflow::commands::create::handle_new_branch;
use gitflow::commands::show::{commit_summaries, handle_show, ShowReport};
use gitflow::cli::BranchDetectionStrategy;
use gitflow::configuration::Config;
use gitflow::error::GitFlowError;
use gitflow::git::branch::{
    checkout_branch, create_new_branch, find_root_branches, get_branch_commit, get_branch_tree,
    get_branch_tree_by_creation_time, get_branch_tree_by_history,
    get_branch_tree_with_default_root, get_current_branch, get_parent_branch,
    is_descendant_of, is_direct_parent_child, list_branches, BranchRelationStrategy,
};
use gitflow::git::commit::{commit_changes, get_last_commit_message, get_last_commit_summary};
use gitflow::git::merge::merge_branch;
use gitflow::git::remote::get_repo_info;
use gitflow::git::status::{
    format_status_entry, get_repo_status, has_conflicts, has_uncommitted_changes, StatusColor,
};
use gitflow::tree::BranchTree;
use tempfile::TempDir;

const DAY: i64 = 86_400;
const T0: i64 = 1_700_000_000;

fn names(list: &[&str]) -> Vec<String> {
    list.iter().map(|s| s.to_string()).collect()
}

fn edges(list: &[(&str, &str)]) -> Vec<(String, String)> {
    list.iter().map(|(p, c)| (p.to_string(), c.to_string())).collect()
}

fn signature(time: i64) -> Signature<'static> {
    Signature::new("Tester", "tester@example.com", &Time::new(time, 0)).unwrap()
}

/// A repository with `main` as the branch of `HEAD`, and a user to commit as.
fn new_repo() -> (TempDir, Repository) {
    let dir = tempfile::tempdir().unwrap();
    let mut options = RepositoryInitOptions::new();
    options.initial_head("main");
    let repo = Repository::init_opts(dir.path(), &options).unwrap();
    {
        let mut config = repo.config().unwrap();
        config.set_str("user.name", "Tester").unwrap();
        config.set_str("user.email", "tester@example.com").unwrap();
    }
    (dir, repo)
}

/// A commit on top of `parents` whose tree is that of the first parent with `file`
/// set to `content`. It moves no branch.
fn commit(repo: &Repository, parents: &[Oid], file: &str, content: &str, time: i64, message: &str) -> Oid {
    let blob = repo.blob(content.as_bytes()).unwrap();
    let base = parents.first().map(|p| repo.find_commit(*p).unwrap().tree().unwrap());
    let mut builder = repo.treebuilder(base.as_ref()).unwrap();
    builder.insert(file, blob, 0o100644).unwrap();
    let tree = repo.find_tree(builder.write().unwrap()).unwrap();
    let found: Vec<git2::Commit> = parents.iter().map(|p| repo.find_commit(*p).unwrap()).collect();
    let refs: Vec<&git2::Commit> = found.iter().collect();
    repo.commit(None, &signature(time), &signature(time), message, &tree, &refs).unwrap()
}

/// Makes `name` a branch at `at`.
fn branch(repo: &Repository, name: &str, at: Oid) {
    repo.branch(name, &repo.find_commit(at).unwrap(), true).unwrap();
}

/// Brings the working tree and the index to what `HEAD` holds.
fn sync_worktree(repo: &Repository) {
    repo.checkout_head(Some(CheckoutBuilder::new().force())).unwrap();
}

/// main at c0; feature-a and feature-b each one commit on top of c0.
fn two_features() -> (TempDir, Repository) {
    let (dir, repo) = new_repo();
    let c0 = commit(&repo, &[], "base.txt", "base", T0, "Initial commit\n\nwith a body");
    branch(&repo, "main", c0);
    let a = commit(&repo, &[c0], "a.txt", "a", T0 + DAY, "Work on a");
    branch(&repo, "feature-a", a);
    let b = commit(&repo, &[c0], "b.txt", "b", T0 + 2 * DAY, "Work on b");
    branch(&repo, "feature-b", b);
    sync_worktree(&repo);
    (dir, repo)
}

fn tip(repo: &Repository, name: &str) -> Oid {
    repo.revparse_single(name).unwrap().peel_to_commit().unwrap().id()
}

#[test]
fn branches_are_listed() {
    let (_dir, repo) = two_features();
    assert_eq!(list_branches(&repo).unwrap(), names(&["feature-a", "feature-b", "main"]));
}

#[test]
fn history_strategy_on_two_features() {
    let (_dir, repo) = two_features();
    let tree = get_branch_tree_by_history(&repo).unwrap();
    assert_eq!(tree.edges(), edges(&[("main", "feature-a"), ("main", "feature-b")]));
    let roots = find_root_branches(&tree);
    assert_eq!(roots, names(&["main"]));
    let outcomes = run_cascade(&repo, &tree, &roots);
    let attempted: Vec<(String, String)> =
        outcomes.iter().map(|o| (o.parent.clone(), o.child.clone())).collect();
    assert_eq!(attempted, edges(&[("main", "feature-a"), ("main", "feature-b")]));
    assert!(outcomes.iter().all(|o| o.failure.is_none()));
    assert_eq!(get_current_branch(&repo).unwrap(), "main");
}

#[test]
fn history_strategy_keeps_direct_edges() {
    let (_dir, repo) = new_repo();
    let c0 = commit(&repo, &[], "f", "0", T0, "c0");
    let c1 = commit(&repo, &[c0], "f", "1", T0 + 1, "c1");
    let c2 = commit(&repo, &[c1], "f", "2", T0 + 2, "c2");
    branch(&repo, "main", c0);
    branch(&repo, "middle", c1);
    branch(&repo, "top", c2);
    let tree = get_branch_tree_by_history(&repo).unwrap();
    assert_eq!(tree.edges(), edges(&[("main", "middle"), ("middle", "top")]));
    let all = names(&["main", "middle", "top"]);
    assert!(is_direct_parent_child(&all, "main", "middle", &repo).unwrap());
    assert!(!is_direct_parent_child(&all, "main", "top", &repo).unwrap());
    // without a branch of another name nothing can lie between
    assert!(is_direct_parent_child(&names(&["main", "top"]), "main", "top", &repo).unwrap());
    assert!(is_direct_parent_child(&names(&[]), "main", "top", &repo).unwrap());
    assert!(matches!(
        is_direct_parent_child(&all, "main", "missing", &repo),
        Err(GitFlowError::Git(_))
    ));
}

#[test]
fn history_strategy_on_unrelated_branches() {
    let (_dir, repo) = new_repo();
    let x = commit(&repo, &[], "x", "x", T0, "x");
    let y = commit(&repo, &[], "y", "y", T0 + 1, "y");
    branch(&repo, "main", x);
    branch(&repo, "island", y);
    assert!(get_branch_tree_by_history(&repo).unwrap().is_empty());
}

#[test]
fn history_strategy_on_branches_at_one_commit() {
    let (_dir, repo) = new_repo();
    let x = commit(&repo, &[], "x", "x", T0, "x");
    branch(&repo, "main", x);
    branch(&repo, "twin", x);
    assert!(get_branch_tree_by_history(&repo).unwrap().is_empty());
}

#[test]
fn a_commit_is_not_its_own_descendant() {
    let (_dir, repo) = two_features();
    let main = get_branch_commit(&repo, "main").unwrap();
    let a = get_branch_commit(&repo, "feature-a").unwrap();
    let b = get_branch_commit(&repo, "feature-b").unwrap();
    assert!(!is_descendant_of(&repo, &main, &main).unwrap());
    assert!(!is_descendant_of(&repo, &a, &a).unwrap());
    assert!(is_descendant_of(&repo, &a, &main).unwrap());
    assert!(!is_descendant_of(&repo, &main, &a).unwrap());
    assert!(!is_descendant_of(&repo, &a, &b).unwrap());
}

#[test]
fn branch_commit_holds_id_time_and_message() {
    let (_dir, repo) = two_features();
    let a = get_branch_commit(&repo, "feature-a").unwrap();
    assert_eq!(a.id, tip(&repo, "feature-a").to_string());
    assert_eq!(a.time, T0 + DAY);
    assert_eq!(a.message.as_deref(), Some("Work on a"));
    assert!(matches!(get_branch_commit(&repo, "missing"), Err(GitFlowError::Git(_))));
}

#[test]
fn creation_time_strategy_with_a_branch_outside_the_window() {
    let (_dir, repo) = new_repo();
    let c0 = commit(&repo, &[], "f", "0", T0, "c0");
    let c1 = commit(&repo, &[c0], "f", "1", T0 + DAY, "c1");
    let c2 = commit(&repo, &[c1], "f", "2", T0 + 40 * DAY, "c2");
    branch(&repo, "main", c0);
    branch(&repo, "near", c1);
    branch(&repo, "far", c2);
    let tree = get_branch_tree_by_creation_time(&repo).unwrap();
    assert_eq!(tree.edges(), edges(&[("main", "near")]));
    assert!(!tree.is_child("far"));
}

#[test]
fn creation_time_strategy_wants_shared_history() {
    let (_dir, repo) = new_repo();
    let x = commit(&repo, &[], "x", "x", T0, "x");
    let y = commit(&repo, &[], "y", "y", T0 + DAY, "y");
    let x2 = commit(&repo, &[x], "x", "x2", T0 + 2 * DAY, "x2");
    branch(&repo, "main", x);
    branch(&repo, "island", y);
    branch(&repo, "feature", x2);
    let tree = get_branch_tree_by_creation_time(&repo).unwrap();
    assert_eq!(tree.edges(), edges(&[("main", "feature")]));
}

#[test]
fn creation_time_strategy_relates_siblings_by_their_common_ancestor() {
    let (_dir, repo) = two_features();
    // feature-b is one day younger than feature-a, and both come from main
    let tree = get_branch_tree_by_creation_time(&repo).unwrap();
    assert_eq!(tree.edges(), edges(&[("main", "feature-a"), ("feature-a", "feature-b")]));
}

#[test]
fn default_root_strategy() {
    let (_dir, repo) = two_features();
    let tree = get_branch_tree_with_default_root(&repo, "main").unwrap();
    assert_eq!(tree.edges(), edges(&[("main", "feature-a"), ("main", "feature-b")]));
    let tree = get_branch_tree_with_default_root(&repo, "feature-b").unwrap();
    assert_eq!(tree.edges(), edges(&[("feature-b", "feature-a"), ("feature-b", "main")]));
}

#[test]
fn default_root_strategy_without_the_default_branch() {
    let (_dir, repo) = two_features();
    let tree = get_branch_tree_with_default_root(&repo, "trunk").unwrap();
    assert!(tree.is_empty());
    let mut config = Config::new();
    config.set_default_base_branch("trunk".to_string());
    assert!(get_branch_tree(&repo, BranchRelationStrategy::DefaultRoot, &config).unwrap().is_empty());
}

#[test]
fn manual_strategy_gives_the_relationships_as_they_stand() {
    let (_dir, repo) = two_features();
    let mut config = Config::new();
    config.add_branch_relationship("main".to_string(), "feature-x".to_string());
    let tree = get_branch_tree(&repo, BranchRelationStrategy::Manual, &config).unwrap();
    assert_eq!(tree.edges(), edges(&[("main", "feature-x")]));
    // the branch that does not exist shows as a failed merge, not before
    let outcomes = run_cascade(&repo, &tree, &find_root_branches(&tree));
    assert_eq!(outcomes.len(), 1);
    assert_eq!((outcomes[0].parent.as_str(), outcomes[0].child.as_str()), ("main", "feature-x"));
    assert!(matches!(outcomes[0].failure, Some(GitFlowError::Git(_))));
    assert_eq!(get_current_branch(&repo).unwrap(), "main");
}

#[test]
fn get_branch_tree_goes_by_the_strategy() {
    let (_dir, repo) = two_features();
    let config = Config::new();
    let by_history = get_branch_tree(&repo, BranchRelationStrategy::CommitHistory, &config).unwrap();
    assert_eq!(by_history.edges(), edges(&[("main", "feature-a"), ("main", "feature-b")]));
    let by_time = get_branch_tree(&repo, BranchRelationStrategy::CreationTime, &config).unwrap();
    assert_eq!(by_time.edges(), edges(&[("main", "feature-a"), ("feature-a", "feature-b")]));
    let by_root = get_branch_tree(&repo, BranchRelationStrategy::DefaultRoot, &config).unwrap();
    assert_eq!(by_root.edges(), edges(&[("main", "feature-a"), ("main", "feature-b")]));
    assert!(get_branch_tree(&repo, BranchRelationStrategy::Manual, &config).unwrap().is_empty());
}

#[test]
fn parent_branch_by_history_then_time_then_default() {
    let (_dir, repo) = two_features();
    assert_eq!(get_parent_branch(&repo, "feature-a", "trunk").unwrap(), "main");
    assert_eq!(get_parent_branch(&repo, "main", "trunk").unwrap(), "trunk");
    let y = commit(&repo, &[], "y", "y", T0 + 3 * DAY, "y");
    branch(&repo, "island", y);
    assert_eq!(get_parent_branch(&repo, "island", "trunk").unwrap(), "trunk");
}

#[test]
fn current_branch_and_checkout() {
    let (_dir, repo) = two_features();
    assert_eq!(get_current_branch(&repo).unwrap(), "main");
    checkout_branch(&repo, "feature-a").unwrap();
    assert_eq!(get_current_branch(&repo).unwrap(), "feature-a");
    assert!(matches!(checkout_branch(&repo, "missing"), Err(GitFlowError::Git(_))));
    assert_eq!(get_current_branch(&repo).unwrap(), "feature-a");
}

#[test]
fn current_branch_of_a_detached_head() {
    let (_dir, repo) = two_features();
    repo.set_head_detached(tip(&repo, "main")).unwrap();
    assert!(matches!(get_current_branch(&repo), Err(GitFlowError::Git(_))));
}

#[test]
fn create_branch_on_the_current_branch() {
    let (_dir, repo) = two_features();
    create_new_branch(&repo, "feature-c", None).unwrap();
    assert_eq!(get_current_branch(&repo).unwrap(), "feature-c");
    assert_eq!(tip(&repo, "feature-c"), tip(&repo, "main"));
}

#[test]
fn create_branch_on_a_given_parent() {
    let (_dir, repo) = two_features();
    handle_new_branch(&repo, "feature-d", Some("feature-a")).unwrap();
    assert_eq!(get_current_branch(&repo).unwrap(), "feature-d");
    assert_eq!(tip(&repo, "feature-d"), tip(&repo, "feature-a"));
}

#[test]
fn create_branch_that_exists_or_on_a_missing_parent() {
    let (_dir, repo) = two_features();
    assert!(matches!(create_new_branch(&repo, "feature-a", None), Err(GitFlowError::Git(_))));
    match create_new_branch(&repo, "feature-e", Some("nowhere")) {
        Err(GitFlowError::BranchNotFound(name)) => assert_eq!(name, "nowhere"),
        other => panic!("unexpected: {:?}", other),
    }
    assert_eq!(get_current_branch(&repo).unwrap(), "main");
}

#[test]
fn merge_when_up_to_date() {
    let (_dir, repo) = two_features();
    let before = tip(&repo, "feature-a");
    merge_branch(&repo, "main", "feature-a").unwrap();
    assert_eq!(tip(&repo, "feature-a"), before);
    assert_eq!(get_current_branch(&repo).unwrap(), "main");
}

#[test]
fn merge_by_fast_forward() {
    let (_dir, repo) = two_features();
    merge_branch(&repo, "feature-a", "main").unwrap();
    assert_eq!(tip(&repo, "main"), tip(&repo, "feature-a"));
    assert_eq!(get_current_branch(&repo).unwrap(), "main");
}

#[test]
fn merge_by_fast_forward_of_another_branch() {
    let (_dir, repo) = two_features();
    create_new_branch(&repo, "copy", Some("main")).unwrap();
    checkout_branch(&repo, "feature-b").unwrap();
    merge_branch(&repo, "feature-a", "copy").unwrap();
    assert_eq!(tip(&repo, "copy"), tip(&repo, "feature-a"));
}

#[test]
fn merge_by_a_merge_commit() {
    let (_dir, repo) = two_features();
    let a = tip(&repo, "feature-a");
    let b = tip(&repo, "feature-b");
    merge_branch(&repo, "feature-a", "feature-b").unwrap();
    let merged = repo.find_commit(tip(&repo, "feature-b")).unwrap();
    let parents: Vec<Oid> = merged.parent_ids().collect();
    assert_eq!(parents, vec![b, a]);
    assert_eq!(merged.message().unwrap(), "Merge branch 'feature-a' into 'feature-b'");
    assert!(merged.tree().unwrap().get_name("a.txt").is_some());
    assert!(merged.tree().unwrap().get_name("b.txt").is_some());
    assert_eq!(get_current_branch(&repo).unwrap(), "main");
    assert!(get_repo_status(&repo, true).unwrap().is_empty());
}

/// main and feature-a change the same file in two ways; feature-b does not touch it.
fn conflicting() -> (TempDir, Repository) {
    let (dir, repo) = new_repo();
    let c0 = commit(&repo, &[], "f.txt", "base\n", T0, "c0");
    let a = commit(&repo, &[c0], "f.txt", "from a\n", T0 + 1, "a");
    let b = commit(&repo, &[c0], "g.txt", "from b\n", T0 + 2, "b");
    let c1 = commit(&repo, &[c0], "f.txt", "from main\n", T0 + 3, "c1");
    branch(&repo, "main", c1);
    branch(&repo, "feature-a", a);
    branch(&repo, "feature-b", b);
    sync_worktree(&repo);
    (dir, repo)
}

#[test]
fn merge_with_a_conflict_retreats() {
    let (_dir, repo) = conflicting();
    let before = tip(&repo, "feature-a");
    match merge_branch(&repo, "main", "feature-a") {
        Err(GitFlowError::Aborted(message)) => assert_eq!(
            message,
            "Merge conflicts detected between main and feature-a. Please resolve manually."
        ),
        other => panic!("unexpected: {:?}", other),
    }
    assert_eq!(tip(&repo, "feature-a"), before);
    assert_eq!(repo.state(), git2::RepositoryState::Clean);
}

#[test]
fn cascade_goes_on_after_a_failed_merge() {
    let (_dir, repo) = conflicting();
    let mut tree = BranchTree::new();
    tree.add_child("main".to_string(), "feature-a".to_string());
    tree.add_child("main".to_string(), "feature-b".to_string());
    tree.add_child("feature-a".to_string(), "missing".to_string());
    let b_before = tip(&repo, "feature-b");
    let outcomes = run_cascade(&repo, &tree, &names(&["main"]));
    let attempted: Vec<(String, String)> =
        outcomes.iter().map(|o| (o.parent.clone(), o.child.clone())).collect();
    assert_eq!(
        attempted,
        edges(&[("main", "feature-a"), ("feature-a", "missing"), ("main", "feature-b")])
    );
    match &outcomes[0].failure {
        Some(GitFlowError::Aborted(message)) => assert_eq!(
            message,
            "Merge conflicts detected between main and feature-a. Please resolve manually."
        ),
        other => panic!("unexpected: {:?}", other),
    }
    assert!(outcomes[1].failure.is_some());
    assert_eq!(outcomes.len(), 3);
    if outcomes[2].failure.is_some() {
        assert_eq!(tip(&repo, "feature-b"), b_before);
    }
}

#[test]
fn cascade_merges_the_siblings_of_a_missing_branch() {
    let (_dir, repo) = conflicting();
    let mut tree = BranchTree::new();
    tree.add_child("main".to_string(), "missing".to_string());
    tree.add_child("main".to_string(), "feature-b".to_string());
    let b_before = tip(&repo, "feature-b");
    let outcomes = run_cascade(&repo, &tree, &names(&["main"]));
    assert_eq!(outcomes.len(), 2);
    assert!(matches!(outcomes[0].failure, Some(GitFlowError::Git(_))));
    assert!(outcomes[1].failure.is_none());
    let merged = repo.find_commit(tip(&repo, "feature-b")).unwrap();
    let parents: Vec<Oid> = merged.parent_ids().collect();
    assert_eq!(parents, vec![b_before, tip(&repo, "main")]);
    assert_eq!(get_current_branch(&repo).unwrap(), "main");
}

#[test]
fn merge_refuses_a_dirty_working_tree() {
    let (_dir, repo) = two_features();
    // the index holds a file that the last commit does not
    let blob = repo.blob(b"new").unwrap();
    let mut index = repo.index().unwrap();
    let entry = git2::IndexEntry {
        ctime: git2::IndexTime::new(0, 0),
        mtime: git2::IndexTime::new(0, 0),
        dev: 0,
        ino: 0,
        mode: 0o100644,
        uid: 0,
        gid: 0,
        file_size: 3,
        id: blob,
        flags: 0,
        flags_extended: 0,
        path: b"staged.txt".to_vec(),
    };
    index.add(&entry).unwrap();
    index.write().unwrap();
    assert!(has_uncommitted_changes(&repo).unwrap());
    let status = get_repo_status(&repo, false).unwrap();
    assert_eq!(status.len(), 1);
    assert_eq!(status[0].path, "staged.txt");
    assert!(status[0].status.is_index_new());
    let label = format_status_entry(&status[0].status);
    assert_eq!(label.text.len(), 3);
    assert!(label.text.starts_with('A'));
    assert!(!has_conflicts(&repo).unwrap());
    match merge_branch(&repo, "main", "feature-a") {
        Err(GitFlowError::Aborted(message)) => {
            assert_eq!(message, "There are uncommitted changes. Please commit or stash them first.")
        }
        other => panic!("unexpected: {:?}", other),
    }
}

#[test]
fn status_of_a_clean_tree() {
    let (_dir, repo) = two_features();
    assert!(get_repo_status(&repo, true).unwrap().is_empty());
    assert!(!has_uncommitted_changes(&repo).unwrap());
    assert!(!has_conflicts(&repo).unwrap());
}

#[test]
fn status_label_of_a_staged_file_is_green() {
    let label = format_status_entry(&git2::Status::INDEX_NEW);
    assert_eq!((label.text.as_str(), label.color), ("A  ", StatusColor::Green));
    let label = format_status_entry(&git2::Status::WT_DELETED);
    assert_eq!((label.text.as_str(), label.color), (" D ", StatusColor::Red));
    let label = format_status_entry(&(git2::Status::INDEX_MODIFIED | git2::Status::CONFLICTED));
    assert_eq!((label.text.as_str(), label.color), ("M C", StatusColor::Plain));
}

#[test]
fn commit_changes_commits_what_differs() {
    let (_dir, repo) = two_features();
    // bring the files of feature-a into the working tree, on main
    let other = repo.revparse_single("feature-a").unwrap();
    repo.checkout_tree(&other, Some(CheckoutBuilder::new().force())).unwrap();
    assert!(has_uncommitted_changes(&repo).unwrap());
    let before = tip(&repo, "main");
    commit_changes(&repo, "Take a over\n\nbody").unwrap();
    let now = repo.find_commit(tip(&repo, "main")).unwrap();
    assert_eq!(now.parent_id(0).unwrap(), before);
    assert!(now.tree().unwrap().get_name("a.txt").is_some());
    assert_eq!(get_last_commit_message(&repo).unwrap(), "Take a over\n\nbody");
    assert_eq!(get_last_commit_summary(&repo).unwrap(), "Take a over");
    assert!(!has_uncommitted_changes(&repo).unwrap());
}

#[test]
fn last_commit_summary_is_the_first_line() {
    let (_dir, repo) = two_features();
    assert_eq!(get_last_commit_message(&repo).unwrap(), "Initial commit\n\nwith a body");
    assert_eq!(get_last_commit_summary(&repo).unwrap(), "Initial commit");
}

#[test]
fn repo_info_reads_the_origin() {
    let (_dir, repo) = two_features();
    match get_repo_info(&repo) {
        Err(GitFlowError::RemoteNotFound(name)) => assert_eq!(name, "origin"),
        other => panic!("unexpected: {:?}", other),
    }
    repo.remote("origin", "git@github.com:owner/project.git").unwrap();
    assert_eq!(get_repo_info(&repo).unwrap(), ("owner".to_string(), "project".to_string()));
}

#[test]
fn show_draws_the_hierarchy() {
    let (_dir, repo) = two_features();
    let config = Config::new();
    match handle_show(&repo, &config, None).unwrap() {
        ShowReport::Hierarchy(shown) => {
            let drawn: Vec<(String, bool, Option<String>)> = shown
                .iter()
                .map(|s| (s.line.branch.clone(), s.is_current, s.summary.clone()))
                .collect();
            assert_eq!(
                drawn,
                vec![
                    ("main".to_string(), true, Some("Initial commit".to_string())),
                    ("feature-a".to_string(), false, None),
                    ("feature-b".to_string(), false, None),
                ]
            );
        }
        ShowReport::Listing(lines) => panic!("unexpected listing: {:?}", lines),
    }
}

#[test]
fn show_lists_the_branches_without_a_hierarchy() {
    let (_dir, repo) = two_features();
    let config = Config::new();
    match handle_show(&repo, &config, Some(BranchDetectionStrategy::Manual)).unwrap() {
        ShowReport::Listing(lines) => assert_eq!(
            lines,
            vec!["feature-a is not current", "feature-b is not current", "main is current"]
        ),
        ShowReport::Hierarchy(_) => panic!("unexpected hierarchy"),
    }
}

#[test]
fn summaries_of_the_parents() {
    let (_dir, repo) = two_features();
    let mut tree = BranchTree::new();
    tree.add_child("feature-a".to_string(), "x".to_string());
    tree.add_child("missing".to_string(), "y".to_string());
    tree.add_child("main".to_string(), "z".to_string());
    assert_eq!(
        commit_summaries(&repo, &tree),
        vec![
            ("feature-a".to_string(), "Work on a".to_string()),
            ("main".to_string(), "Initial commit".to_string()),
        ]
    );
}

#[test]
fn a_branch_without_a_readable_tip_fails_the_detection() {
    let (_dir, repo) = two_features();
    let tree_id = repo.find_commit(tip(&repo, "main")).unwrap().tree_id();
    repo.reference("refs/heads/odd", tree_id, true, "a branch that names no commit").unwrap();
    assert!(matches!(get_branch_tree_by_history(&repo), Err(GitFlowError::Git(_))));
    assert!(matches!(get_branch_tree_by_creation_time(&repo), Err(GitFlowError::Git(_))));
}

#[test]
fn default_root_strategy_with_a_name_that_cannot_be_looked_up() {
    let (_dir, repo) = two_features();
    assert!(matches!(
        get_branch_tree_with_default_root(&repo, "not a..name"),
        Err(GitFlowError::Git(_))
    ));
}

#[test]
fn the_first_commit_of_a_repository_has_no_parent() {
    let (_dir, repo) = new_repo();
    let blob = repo.blob(b"first").unwrap();
    let mut index = repo.index().unwrap();
    let entry = git2::IndexEntry {
        ctime: git2::IndexTime::new(0, 0),
        mtime: git2::IndexTime::new(0, 0),
        dev: 0,
        ino: 0,
        mode: 0o100644,
        uid: 0,
        gid: 0,
        file_size: 5,
        id: blob,
        flags: 0,
        flags_extended: 0,
        path: b"first.txt".to_vec(),
    };
    index.add(&entry).unwrap();
    index.write().unwrap();
    commit_changes(&repo, "First").unwrap();
    let first = repo.find_commit(tip(&repo, "main")).unwrap();
    assert_eq!(first.parent_count(), 0);
    assert_eq!(get_last_commit_summary(&repo).unwrap(), "First");
}
