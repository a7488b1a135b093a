use gitflow::error::GitFlowError;
use gitflow::git::backend::BackendFailure;
use gitflow::git::branch::{
    branch_exists, branch_names_of, choose_parent, find_parent_in, met_on_walk, pair_with_others,
    refuse_existing, require_parent, tree_with_default_root, valid_names, BranchRelationStrategy,
};
use gitflow::git::history::{
    descends_at, edges_of_relation, filter_direct, is_direct_at, is_direct_edge_at,
    tree_by_history,
};
use gitflow::git::timeline::{
    edges_by_creation_time, order_by_time, tree_by_creation_time, PARENT_WINDOW_SECS,
};
use gitflow::tree::BranchTree;

fn names(list: &[&str]) -> Vec<String> {
    list.iter().map(|s| s.to_string()).collect()
}

fn edges(list: &[(&str, &str)]) -> Vec<(String, String)> {
    list.iter().map(|(p, c)| (p.to_string(), c.to_string())).collect()
}

/// The table over `n` branches in which the row `c` marks the column `p` for each
/// pair `(c, p)` of `pairs`.
fn table(n: usize, pairs: &[(usize, usize)]) -> Vec<Vec<bool>> {
    let mut t = vec![vec![false; n]; n];
    for (c, p) in pairs {
        t[*c][*p] = true;
    }
    t
}

fn ages(list: &[(&str, i64)]) -> Vec<(String, i64)> {
    list.iter().map(|(n, t)| (n.to_string(), *t)).collect()
}

const DAY: i64 = 86_400;

#[test]
fn default_strategy_is_commit_history() {
    assert_eq!(BranchRelationStrategy::default(), BranchRelationStrategy::CommitHistory);
}

#[test]
fn history_two_features_from_main() {
    // main, feature-a, feature-b: both features descend from main, not from each other.
    let branches = names(&["main", "feature-a", "feature-b"]);
    let d = table(3, &[(1, 0), (2, 0)]);
    let tree = tree_by_history(&branches, &d);
    assert_eq!(tree.edges(), edges(&[("main", "feature-a"), ("main", "feature-b")]));
    assert_eq!(tree.keys(), names(&["main"]));
}

#[test]
fn history_keeps_direct_edges_only() {
    // main <- a <- b: b descends from a and from main.
    let branches = names(&["main", "a", "b"]);
    let d = table(3, &[(1, 0), (2, 0), (2, 1)]);
    let tree = tree_by_history(&branches, &d);
    assert_eq!(tree.edges(), edges(&[("main", "a"), ("a", "b")]));
    assert!(is_direct_edge_at(&branches, &d, 0, 1));
    assert!(is_direct_edge_at(&branches, &d, 1, 2));
    assert!(!is_direct_edge_at(&branches, &d, 0, 2));
    assert!(!is_direct_edge_at(&branches, &d, 1, 0));
    assert!(!is_direct_edge_at(&branches, &d, 0, 0));
    assert!(!is_direct_edge_at(&branches, &d, 0, 7));
}

#[test]
fn history_without_ancestry_is_empty() {
    let branches = names(&["main", "a", "b", "c"]);
    let d = table(4, &[]);
    let tree = tree_by_history(&branches, &d);
    assert!(tree.is_empty());
    assert_eq!(edges_of_relation(&branches, &filter_direct(&branches, &d)), edges(&[]));
}

#[test]
fn history_of_no_branches_is_empty() {
    assert!(tree_by_history(&names(&[]), &table(0, &[])).is_empty());
}

#[test]
fn history_orders_edges_by_parent_then_child() {
    // b is listed before its parent a; both a and c descend from main.
    let branches = names(&["b", "a", "main", "c"]);
    let d = table(4, &[(0, 1), (0, 2), (1, 2), (3, 2)]);
    let tree = tree_by_history(&branches, &d);
    assert_eq!(tree.edges(), edges(&[("a", "b"), ("main", "a"), ("main", "c")]));
}

#[test]
fn filter_direct_is_idempotent() {
    let branches = names(&["main", "a", "b", "c"]);
    let d = table(4, &[(1, 0), (2, 0), (2, 1), (3, 0), (3, 1), (3, 2)]);
    let once = filter_direct(&branches, &d);
    let twice = filter_direct(&branches, &once);
    assert_eq!(once, table(4, &[(1, 0), (2, 1), (3, 2)]));
    assert_eq!(twice, once);
}

#[test]
fn a_table_that_lacks_cells_reads_as_unrelated() {
    let branches = names(&["main", "a"]);
    let short: Vec<Vec<bool>> = vec![vec![false], vec![true]];
    assert!(descends_at(&short, 1, 0));
    assert!(!descends_at(&short, 1, 1));
    assert!(!descends_at(&short, 2, 0));
    assert_eq!(tree_by_history(&branches, &short).edges(), edges(&[("main", "a")]));
    assert!(tree_by_history(&branches, &Vec::new()).is_empty());
}

#[test]
fn branches_of_one_name_are_not_joined() {
    let branches = names(&["main", "main"]);
    let d = table(2, &[(1, 0)]);
    assert!(tree_by_history(&branches, &d).is_empty());
}

#[test]
fn order_by_time_is_stable() {
    let list = ages(&[("c", 30), ("a", 10), ("b", 10), ("d", 5)]);
    assert_eq!(order_by_time(&list), vec![3, 1, 2, 0]);
    assert_eq!(order_by_time(&ages(&[])), Vec::<usize>::new());
}

#[test]
fn creation_time_picks_the_nearest_related_branch() {
    let list = ages(&[("main", 0), ("a", DAY), ("b", 2 * DAY)]);
    let all = table(3, &[(0, 1), (1, 0), (0, 2), (2, 0), (1, 2), (2, 1)]);
    assert_eq!(edges_by_creation_time(&list, &all), edges(&[("main", "a"), ("a", "b")]));
    // b is unrelated to a: its parent is the next older branch, main.
    let part = table(3, &[(0, 1), (1, 0), (0, 2), (2, 0)]);
    assert_eq!(edges_by_creation_time(&list, &part), edges(&[("main", "a"), ("main", "b")]));
}

#[test]
fn creation_time_leaves_a_branch_outside_the_window_without_parent() {
    // t0 < t0 + 1d < t0 + 40d, all related.
    let t0: i64 = 1_700_000_000;
    let list = ages(&[("main", t0), ("near", t0 + DAY), ("far", t0 + 40 * DAY)]);
    let all = table(3, &[(0, 1), (1, 0), (0, 2), (2, 0), (1, 2), (2, 1)]);
    let tree = tree_by_creation_time(&list, &all);
    assert_eq!(tree.edges(), edges(&[("main", "near")]));
    assert!(!tree.is_child("far"));
}

#[test]
fn creation_time_window_is_thirty_days_exclusive() {
    assert_eq!(PARENT_WINDOW_SECS, 60 * 60 * 24 * 30);
    let all = table(2, &[(0, 1), (1, 0)]);
    let inside = ages(&[("main", 100), ("a", 100 + PARENT_WINDOW_SECS - 1)]);
    assert_eq!(edges_by_creation_time(&inside, &all), edges(&[("main", "a")]));
    let at = ages(&[("main", 100), ("a", 100 + PARENT_WINDOW_SECS)]);
    assert_eq!(edges_by_creation_time(&at, &all), edges(&[]));
}

#[test]
fn creation_time_sorts_before_it_scans() {
    // listed youngest first
    let list = ages(&[("young", 3 * DAY), ("old", 0), ("middle", DAY)]);
    let all = table(3, &[(0, 1), (1, 0), (0, 2), (2, 0), (1, 2), (2, 1)]);
    assert_eq!(edges_by_creation_time(&list, &all), edges(&[("old", "middle"), ("middle", "young")]));
}

#[test]
fn creation_time_handles_extreme_times() {
    let list = ages(&[("a", i64::MIN), ("b", i64::MAX)]);
    let all = table(2, &[(0, 1), (1, 0)]);
    assert_eq!(edges_by_creation_time(&list, &all), edges(&[]));
}

#[test]
fn creation_time_unrelated_branches_are_roots() {
    let list = ages(&[("main", 0), ("a", 10), ("b", 20)]);
    assert!(tree_by_creation_time(&list, &table(3, &[])).is_empty());
    assert!(tree_by_creation_time(&ages(&[("main", 0)]), &table(1, &[])).is_empty());
}

#[test]
fn default_root_is_parent_of_all_others() {
    let tree = tree_with_default_root("main", true, &names(&["a", "main", "b"]));
    assert_eq!(tree.edges(), edges(&[("main", "a"), ("main", "b")]));
}

#[test]
fn default_root_that_does_not_exist_gives_an_empty_tree() {
    let tree = tree_with_default_root("main", false, &names(&["a", "b"]));
    assert!(tree.is_empty());
}

#[test]
fn default_root_alone_gives_an_empty_tree() {
    assert!(tree_with_default_root("main", true, &names(&["main"])).is_empty());
    assert!(tree_with_default_root("main", true, &names(&[])).is_empty());
}

#[test]
fn valid_names_wants_every_name() {
    let all = vec![Some("main".to_string()), Some("a".to_string())];
    assert_eq!(valid_names(&all), Some(names(&["main", "a"])));
    let one_missing = vec![Some("main".to_string()), None, Some("a".to_string())];
    assert_eq!(valid_names(&one_missing), None);
    assert_eq!(valid_names(&Vec::new()), Some(Vec::new()));
}

#[test]
fn a_commit_is_not_met_as_its_own_ancestor() {
    let walk = names(&["c3", "c2", "c1"]);
    assert!(met_on_walk(&walk, "c3", "c1"));
    assert!(!met_on_walk(&walk, "c3", "c3"));
    assert!(!met_on_walk(&walk, "c3", "zz"));
}

#[test]
fn find_parent_in_takes_the_first_entry() {
    let mut tree = BranchTree::new();
    tree.add_child("main".to_string(), "a".to_string());
    tree.add_child("dev".to_string(), "a".to_string());
    tree.add_child("dev".to_string(), "b".to_string());
    assert_eq!(find_parent_in(&tree, "a"), Some("main".to_string()));
    assert_eq!(find_parent_in(&tree, "b"), Some("dev".to_string()));
    assert_eq!(find_parent_in(&tree, "main"), None);
}

#[test]
fn choose_parent_prefers_the_first_hierarchy() {
    let mut by_history = BranchTree::new();
    by_history.add_child("main".to_string(), "a".to_string());
    let mut by_time = BranchTree::new();
    by_time.add_child("dev".to_string(), "a".to_string());
    by_time.add_child("dev".to_string(), "b".to_string());
    assert_eq!(choose_parent(&by_history, &by_time, "a", "trunk"), "main");
    assert_eq!(choose_parent(&by_history, &by_time, "b", "trunk"), "dev");
    assert_eq!(choose_parent(&by_history, &by_time, "c", "trunk"), "trunk");
}

#[test]
fn directness_asks_for_no_third_branch_between() {
    // main <- a <- b
    let branches = names(&["main", "a", "b"]);
    let d = table(3, &[(1, 0), (2, 0), (2, 1)]);
    assert!(is_direct_at(&branches, &d, 0, 1));
    assert!(is_direct_at(&branches, &d, 1, 2));
    assert!(!is_direct_at(&branches, &d, 0, 2));
    // the test asks nothing of the pair itself
    assert!(is_direct_at(&branches, &d, 2, 0));
    assert!(is_direct_at(&branches, &d, 1, 1));
    // outside the table nothing is direct
    assert!(!is_direct_at(&branches, &d, 0, 3));
    assert!(!is_direct_at(&branches, &d, 3, 0));
}

#[test]
fn every_edge_of_a_detected_tree_passes_the_directness_test() {
    let branches = names(&["main", "a", "b", "c"]);
    let d = table(4, &[(1, 0), (2, 0), (2, 1), (3, 0)]);
    let tree = tree_by_history(&branches, &d);
    for (parent, child) in tree.edges() {
        let p = branches.iter().position(|n| *n == parent).unwrap();
        let c = branches.iter().position(|n| *n == child).unwrap();
        assert!(is_direct_at(&branches, &d, p, c), "{} -> {}", parent, child);
    }
    assert_eq!(tree.edges(), edges(&[("main", "a"), ("main", "c"), ("a", "b")]));
}

#[test]
fn a_branch_of_the_name_of_the_pair_does_not_lie_between() {
    // the second "main" descends from the first and is an ancestor of a
    let branches = names(&["main", "a", "main"]);
    let d = table(3, &[(1, 0), (2, 0), (1, 2)]);
    assert!(is_direct_at(&branches, &d, 0, 1));
}

#[test]
fn the_pair_comes_before_the_others() {
    assert_eq!(
        pair_with_others("p", "c", &names(&["x", "p", "y"])),
        names(&["p", "c", "x", "p", "y"])
    );
    assert_eq!(pair_with_others("p", "c", &names(&[])), names(&["p", "c"]));
}

#[test]
fn an_unreadable_name_fails_the_listing() {
    let all = vec![Some("main".to_string()), Some("a".to_string())];
    assert_eq!(branch_names_of(&all).unwrap(), names(&["main", "a"]));
    let one_missing = vec![Some("main".to_string()), None];
    assert!(matches!(branch_names_of(&one_missing), Err(GitFlowError::Git(_))));
    assert!(branch_names_of(&Vec::new()).unwrap().is_empty());
}

#[test]
fn what_a_lookup_says_of_a_branch() {
    assert_eq!(branch_exists(None), Some(true));
    assert_eq!(branch_exists(Some(BackendFailure::NotFound)), Some(false));
    assert_eq!(branch_exists(Some(BackendFailure::Conflict)), None);
    assert_eq!(branch_exists(Some(BackendFailure::Other)), None);
}

#[test]
fn a_new_branch_wants_a_free_name_and_a_parent() {
    assert!(refuse_existing("feature", false).is_ok());
    match refuse_existing("feature", true) {
        Err(GitFlowError::Git(inner)) => {
            assert_eq!(inner.message(), "Branch 'feature' already exists")
        }
        other => panic!("unexpected: {:?}", other),
    }
    assert_eq!(require_parent("main".to_string(), true).unwrap(), "main");
    match require_parent("main".to_string(), false) {
        Err(GitFlowError::BranchNotFound(name)) => assert_eq!(name, "main"),
        other => panic!("unexpected: {:?}", other),
    }
}
