use gitflow::git::branch::find_root_branches;
use gitflow::tree::{clone_names, contains_name, same_name, without_name, BranchTree};

fn names(list: &[&str]) -> Vec<String> {
    list.iter().map(|s| s.to_string()).collect()
}

fn children(tree: &BranchTree, parent: &str) -> Option<Vec<String>> {
    tree.get(parent).cloned()
}

fn tree_of(edges: &[(&str, &str)]) -> BranchTree {
    let mut tree = BranchTree::new();
    for (parent, child) in edges {
        tree.add_child(parent.to_string(), child.to_string());
    }
    tree
}

#[test]
fn new_tree_is_empty() {
    let tree = BranchTree::new();
    assert!(tree.is_empty());
    assert_eq!(tree.len(), 0);
    assert!(tree.entry(0).is_none());
    assert!(tree.get("main").is_none());
    assert!(!tree.contains_key("main"));
    assert_eq!(tree.keys(), Vec::<String>::new());
    assert_eq!(tree.edges(), Vec::<(String, String)>::new());
}

#[test]
fn add_child_appends_to_an_existing_parent() {
    let tree = tree_of(&[("main", "a"), ("dev", "x"), ("main", "b")]);
    assert_eq!(tree.len(), 2);
    assert_eq!(tree.keys(), names(&["main", "dev"]));
    assert_eq!(children(&tree, "main"), Some(names(&["a", "b"])));
    assert_eq!(children(&tree, "dev"), Some(names(&["x"])));
    assert_eq!(children(&tree, "a"), None);
    assert!(tree.contains_key("dev"));
    assert!(!tree.contains_key("x"));
}

#[test]
fn add_child_keeps_a_child_that_is_added_twice() {
    let tree = tree_of(&[("main", "a"), ("main", "a")]);
    assert_eq!(children(&tree, "main"), Some(names(&["a", "a"])));
}

#[test]
fn entry_gives_parents_in_the_order_of_their_first_edge() {
    let tree = tree_of(&[("b", "1"), ("a", "2"), ("b", "3")]);
    assert_eq!(tree.entry(0).unwrap().parent, "b");
    assert_eq!(tree.entry(0).unwrap().children, names(&["1", "3"]));
    assert_eq!(tree.entry(1).unwrap().parent, "a");
    assert!(tree.entry(2).is_none());
}

#[test]
fn insert_replaces_the_children_in_place() {
    let mut tree = tree_of(&[("main", "a"), ("dev", "x")]);
    tree.insert("main".to_string(), names(&["p", "q"]));
    assert_eq!(tree.keys(), names(&["main", "dev"]));
    assert_eq!(children(&tree, "main"), Some(names(&["p", "q"])));
    tree.insert("other".to_string(), names(&[]));
    assert_eq!(tree.keys(), names(&["main", "dev", "other"]));
    assert_eq!(children(&tree, "other"), Some(names(&[])));
}

#[test]
fn remove_child_strikes_every_occurrence() {
    let mut tree = tree_of(&[("main", "a"), ("main", "b"), ("main", "a")]);
    tree.remove_child("main", "a");
    assert_eq!(children(&tree, "main"), Some(names(&["b"])));
}

#[test]
fn remove_child_drops_a_parent_without_children() {
    let mut tree = tree_of(&[("main", "a"), ("dev", "x")]);
    tree.remove_child("main", "a");
    assert_eq!(tree.keys(), names(&["dev"]));
    assert!(tree.get("main").is_none());
}

#[test]
fn remove_child_of_an_unknown_parent_changes_nothing() {
    let mut tree = tree_of(&[("main", "a")]);
    tree.remove_child("dev", "a");
    tree.remove_child("main", "zzz");
    assert_eq!(tree.keys(), names(&["main"]));
    assert_eq!(children(&tree, "main"), Some(names(&["a"])));
}

#[test]
fn edges_lists_entry_by_entry() {
    let tree = tree_of(&[("main", "a"), ("dev", "x"), ("main", "b")]);
    let expected: Vec<(String, String)> = vec![
        ("main".to_string(), "a".to_string()),
        ("main".to_string(), "b".to_string()),
        ("dev".to_string(), "x".to_string()),
    ];
    assert_eq!(tree.edges(), expected);
}

#[test]
fn from_edges_groups_by_parent() {
    let edges: Vec<(String, String)> = vec![
        ("main".to_string(), "a".to_string()),
        ("a".to_string(), "b".to_string()),
        ("main".to_string(), "c".to_string()),
    ];
    let tree = BranchTree::from_edges(&edges);
    assert_eq!(tree.keys(), names(&["main", "a"]));
    assert_eq!(children(&tree, "main"), Some(names(&["a", "c"])));
    assert_eq!(children(&tree, "a"), Some(names(&["b"])));
}

#[test]
fn clone_is_a_copy() {
    let tree = tree_of(&[("main", "a"), ("dev", "x")]);
    let mut copy = tree.clone();
    assert_eq!(copy.edges(), tree.edges());
    copy.add_child("main".to_string(), "b".to_string());
    assert_eq!(children(&tree, "main"), Some(names(&["a"])));
    assert_eq!(children(&copy, "main"), Some(names(&["a", "b"])));
}

#[test]
fn is_child_looks_into_every_entry() {
    let tree = tree_of(&[("main", "a"), ("a", "b")]);
    assert!(tree.is_child("a"));
    assert!(tree.is_child("b"));
    assert!(!tree.is_child("main"));
    assert!(!tree.is_child("zzz"));
}

#[test]
fn name_helpers() {
    assert!(same_name("main", "main"));
    assert!(!same_name("main", "Main"));
    assert!(!same_name("main", "main "));
    let list = names(&["a", "b", "a", "c"]);
    assert!(contains_name(&list, "c"));
    assert!(!contains_name(&list, "d"));
    assert_eq!(without_name(&list, "a"), names(&["b", "c"]));
    assert_eq!(without_name(&list, "zzz"), list);
    assert_eq!(clone_names(&list), list);
}

#[test]
fn roots_are_the_parents_that_are_no_child() {
    let tree = tree_of(&[("main", "a"), ("a", "b"), ("dev", "x")]);
    assert_eq!(find_root_branches(&tree), names(&["main", "dev"]));
}

#[test]
fn a_parent_that_is_a_child_elsewhere_is_no_root() {
    let tree = tree_of(&[("a", "b"), ("main", "a"), ("main", "c")]);
    assert_eq!(find_root_branches(&tree), names(&["main"]));
}

#[test]
fn a_cycle_has_no_root() {
    let tree = tree_of(&[("a", "b"), ("b", "a")]);
    assert_eq!(find_root_branches(&tree), Vec::<String>::new());
    let own_child = tree_of(&[("a", "a")]);
    assert_eq!(find_root_branches(&own_child), Vec::<String>::new());
}

#[test]
fn an_empty_tree_has_no_root() {
    assert_eq!(find_root_branches(&BranchTree::new()), Vec::<String>::new());
}
