use gitflow::commands::show::{
    annotate, effective_strategy, summaries_from, summary_for, ShownBranch,
};
use gitflow::commands::sync::{
    base_branch, existing_pr, found_pr_info, handle_sync, head_filter_for, opened_pr_info, pr_title,
    sync_question_for, sync_result, ListedPr, SyncAction, SyncEvent, SyncPhase, SyncSession,
};
use gitflow::error::GitFlowError;
use gitflow::cli::BranchDetectionStrategy;
use gitflow::configuration::{PrInfo, PrTable};
use gitflow::git::backend::{BackendFailure, MergeOutlook, StatusFlags};
use gitflow::git::branch::{branch_ref_name, BranchRelationStrategy};
use gitflow::git::commit::{stage_action, summary_of, StageAction};
use gitflow::git::merge::{
    check_clean, conflict_failure, conflict_message_for, goes_back, is_merge_conflict,
    merge_message_for, merge_path, MergePath,
};
use gitflow::git::status::{any_conflicted, status_entries_of, status_label, StatusColor};
use gitflow::tree::BranchTree;
use gitflow::utils::display::{
    branch_listing, decimal_text, format_branch_name, format_pr_link, print_branch_hierarchy,
    render_line, HierarchyLine,
};
use gitflow::utils::logger::{init_logger, LogLevel};

fn names(list: &[&str]) -> Vec<String> {
    list.iter().map(|s| s.to_string()).collect()
}

fn tree_of(list: &[(&str, &str)]) -> BranchTree {
    let mut tree = BranchTree::new();
    for (p, c) in list {
        tree.add_child(p.to_string(), c.to_string());
    }
    tree
}

fn clean() -> StatusFlags {
    StatusFlags {
        index_new: false,
        index_modified: false,
        index_deleted: false,
        index_renamed: false,
        index_typechange: false,
        wt_new: false,
        wt_modified: false,
        wt_deleted: false,
        wt_renamed: false,
        wt_typechange: false,
        conflicted: false,
    }
}

fn drawn(lines: &[HierarchyLine]) -> Vec<String> {
    lines.iter().map(|l| render_line(l, false, None, None)).collect()
}

#[test]
fn branch_labels() {
    assert_eq!(format_branch_name("main", true), "* main");
    assert_eq!(format_branch_name("main", false), "  main");
    assert_eq!(format_branch_name("", false), "  ");
}

#[test]
fn numbers_in_decimal() {
    for n in [0u64, 1, 9, 10, 11, 99, 100, 101, 4242, 1_000_000, u64::MAX] {
        assert_eq!(decimal_text(n), n.to_string());
    }
}

#[test]
fn pr_links() {
    assert_eq!(format_pr_link(42, "http://example.com/pr/42"), " [PR #42](http://example.com/pr/42)");
    assert_eq!(format_pr_link(0, ""), " [PR #0]()");
}

#[test]
fn hierarchy_is_drawn_level_by_level() {
    let tree = tree_of(&[("main", "a"), ("main", "b"), ("a", "a1"), ("dev", "x")]);
    let lines = print_branch_hierarchy(&tree, &names(&["main", "dev"]));
    assert_eq!(
        drawn(&lines),
        vec![
            "├──   main",
            "│   ├──   a",
            "│   │   └──   a1",
            "│   └──   b",
            "└──   dev",
            "    └──   x",
        ]
    );
}

#[test]
fn hierarchy_of_nothing_is_empty() {
    assert!(print_branch_hierarchy(&BranchTree::new(), &names(&[])).is_empty());
    let tree = tree_of(&[("main", "a")]);
    assert!(print_branch_hierarchy(&tree, &names(&[])).is_empty());
    assert_eq!(drawn(&print_branch_hierarchy(&BranchTree::new(), &names(&["solo"]))), vec!["└──   solo"]);
}

#[test]
fn hierarchy_with_a_cycle_ends() {
    let tree = tree_of(&[("a", "b"), ("b", "a")]);
    let lines = print_branch_hierarchy(&tree, &names(&["a"]));
    assert_eq!(drawn(&lines), vec!["└──   a", "    └──   b", "        └──   a"]);
}

#[test]
fn hierarchy_draws_a_shared_child_under_each_parent() {
    let tree = tree_of(&[("main", "a"), ("main", "b"), ("a", "s"), ("b", "s")]);
    let lines = print_branch_hierarchy(&tree, &names(&["main"]));
    assert_eq!(
        drawn(&lines),
        vec!["└──   main", "    ├──   a", "    │   └──   s", "    └──   b", "        └──   s"]
    );
}

#[test]
fn a_line_with_everything() {
    let line = HierarchyLine { prefix: "│   ".to_string(), is_last: true, branch: "feature".to_string() };
    assert_eq!(
        render_line(&line, true, Some((7, "https://x/7")), Some("Fix it")),
        "│   └── * feature [PR #7](https://x/7) \"Fix it\""
    );
    assert_eq!(render_line(&line, false, None, Some("")), "│   └──   feature \"\"");
}

#[test]
fn listing_marks_the_current_branch() {
    assert_eq!(
        branch_listing(&names(&["main", "dev"]), "dev"),
        vec!["main is not current", "dev is current"]
    );
    assert!(branch_listing(&names(&[]), "dev").is_empty());
}

#[test]
fn status_codes_and_colours() {
    let label = status_label(&StatusFlags { index_new: true, ..clean() });
    assert_eq!((label.text.as_str(), label.color), ("A  ", StatusColor::Green));
    let label = status_label(&StatusFlags { index_modified: true, ..clean() });
    assert_eq!((label.text.as_str(), label.color), ("M  ", StatusColor::Yellow));
    let label = status_label(&StatusFlags { wt_modified: true, ..clean() });
    assert_eq!((label.text.as_str(), label.color), (" M ", StatusColor::Yellow));
    let label = status_label(&StatusFlags { wt_deleted: true, ..clean() });
    assert_eq!((label.text.as_str(), label.color), (" D ", StatusColor::Red));
    let label = status_label(&StatusFlags { conflicted: true, ..clean() });
    assert_eq!((label.text.as_str(), label.color), ("  C", StatusColor::BrightRed));
    let label = status_label(&StatusFlags { wt_new: true, ..clean() });
    assert_eq!((label.text.as_str(), label.color), (" ? ", StatusColor::Plain));
    let label = status_label(&StatusFlags { index_modified: true, wt_modified: true, ..clean() });
    assert_eq!((label.text.as_str(), label.color), ("MM ", StatusColor::Plain));
    let label = status_label(&StatusFlags { index_renamed: true, wt_typechange: true, conflicted: true, ..clean() });
    assert_eq!((label.text.as_str(), label.color), ("RTC", StatusColor::Plain));
    let label = status_label(&StatusFlags { index_new: true, index_deleted: true, ..clean() });
    assert_eq!(label.text, "A  ");
    let label = status_label(&clean());
    assert_eq!((label.text.as_str(), label.color), ("   ", StatusColor::Plain));
}

#[test]
fn conflicts_among_states() {
    assert!(!any_conflicted(&vec![]));
    assert!(!any_conflicted(&vec![clean(), StatusFlags { wt_new: true, ..clean() }]));
    assert!(any_conflicted(&vec![clean(), StatusFlags { conflicted: true, ..clean() }]));
}

#[test]
fn what_committing_does_with_a_file() {
    assert_eq!(stage_action(&StatusFlags { wt_new: true, ..clean() }), StageAction::Add);
    assert_eq!(stage_action(&StatusFlags { wt_modified: true, ..clean() }), StageAction::Add);
    assert_eq!(stage_action(&StatusFlags { wt_renamed: true, ..clean() }), StageAction::Add);
    assert_eq!(stage_action(&StatusFlags { wt_typechange: true, ..clean() }), StageAction::Add);
    assert_eq!(stage_action(&StatusFlags { wt_deleted: true, ..clean() }), StageAction::Remove);
    assert_eq!(
        stage_action(&StatusFlags { wt_deleted: true, wt_modified: true, ..clean() }),
        StageAction::Add
    );
    assert_eq!(stage_action(&StatusFlags { index_new: true, ..clean() }), StageAction::Skip);
    assert_eq!(stage_action(&clean()), StageAction::Skip);
}

#[test]
fn what_a_merge_has_to_do() {
    assert_eq!(merge_path(MergeOutlook { up_to_date: true, fast_forward: false }), MergePath::Nothing);
    assert_eq!(merge_path(MergeOutlook { up_to_date: true, fast_forward: true }), MergePath::Nothing);
    assert_eq!(merge_path(MergeOutlook { up_to_date: false, fast_forward: true }), MergePath::FastForward);
    assert_eq!(merge_path(MergeOutlook { up_to_date: false, fast_forward: false }), MergePath::Commit);
}

#[test]
fn merge_messages() {
    assert_eq!(
        conflict_message_for("main", "feature"),
        "Merge conflicts detected between main and feature. Please resolve manually."
    );
    assert_eq!(merge_message_for("main", "feature"), "Merge branch 'main' into 'feature'");
    assert_eq!(branch_ref_name("feature/x"), "refs/heads/feature/x");
}

#[test]
fn summary_is_the_first_line() {
    assert_eq!(summary_of("Fix the thing\n\nLong text"), "Fix the thing");
    assert_eq!(summary_of(""), "");
}

#[test]
fn log_levels() {
    assert_eq!(init_logger(0), LogLevel::Info);
    assert_eq!(init_logger(1), LogLevel::Debug);
    assert_eq!(init_logger(2), LogLevel::Trace);
    assert_eq!(init_logger(255), LogLevel::Trace);
}

#[test]
fn strategy_of_a_command() {
    assert_eq!(
        effective_strategy(Some(BranchDetectionStrategy::Time), BranchRelationStrategy::Manual),
        BranchRelationStrategy::CreationTime
    );
    assert_eq!(effective_strategy(None, BranchRelationStrategy::Manual), BranchRelationStrategy::Manual);
}

#[test]
fn summaries_are_looked_up_by_branch() {
    let summaries = vec![
        ("main".to_string(), "first".to_string()),
        ("dev".to_string(), "second".to_string()),
        ("main".to_string(), "third".to_string()),
    ];
    assert_eq!(summary_for(&summaries, "main"), Some("first".to_string()));
    assert_eq!(summary_for(&summaries, "dev"), Some("second".to_string()));
    assert_eq!(summary_for(&summaries, "none"), None);
}

#[test]
fn lines_are_annotated() {
    let tree = tree_of(&[("main", "a")]);
    let lines = print_branch_hierarchy(&tree, &names(&["main"]));
    let mut prs = PrTable::new();
    prs.insert(
        "a".to_string(),
        PrInfo { url: "u".to_string(), number: 3, title: "t".to_string(), created_at: "c".to_string() },
    );
    let summaries = vec![("main".to_string(), "hello".to_string())];
    let shown: Vec<ShownBranch> = annotate(lines, "a", &prs, &summaries);
    assert_eq!(shown.len(), 2);
    assert_eq!(shown[0].line.branch, "main");
    assert!(!shown[0].is_current);
    assert_eq!(shown[0].pr, None);
    assert_eq!(shown[0].summary, Some("hello".to_string()));
    assert_eq!(shown[1].line.branch, "a");
    assert!(shown[1].is_current);
    assert_eq!(shown[1].pr, Some((3, "u".to_string())));
    assert_eq!(shown[1].summary, None);
}

#[test]
fn sync_of_a_clean_tree_pushes_at_once() {
    let mut s = SyncSession::new(false);
    assert_eq!(handle_sync(&mut s, SyncEvent::Begin), SyncAction::ReadStatus);
    assert_eq!(handle_sync(&mut s, SyncEvent::Status { dirty: false }), SyncAction::Push);
    assert_eq!(handle_sync(&mut s, SyncEvent::Pushed), SyncAction::FindPr);
    assert_eq!(handle_sync(&mut s, SyncEvent::PrLookup { found: true }), SyncAction::Record);
    assert_eq!(handle_sync(&mut s, SyncEvent::Recorded), SyncAction::Finish { completed: true });
    assert_eq!(s.phase, SyncPhase::Done);
}

#[test]
fn sync_commits_after_a_yes() {
    let mut s = SyncSession::new(false);
    handle_sync(&mut s, SyncEvent::Begin);
    assert_eq!(handle_sync(&mut s, SyncEvent::Status { dirty: true }), SyncAction::AskCommit);
    assert_eq!(handle_sync(&mut s, SyncEvent::Answered { yes: true }), SyncAction::AskMessage);
    assert_eq!(handle_sync(&mut s, SyncEvent::Message), SyncAction::Commit);
    assert_eq!(handle_sync(&mut s, SyncEvent::Committed), SyncAction::Push);
    assert_eq!(handle_sync(&mut s, SyncEvent::Pushed), SyncAction::FindPr);
    assert_eq!(handle_sync(&mut s, SyncEvent::PrLookup { found: false }), SyncAction::CreatePr);
    assert_eq!(handle_sync(&mut s, SyncEvent::PrCreated), SyncAction::Record);
}

#[test]
fn sync_ends_on_a_no() {
    let mut s = SyncSession::new(false);
    handle_sync(&mut s, SyncEvent::Begin);
    handle_sync(&mut s, SyncEvent::Status { dirty: true });
    assert_eq!(
        handle_sync(&mut s, SyncEvent::Answered { yes: false }),
        SyncAction::Finish { completed: false }
    );
    assert_eq!(handle_sync(&mut s, SyncEvent::Pushed), SyncAction::Finish { completed: false });
}

#[test]
fn sync_told_not_to_ask_goes_to_the_message() {
    let mut s = SyncSession::new(true);
    handle_sync(&mut s, SyncEvent::Begin);
    assert_eq!(handle_sync(&mut s, SyncEvent::Status { dirty: true }), SyncAction::AskMessage);
    // an event that is not waited for changes nothing
    assert_eq!(handle_sync(&mut s, SyncEvent::Pushed), SyncAction::AskMessage);
    assert_eq!(s.awaited_action(), SyncAction::AskMessage);
}

#[test]
fn sync_choices() {
    assert_eq!(base_branch(Some("develop"), "main"), "develop");
    assert_eq!(base_branch(None, "main"), "main");
    assert_eq!(pr_title(Some("Title"), "summary"), "Title");
    assert_eq!(pr_title(None, "summary"), "summary");
    assert_eq!(head_filter_for("owner", "feature"), "owner:feature");
}

#[test]
fn the_open_pull_request_of_a_branch_is_the_first_listed_for_it() {
    let info = |n: u64| PrInfo {
        url: String::new(),
        number: n,
        title: String::new(),
        created_at: String::new(),
    };
    let listed = vec![
        ListedPr { head_ref: "other".to_string(), info: info(1) },
        ListedPr { head_ref: "feature".to_string(), info: info(2) },
        ListedPr { head_ref: "feature".to_string(), info: info(3) },
    ];
    assert_eq!(existing_pr(&listed, "feature"), Some(1));
    assert_eq!(existing_pr(&listed, "other"), Some(0));
    assert_eq!(existing_pr(&listed, "none"), None);
    assert_eq!(existing_pr(&Vec::new(), "feature"), None);
}

#[test]
fn what_is_kept_of_an_opened_pull_request() {
    let full = opened_pr_info(
        Some("https://x/1".to_string()),
        1,
        Some("Given".to_string()),
        "Asked",
        Some("2024-05-01".to_string()),
    );
    assert_eq!(
        (full.url.as_str(), full.number, full.title.as_str(), full.created_at.as_str()),
        ("https://x/1", 1, "Given", "2024-05-01")
    );
    let bare = opened_pr_info(None, 2, None, "Asked", None);
    assert_eq!(
        (bare.url.as_str(), bare.number, bare.title.as_str(), bare.created_at.as_str()),
        ("", 2, "Asked", "Unknown")
    );
}

#[test]
fn sync_questions_and_result() {
    assert_eq!(sync_question_for(SyncAction::AskCommit), Some("Do you want to commit these changes?"));
    assert_eq!(sync_question_for(SyncAction::AskMessage), Some("Enter commit message"));
    assert_eq!(sync_question_for(SyncAction::Push), None);
    assert!(sync_result(true).is_ok());
    match sync_result(false) {
        Err(GitFlowError::Aborted(message)) => assert_eq!(message, "Sync operation cancelled"),
        other => panic!("unexpected: {:?}", other),
    }
}

#[test]
fn what_is_kept_of_a_found_pull_request() {
    let bare = found_pr_info(None, 5, None, None);
    assert_eq!(
        (bare.url.as_str(), bare.number, bare.title.as_str(), bare.created_at.as_str()),
        ("", 5, "Unknown", "Unknown")
    );
    let full = found_pr_info(Some("u".to_string()), 6, Some("t".to_string()), Some("c".to_string()));
    assert_eq!(
        (full.url.as_str(), full.number, full.title.as_str(), full.created_at.as_str()),
        ("u", 6, "t", "c")
    );
}

#[test]
fn summaries_from_the_messages_that_were_read() {
    let tree = tree_of(&[("main", "a"), ("dev", "x"), ("old", "y")]);
    let read = vec![
        Some("Initial commit\n\nbody".to_string()),
        None,
        Some("Fix\r\nmore".to_string()),
    ];
    assert_eq!(
        summaries_from(&tree, &read),
        vec![
            ("main".to_string(), "Initial commit".to_string()),
            ("old".to_string(), "Fix".to_string()),
        ]
    );
    // a list that is too short leaves the last parents without a summary
    assert_eq!(
        summaries_from(&tree, &vec![Some("one".to_string())]),
        vec![("main".to_string(), "one".to_string())]
    );
    assert!(summaries_from(&tree, &Vec::new()).is_empty());
    assert!(summaries_from(&BranchTree::new(), &read).is_empty());
}

#[test]
fn only_a_clean_working_tree_is_merged_into() {
    assert!(check_clean(0).is_ok());
    for changes in [1usize, 2, 100, usize::MAX] {
        match check_clean(changes) {
            Err(GitFlowError::Aborted(message)) => assert_eq!(
                message,
                "There are uncommitted changes. Please commit or stash them first."
            ),
            other => panic!("unexpected: {:?}", other),
        }
    }
}

#[test]
fn a_conflict_ends_in_the_conflict_error() {
    match conflict_failure(Ok(()), "main", "feature") {
        GitFlowError::Aborted(message) => assert_eq!(
            message,
            "Merge conflicts detected between main and feature. Please resolve manually."
        ),
        other => panic!("unexpected: {:?}", other),
    }
    match conflict_failure(Err(git2::Error::from_str("cannot clean up")), "main", "feature") {
        GitFlowError::Git(inner) => assert_eq!(inner.message(), "cannot clean up"),
        other => panic!("unexpected: {:?}", other),
    }
}

#[test]
fn which_failures_of_a_merge_are_conflicts() {
    assert!(is_merge_conflict(BackendFailure::Conflict));
    assert!(!is_merge_conflict(BackendFailure::NotFound));
    assert!(!is_merge_conflict(BackendFailure::Other));
}

#[test]
fn a_merge_goes_back_to_another_branch_only() {
    assert!(goes_back("main", "feature"));
    assert!(!goes_back("feature", "feature"));
    assert!(goes_back("", "feature"));
}

#[test]
fn status_entries_want_every_path() {
    let listed = vec![
        (Some("a.txt".to_string()), git2::Status::WT_NEW),
        (Some("b.txt".to_string()), git2::Status::INDEX_MODIFIED),
    ];
    let entries = status_entries_of(&listed).unwrap();
    assert_eq!(entries.len(), 2);
    assert_eq!(entries[0].path, "a.txt");
    assert_eq!(entries[0].status, git2::Status::WT_NEW);
    assert_eq!(entries[1].path, "b.txt");
    assert_eq!(entries[1].status, git2::Status::INDEX_MODIFIED);
    let unreadable = vec![(Some("a.txt".to_string()), git2::Status::WT_NEW), (None, git2::Status::WT_NEW)];
    assert!(matches!(status_entries_of(&unreadable), Err(GitFlowError::Git(_))));
    assert!(status_entries_of(&Vec::new()).unwrap().is_empty());
}
