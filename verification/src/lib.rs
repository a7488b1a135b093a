//! A branch-based development workflow on top of a git repository: detecting the
//! parent/child relationships among branches, merging parents into their children
//! down the detected hierarchy, and the decisions of the commands around them.
//!
//! The hierarchy is a [`tree::BranchTree`]. Four strategies detect it
//! ([`git::branch::get_branch_tree`]); [`git::branch::find_root_branches`] gives
//! its roots, and [`commands::cascade::run_cascade`] merges along it.
pub mod cli;
pub mod commands;
pub mod configuration;
pub mod error;
pub mod git;
pub mod text;
pub mod tree;
pub mod utils;
