//! The command line as plain data: what the user asked for, after parsing.
use crate::git::branch::BranchRelationStrategy;
use vstd::prelude::*;

verus! {

/// A detection strategy by the name it has on the command line.
#[derive(Debug, Clone, Copy, PartialEq, Eq, Structural)]
pub enum BranchDetectionStrategy {
    /// Use commit history to determine relationships.
    History,
    /// Use branch creation timestamps.
    Time,
    /// Consider the default branch as parent of all others.
    Default,
    /// Use explicit configuration.
    Manual,
}

/// The strategy that a command-line name stands for.
pub open spec fn strategy_named(strategy: BranchDetectionStrategy) -> BranchRelationStrategy {
    match strategy {
        BranchDetectionStrategy::History => BranchRelationStrategy::CommitHistory,
        BranchDetectionStrategy::Time => BranchRelationStrategy::CreationTime,
        BranchDetectionStrategy::Default => BranchRelationStrategy::DefaultRoot,
        BranchDetectionStrategy::Manual => BranchRelationStrategy::Manual,
    }
}

impl From<BranchDetectionStrategy> for BranchRelationStrategy {
    fn from(strategy: BranchDetectionStrategy) -> (r: Self) {
        match strategy {
            BranchDetectionStrategy::History => BranchRelationStrategy::CommitHistory,
            BranchDetectionStrategy::Time => BranchRelationStrategy::CreationTime,
            BranchDetectionStrategy::Default => BranchRelationStrategy::DefaultRoot,
            BranchDetectionStrategy::Manual => BranchRelationStrategy::Manual,
        }
    }
}

impl vstd::std_specs::convert::FromSpecImpl<BranchDetectionStrategy> for BranchRelationStrategy {
    open spec fn obeys_from_spec() -> bool {
        true
    }

    open spec fn from_spec(strategy: BranchDetectionStrategy) -> Self {
        strategy_named(strategy)
    }
}

/// The subcommands.
#[derive(Debug)]
pub enum Commands {
    /// Create a new branch based on the current branch or on a given parent.
    Create { name: String, parent: Option<String> },
    /// Merge parent branches into child branches, down the hierarchy.
    Cascade { yes: bool, strategy: Option<BranchDetectionStrategy> },
    /// Push the current branch and open a pull request for it.
    Sync { title: Option<String>, yes: bool, base: Option<String> },
    /// Show the branch hierarchy.
    Show { strategy: Option<BranchDetectionStrategy> },
    /// Read or change the settings.
    Config {
        default_base: Option<String>,
        detection_strategy: Option<BranchDetectionStrategy>,
        add_relationship: Option<String>,
        remove_relationship: Option<String>,
    },
}

/// A parsed command line.
#[derive(Debug)]
pub struct Cli {
    /// How many times the verbosity flag was given.
    pub verbose: u8,
    /// The subcommand.
    pub command: Commands,
}

} // verus!
