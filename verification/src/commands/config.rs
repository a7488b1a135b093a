//! The config command: changes to the settings, and the request to show them.
use crate::cli::{strategy_named, BranchDetectionStrategy};
use crate::configuration::Config;
use crate::error::GitFlowError;
use crate::git::branch::BranchRelationStrategy;
use crate::text::{split_in_two, split_once_only, trim, trimmed};
use crate::tree::{with_child, without_child, Name, TreeModel};
use vstd::prelude::*;
use vstd::string::StringExecFns;

verus! {

/// What the config command did.
#[derive(Debug, Clone, Copy, PartialEq, Eq, Structural)]
pub enum ConfigOutcome {
    /// Every change that was asked for was made.
    Updated,
    /// No change was asked for: the settings are to be shown.
    ShowCurrent,
}

/// What is wrong with a relationship as the user wrote it.
#[derive(Debug, Clone, Copy, PartialEq, Eq, Structural)]
pub enum RelationProblem {
    /// It is not a parent and a child with one colon between them.
    Format,
    /// The parent or the child is empty.
    EmptyName,
}

/// The parent and the child of a relationship written as `parent:child`, each
/// without the white space around it; nothing where the text does not hold exactly
/// one colon.
pub open spec fn parse_relation(text: Seq<char>) -> Option<(Name, Name)> {
    match split_once_only(text, ':') {
        Some((parent, child)) => Some((trimmed(parent), trimmed(child))),
        None => None,
    }
}

/// The parent and the child of a relationship written as `parent:child`.
pub fn parse_relationship(text: &str) -> (r: Option<(String, String)>)
    ensures
        match r {
            Some((parent, child)) => parse_relation(text@) == Some((parent@, child@)),
            None => parse_relation(text@) is None,
        },
{
    match split_in_two(text, ':') {
        Some((parent, child)) => Some((trim(parent.as_str()), trim(child.as_str()))),
        None => None,
    }
}

/// The text of an argument, where it was given.
pub open spec fn text_of(arg: Option<&str>) -> Option<Seq<char>> {
    match arg {
        Some(text) => Some(text@),
        None => None,
    }
}

/// What is wrong with the relationship to add, if anything.
pub open spec fn addition_problem(add: Option<Seq<char>>) -> Option<RelationProblem> {
    match add {
        Some(text) => match parse_relation(text) {
            Some((parent, child)) => if parent.len() == 0 || child.len() == 0 {
                Some(RelationProblem::EmptyName)
            } else {
                None
            },
            None => Some(RelationProblem::Format),
        },
        None => None,
    }
}

/// What is wrong with the arguments, if anything: with the relationship to add, or
/// else with the one to remove.
pub open spec fn relation_problem(add: Option<Seq<char>>, remove: Option<Seq<char>>) -> Option<
    RelationProblem,
> {
    match addition_problem(add) {
        Some(problem) => Some(problem),
        None => match remove {
            Some(text) => if parse_relation(text) is None {
                Some(RelationProblem::Format)
            } else {
                None
            },
            None => None,
        },
    }
}

/// The relationships after the command: with the one to add, where it is sound,
/// and then without the one to remove, where that is sound too. An unsound
/// addition leaves the relationships as they were.
pub open spec fn relationships_after(
    before: TreeModel,
    add: Option<Seq<char>>,
    remove: Option<Seq<char>>,
) -> TreeModel {
    if addition_problem(add) is Some {
        before
    } else {
        let added = match add {
            Some(text) => match parse_relation(text) {
                Some((parent, child)) => with_child(before, parent, child),
                None => before,
            },
            None => before,
        };
        match remove {
            Some(text) => match parse_relation(text) {
                Some((parent, child)) => without_child(added, parent, child),
                None => added,
            },
            None => added,
        }
    }
}

/// Whether the command changes the settings, and so whether they are to be written
/// afterwards: a default base branch or a strategy was given, or a sound
/// relationship to add, or a sound relationship to remove that the command came
/// to. A command that fails before its first change writes nothing.
pub open spec fn changes_settings(
    base_given: bool,
    strategy_given: bool,
    add: Option<Seq<char>>,
    remove: Option<Seq<char>>,
) -> bool {
    ||| base_given
    ||| strategy_given
    ||| (add is Some && addition_problem(add) is None)
    ||| (remove is Some && relation_problem(add, remove) is None)
}

/// Whether the settings are to be written after the command with these arguments.
pub fn writes_settings(
    default_base: Option<&str>,
    detection_strategy: Option<BranchDetectionStrategy>,
    add_relationship: Option<&str>,
    remove_relationship: Option<&str>,
) -> (b: bool)
    ensures
        b == changes_settings(
            default_base is Some,
            detection_strategy is Some,
            text_of(add_relationship),
            text_of(remove_relationship),
        ),
{
    if default_base.is_some() || detection_strategy.is_some() {
        return true;
    }
    let add_sound = match add_relationship {
        Some(relation) => match parse_relationship(relation) {
            Some((parent, child)) => !parent.as_str().is_empty() && !child.as_str().is_empty(),
            None => false,
        },
        None => true,
    };
    if add_relationship.is_some() && add_sound {
        return true;
    }
    match remove_relationship {
        Some(relation) => add_sound && parse_relationship(relation).is_some(),
        None => false,
    }
}

/// The message of the error for a problem.
pub open spec fn problem_message(problem: RelationProblem) -> Seq<char> {
    match problem {
        RelationProblem::Format => "Relationship must be in format 'parent:child'"@,
        RelationProblem::EmptyName => "Parent and child branch names cannot be empty"@,
    }
}

/// The config command on the settings in memory: makes the changes that the
/// arguments ask for, in the order default base branch, detection strategy,
/// relationship to add, relationship to remove.
///
/// A relationship is written as `parent:child`. One that is written otherwise, or
/// an addition with an empty name, ends the command with a `Config` error; the
/// changes made before it stay. Without any argument nothing changes, and the
/// caller is told to show the settings.
pub fn handle_config(
    config: &mut Config,
    default_base: Option<&str>,
    detection_strategy: Option<BranchDetectionStrategy>,
    add_relationship: Option<&str>,
    remove_relationship: Option<&str>,
) -> (r: Result<ConfigOutcome, GitFlowError>)
    ensures
        final(config).prs == old(config).prs,
        final(config).default_base_branch@ == match default_base {
            Some(base) => base@,
            None => old(config).default_base_branch@,
        },
        final(config).branch_detection_strategy == match detection_strategy {
            Some(named) => strategy_named(named),
            None => old(config).branch_detection_strategy,
        },
        final(config).branch_relationships@ == relationships_after(
            old(config).branch_relationships@,
            text_of(add_relationship),
            text_of(remove_relationship),
        ),
        match r {
            Ok(outcome) => relation_problem(text_of(add_relationship), text_of(remove_relationship))
                is None && (outcome == ConfigOutcome::ShowCurrent <==> (default_base is None
                && detection_strategy is None && add_relationship is None
                && remove_relationship is None)),
            Err(e) => e matches GitFlowError::Config(message) && relation_problem(
                text_of(add_relationship),
                text_of(remove_relationship),
            ) matches Some(problem) && message@ == problem_message(problem),
        },
{
    if let Some(base) = default_base {
        config.set_default_base_branch(String::from_str(base));
    }
    if let Some(named) = detection_strategy {
        config.set_branch_detection_strategy(BranchRelationStrategy::from(named));
    }
    if let Some(relation) = add_relationship {
        match parse_relationship(relation) {
            Some((parent, child)) => {
                if parent.as_str().is_empty() || child.as_str().is_empty() {
                    return Err(
                        GitFlowError::Config(
                            String::from_str("Parent and child branch names cannot be empty"),
                        ),
                    );
                }
                config.add_branch_relationship(parent, child);
            },
            None => {
                return Err(
                    GitFlowError::Config(
                        String::from_str("Relationship must be in format 'parent:child'"),
                    ),
                );
            },
        }
    }
    if let Some(relation) = remove_relationship {
        match parse_relationship(relation) {
            Some((parent, child)) => {
                config.remove_branch_relationship(parent.as_str(), child.as_str());
            },
            None => {
                return Err(
                    GitFlowError::Config(
                        String::from_str("Relationship must be in format 'parent:child'"),
                    ),
                );
            },
        }
    }
    if default_base.is_none() && detection_strategy.is_none() && add_relationship.is_none()
        && remove_relationship.is_none() {
        Ok(ConfigOutcome::ShowCurrent)
    } else {
        Ok(ConfigOutcome::Updated)
    }
}

} // verus!
