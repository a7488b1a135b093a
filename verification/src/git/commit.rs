//! Committing what changed in the working tree, and reading the last commit.
use crate::error::GitFlowError;
use crate::git::backend::{
    commit_on_head, commit_without_parent, default_signature, git_error, head_commit, index_add,
    index_remove, list_statuses, open_index, read_head, status_flags, write_index, write_tree,
    CommitInfo, StatusFlags,
};
use crate::text::{first_line, first_line_of};
use vstd::prelude::*;

verus! {

/// What committing does with a file.
#[derive(Debug, Clone, Copy, PartialEq, Eq, Structural)]
pub enum StageAction {
    /// Stage the file as it is in the working tree.
    Add,
    /// Stage the removal of the file.
    Remove,
    /// Leave the index as it is.
    Skip,
}

/// What committing does with a file in the state `f`: a file that is new, modified,
/// renamed or of another type in the working tree is added; else one that is
/// deleted there is removed; any other is left alone.
pub open spec fn action_for(f: StatusFlags) -> StageAction {
    if f.wt_new || f.wt_modified || f.wt_renamed || f.wt_typechange {
        StageAction::Add
    } else if f.wt_deleted {
        StageAction::Remove
    } else {
        StageAction::Skip
    }
}

/// What committing does with a file in the state `flags`.
pub fn stage_action(flags: &StatusFlags) -> (action: StageAction)
    ensures
        action == action_for(*flags),
{
    if flags.wt_new || flags.wt_modified || flags.wt_renamed || flags.wt_typechange {
        StageAction::Add
    } else if flags.wt_deleted {
        StageAction::Remove
    } else {
        StageAction::Skip
    }
}

/// Commits every change of the working tree, untracked files included, with
/// `message`. A file whose path cannot be read is left out. The commit goes on top
/// of the commit that is checked out; where the backend cannot read `HEAD`, as in a
/// repository without a commit, it has no parent.
pub fn commit_changes(repo: &git2::Repository, message: &str) -> (r: Result<(), GitFlowError>)
    ensures
        r matches Err(e) ==> e is Git,
{
    let mut index = match open_index(repo) {
        Ok(index) => index,
        Err(e) => {
            return Err(GitFlowError::Git(e));
        },
    };
    let listed = match list_statuses(repo, true) {
        Ok(listed) => listed,
        Err(e) => {
            return Err(GitFlowError::Git(e));
        },
    };
    let mut i: usize = 0;
    while i < listed.len()
        invariant
            i <= listed.len(),
        decreases listed.len() - i,
    {
        if let Some(path) = &listed[i].0 {
            let flags = status_flags(&listed[i].1);
            let staged = match stage_action(&flags) {
                StageAction::Add => index_add(&mut index, path.as_str()),
                StageAction::Remove => index_remove(&mut index, path.as_str()),
                StageAction::Skip => Ok(()),
            };
            if let Err(e) = staged {
                return Err(GitFlowError::Git(e));
            }
        }
        i += 1;
    }
    let tree_id = match write_tree(&mut index) {
        Ok(tree_id) => tree_id,
        Err(e) => {
            return Err(GitFlowError::Git(e));
        },
    };
    let author = match default_signature(repo) {
        Ok(author) => author,
        Err(e) => {
            return Err(GitFlowError::Git(e));
        },
    };
    let committed = if read_head(repo).is_ok() {
        commit_on_head(repo, tree_id.as_str(), &author, message)
    } else {
        commit_without_parent(repo, tree_id.as_str(), &author, message)
    };
    if let Err(e) = committed {
        return Err(GitFlowError::Git(e));
    }
    match write_index(&mut index) {
        Ok(()) => Ok(()),
        Err(e) => Err(GitFlowError::Git(e)),
    }
}

/// The message of a commit, where it can be read.
pub fn message_of(commit: &CommitInfo) -> (r: Result<String, GitFlowError>)
    ensures
        match r {
            Ok(message) => commit.message matches Some(text) && message@ == text@,
            Err(e) => e is Git && commit.message is None,
        },
{
    match &commit.message {
        Some(text) => Ok(text.clone()),
        None => Err(GitFlowError::Git(git_error("Invalid commit message"))),
    }
}

/// The message of the commit that is checked out.
pub fn get_last_commit_message(repo: &git2::Repository) -> (r: Result<String, GitFlowError>)
    ensures
        r matches Err(e) ==> e is Git,
{
    match head_commit(repo) {
        Ok(commit) => message_of(&commit),
        Err(e) => Err(GitFlowError::Git(e)),
    }
}

/// The summary of a commit message: its first line.
pub fn summary_of(message: &str) -> (r: String)
    ensures
        r@ == first_line(message@),
{
    first_line_of(message)
}

/// The first line of the message of the commit that is checked out.
pub fn get_last_commit_summary(repo: &git2::Repository) -> (r: Result<String, GitFlowError>)
    ensures
        r matches Err(e) ==> e is Git,
        r matches Ok(summary) ==> exists|message: Seq<char>| summary@ == #[trigger] first_line(message),
{
    let message = get_last_commit_message(repo)?;
    let summary = summary_of(message.as_str());
    assert(summary@ == first_line(message@));
    Ok(summary)
}

} // verus!
