//! Merging one branch into another: a fast-forward where that is enough, a merge
//! commit otherwise, and a clean retreat where the two branches conflict.
use crate::error::GitFlowError;
use crate::git::backend::{
    annotated_commit, checkout_commit, cleanup_state, commit_merge, default_signature,
    index_has_conflicts, failure_kind, merge_analysis, merge_into_worktree, move_reference,
    open_index, set_head, write_tree, BackendFailure, MergeOutlook,
};
use crate::git::branch::{branch_ref_name, checkout_branch, get_current_branch};
use crate::git::status::get_repo_status;
use crate::tree::same_name;
use vstd::prelude::*;
use vstd::string::StringExecFns;

verus! {

/// What a merge has to do.
#[derive(Debug, Clone, Copy, PartialEq, Eq, Structural)]
pub enum MergePath {
    /// Nothing: the target holds the source already.
    Nothing,
    /// Move the target forward to the source.
    FastForward,
    /// Merge the source into the target and commit the result.
    Commit,
}

/// What a merge has to do, by the backend's analysis: nothing where the target is
/// up to date, whatever else the analysis says; else a fast-forward where one is
/// possible; else a merge commit.
pub open spec fn path_for(outlook: MergeOutlook) -> MergePath {
    if outlook.up_to_date {
        MergePath::Nothing
    } else if outlook.fast_forward {
        MergePath::FastForward
    } else {
        MergePath::Commit
    }
}

/// What a merge has to do, by the backend's analysis.
pub fn merge_path(outlook: MergeOutlook) -> (path: MergePath)
    ensures
        path == path_for(outlook),
{
    if outlook.up_to_date {
        MergePath::Nothing
    } else if outlook.fast_forward {
        MergePath::FastForward
    } else {
        MergePath::Commit
    }
}

/// The message of the error for a working tree that is not clean.
pub open spec fn uncommitted_message() -> Seq<char> {
    "There are uncommitted changes. Please commit or stash them first."@
}

/// The message of the error for a merge that ran into conflicts.
pub open spec fn conflict_message(from: Seq<char>, to: Seq<char>) -> Seq<char> {
    "Merge conflicts detected between "@ + from + " and "@ + to
        + ". Please resolve manually."@
}

/// The message of a merge commit.
pub open spec fn merge_message(from: Seq<char>, to: Seq<char>) -> Seq<char> {
    "Merge branch '"@ + from + "' into '"@ + to + "'"@
}

/// The message of the error for a merge that ran into conflicts.
pub fn conflict_message_for(from: &str, to: &str) -> (r: String)
    ensures
        r@ == conflict_message(from@, to@),
{
    String::from_str("Merge conflicts detected between ").concat(from).concat(" and ").concat(
        to,
    ).concat(". Please resolve manually.")
}

/// The message of a merge commit.
pub fn merge_message_for(from: &str, to: &str) -> (r: String)
    ensures
        r@ == merge_message(from@, to@),
{
    String::from_str("Merge branch '").concat(from).concat("' into '").concat(to).concat("'")
}

/// Moves the branch with the reference `to_ref` forward to the commit `theirs`, and
/// checks the commit out.
fn fast_forward(repo: &git2::Repository, theirs: &git2::AnnotatedCommit, to_ref: &str) -> (r: Result<
    (),
    GitFlowError,
>)
    ensures
        r matches Err(e) ==> e is Git,
{
    if let Err(e) = move_reference(repo, to_ref, theirs) {
        return Err(GitFlowError::Git(e));
    }
    if let Err(e) = checkout_commit(repo, theirs) {
        return Err(GitFlowError::Git(e));
    }
    match set_head(repo, to_ref) {
        Ok(()) => Ok(()),
        Err(e) => Err(GitFlowError::Git(e)),
    }
}

/// Whether a working tree in which `changes` files differ from the last commit may
/// be merged into: only one without a change. Any other is refused with the
/// `Aborted` error for uncommitted changes.
pub fn check_clean(changes: usize) -> (r: Result<(), GitFlowError>)
    ensures
        r is Ok <==> changes == 0,
        r matches Err(e) ==> (e matches GitFlowError::Aborted(message) && message@
            == uncommitted_message()),
{
    if changes == 0 {
        Ok(())
    } else {
        Err(
            GitFlowError::Aborted(
                String::from_str("There are uncommitted changes. Please commit or stash them first."),
            ),
        )
    }
}

/// Whether the merge has to go back to the branch that was checked out before it:
/// where that is another branch than the target.
pub fn goes_back(previous_branch: &str, to: &str) -> (b: bool)
    ensures
        b == (previous_branch@ != to@),
{
    !same_name(previous_branch, to)
}

/// What a merge that ran into a conflict ends with, given how the ending of the
/// merge in the repository went: the backend's failure where that failed, else the
/// `Aborted` error for the conflict between the two branches.
pub fn conflict_failure(cleaned: Result<(), git2::Error>, from: &str, to: &str) -> (e: GitFlowError)
    ensures
        match cleaned {
            Ok(_) => e matches GitFlowError::Aborted(message) && message@ == conflict_message(
                from@,
                to@,
            ),
            Err(inner) => e == GitFlowError::Git(inner),
        },
{
    match cleaned {
        Ok(()) => GitFlowError::Aborted(conflict_message_for(from, to)),
        Err(inner) => GitFlowError::Git(inner),
    }
}

/// What a failure of the backend's merge means: a conflict between the branches
/// where it is the backend's conflict error, its own failure in every other case.
pub fn is_merge_conflict(kind: BackendFailure) -> (b: bool)
    ensures
        b == (kind == BackendFailure::Conflict),
{
    kind == BackendFailure::Conflict
}

/// Goes back to the branch that was checked out before the merge, where that is
/// another branch than the target. This is done as well as the backend allows: a
/// failure of it is not a failure of the merge.
fn restore_branch(repo: &git2::Repository, previous_branch: &str, to: &str) {
    if goes_back(previous_branch, to) {
        let _ = checkout_branch(repo, previous_branch);
    }
}

/// Gives the merge up: ends it in the repository, goes back to the branch that was
/// checked out before where the ending went well, and reports as `conflict_failure`
/// says.
fn abandon_merge(repo: &git2::Repository, from: &str, to: &str, previous_branch: &str) -> (e:
    GitFlowError)
    ensures
        e is Git || (e matches GitFlowError::Aborted(msg) && msg@ == conflict_message(from@, to@)),
{
    let cleaned = cleanup_state(repo);
    if cleaned.is_ok() {
        restore_branch(repo, previous_branch, to);
    }
    conflict_failure(cleaned, from, to)
}

/// Merges the branch `from` into the branch `to`, and then goes back to the branch
/// that was checked out before, as well as the backend allows.
///
/// Nothing is merged into a working tree with uncommitted changes: `check_clean`
/// decides on the state that the backend reports, before anything is checked out.
/// What is to be done is what `merge_path` says of the backend's analysis. Where
/// the backend's merge fails with a conflict (`is_merge_conflict`), or leaves a
/// conflict in the index, the merge is given up: its state in the repository is
/// ended, no commit is made, and the result is what `conflict_failure` says. Every
/// other failure is the backend's.
pub fn merge_branch(repo: &git2::Repository, from: &str, to: &str) -> (r: Result<(), GitFlowError>)
    ensures
        r matches Err(e) ==> (e is Git || (e matches GitFlowError::Aborted(msg) && (msg@
            == uncommitted_message() || msg@ == conflict_message(from@, to@)))),
{
    let status = get_repo_status(repo, false)?;
    check_clean(status.len())?;
    let previous_branch = get_current_branch(repo)?;
    checkout_branch(repo, to)?;
    let from_ref = branch_ref_name(from);
    let theirs = match annotated_commit(repo, from_ref.as_str()) {
        Ok(theirs) => theirs,
        Err(e) => {
            return Err(GitFlowError::Git(e));
        },
    };
    let outlook = match merge_analysis(repo, &theirs) {
        Ok(outlook) => outlook,
        Err(e) => {
            return Err(GitFlowError::Git(e));
        },
    };
    match merge_path(outlook) {
        MergePath::Nothing => {},
        MergePath::FastForward => {
            let to_ref = branch_ref_name(to);
            fast_forward(repo, &theirs, to_ref.as_str())?;
        },
        MergePath::Commit => {
            let author = match default_signature(repo) {
                Ok(author) => author,
                Err(e) => {
                    return Err(GitFlowError::Git(e));
                },
            };
            if let Err(e) = merge_into_worktree(repo, &theirs) {
                if is_merge_conflict(failure_kind(&e)) {
                    return Err(abandon_merge(repo, from, to, previous_branch.as_str()));
                }
                return Err(GitFlowError::Git(e));
            }
            let mut index = match open_index(repo) {
                Ok(index) => index,
                Err(e) => {
                    return Err(GitFlowError::Git(e));
                },
            };
            if index_has_conflicts(&index) {
                return Err(abandon_merge(repo, from, to, previous_branch.as_str()));
            }
            let tree_id = match write_tree(&mut index) {
                Ok(tree_id) => tree_id,
                Err(e) => {
                    return Err(GitFlowError::Git(e));
                },
            };
            let message = merge_message_for(from, to);
            if let Err(e) = commit_merge(
                repo,
                tree_id.as_str(),
                &author,
                &theirs,
                message.as_str(),
            ) {
                return Err(GitFlowError::Git(e));
            }
            if let Err(e) = cleanup_state(repo) {
                return Err(GitFlowError::Git(e));
            }
        },
    }
    restore_branch(repo, previous_branch.as_str(), to);
    Ok(())
}

} // verus!
