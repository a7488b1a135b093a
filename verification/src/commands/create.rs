//! The create command: a new branch on top of another.
use crate::error::GitFlowError;
use crate::git::branch::create_new_branch;
use vstd::prelude::*;

verus! {

/// Creates the branch `name` on top of `parent`, or of the branch that is checked
/// out where no parent is given, and checks it out.
pub fn handle_new_branch(repo: &git2::Repository, name: &str, parent: Option<&str>) -> (r: Result<
    (),
    GitFlowError,
>)
    ensures
        r matches Err(e) ==> (e is Git || (e matches GitFlowError::BranchNotFound(missing)
            && match parent {
            Some(p) => missing@ == p@,
            None => true,
        })),
{
    create_new_branch(repo, name, parent)
}

} // verus!
