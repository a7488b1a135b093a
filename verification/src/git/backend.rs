//! The version-control backend: the calls into `git2`, each behind a function
//! that hands plain values back.
//!
//! What a call returns depends on the repository on disk, so the contracts here
//! promise nothing of the values. The functions of the other modules take these
//! values as arguments and are proved for every value.
use vstd::prelude::*;

verus! {

/// `git2::Repository`: an open repository.
#[verifier::external_type_specification]
#[verifier::external_body]
pub struct ExRepository(git2::Repository);

/// `git2::Status`: the state of a file, as a set of flags.
#[verifier::external_type_specification]
#[verifier::external_body]
pub struct ExStatus(git2::Status);

/// `git2::Signature`: who makes a commit, and when.
#[verifier::external_type_specification]
#[verifier::external_body]
pub struct ExSignature<'a>(git2::Signature<'a>);

/// `git2::Index`: the index of a repository, in memory.
#[verifier::external_type_specification]
#[verifier::external_body]
pub struct ExIndex(git2::Index);

/// `git2::AnnotatedCommit`: a commit as the source of a merge.
#[verifier::external_type_specification]
#[verifier::external_body]
pub struct ExAnnotatedCommit<'a>(git2::AnnotatedCommit<'a>);

/// What the commands read of a commit.
#[derive(Debug, Clone)]
pub struct CommitInfo {
    /// The commit id, in hexadecimal.
    pub id: String,
    /// The commit time, in seconds since the epoch.
    pub time: i64,
    /// The commit message, where it is valid UTF-8.
    pub message: Option<String>,
}

/// What the commands read of `HEAD`.
#[derive(Debug, Clone)]
pub struct HeadInfo {
    /// Whether `HEAD` points to a local branch.
    pub is_branch: bool,
    /// The short name of what `HEAD` points to, where it is valid UTF-8.
    pub shorthand: Option<String>,
}

/// What the backend says of the state of a file, flag by flag.
#[derive(Debug, Clone, Copy, PartialEq, Eq, Structural)]
pub struct StatusFlags {
    pub index_new: bool,
    pub index_modified: bool,
    pub index_deleted: bool,
    pub index_renamed: bool,
    pub index_typechange: bool,
    pub wt_new: bool,
    pub wt_modified: bool,
    pub wt_deleted: bool,
    pub wt_renamed: bool,
    pub wt_typechange: bool,
    pub conflicted: bool,
}

/// What a merge would be, by the backend's analysis.
#[derive(Debug, Clone, Copy, PartialEq, Eq, Structural)]
pub struct MergeOutlook {
    /// The target holds the source already.
    pub up_to_date: bool,
    /// The target can be moved forward to the source.
    pub fast_forward: bool,
}

/// The kinds of failure of the backend that the commands tell apart.
#[derive(Debug, Clone, Copy, PartialEq, Eq, Structural)]
pub enum BackendFailure {
    /// Two changes cannot both be kept.
    Conflict,
    /// What was looked up does not exist.
    NotFound,
    /// Any other failure.
    Other,
}

/// `git2::Error::from_str`: an error of the backend's own type that carries
/// `message`.
///
/// Nothing is claimed of what comes back.
#[verifier::external_body]
pub(crate) fn git_error(message: &str) -> (e: git2::Error) {
    git2::Error::from_str(message)
}

/// `Repository::branches` with the filter for local branches, and `Branch::name`
/// on each branch that the iterator yields: the names in the iterator's order,
/// `None` for a name that is not valid UTF-8. The first failure of the iterator
/// or of a name lookup is returned.
///
/// Nothing is claimed of what comes back.
#[verifier::external_body]
pub(crate) fn local_branch_names(repo: &git2::Repository) -> (r: Result<
    Vec<Option<String>>,
    git2::Error,
>) {
    let mut names = Vec::new();
    for item in repo.branches(Some(git2::BranchType::Local))? {
        names.push(item?.0.name()?.map(String::from));
    }
    Ok(names)
}

/// `Repository::revparse_single` on `spec`, then `Object::peel_to_commit`: the
/// commit that `spec` names, with its id, time and message.
///
/// Nothing is claimed of what comes back.
#[verifier::external_body]
pub(crate) fn tip_commit(repo: &git2::Repository, spec: &str) -> (r: Result<
    CommitInfo,
    git2::Error,
>) {
    let commit = repo.revparse_single(spec)?.peel_to_commit()?;
    Ok(
        CommitInfo {
            id: commit.id().to_string(),
            time: commit.time().seconds(),
            message: commit.message().ok().map(String::from),
        },
    )
}

/// `Repository::revwalk`, sorted by time and started at the commit with the id
/// `from`: the ids of the commits that the walk yields, in its order.
///
/// Nothing is claimed of what comes back.
#[verifier::external_body]
pub(crate) fn ancestor_ids(repo: &git2::Repository, from: &str) -> (r: Result<
    Vec<String>,
    git2::Error,
>) {
    let mut walk = repo.revwalk()?;
    walk.set_sorting(git2::Sort::TIME)?;
    walk.push(git2::Oid::from_str(from)?)?;
    let mut ids = Vec::new();
    for id in walk {
        ids.push(id?.to_string());
    }
    Ok(ids)
}

/// `Repository::merge_base` of the commits with the ids `one` and `two`: the id of
/// a best common ancestor, or the backend's error where it finds none.
///
/// Nothing is claimed of what comes back.
#[verifier::external_body]
pub(crate) fn merge_base(repo: &git2::Repository, one: &str, two: &str) -> (r: Result<
    String,
    git2::Error,
>) {
    let base = repo.merge_base(git2::Oid::from_str(one)?, git2::Oid::from_str(two)?)?;
    Ok(base.to_string())
}

/// `Repository::find_branch` among the local branches: whether the lookup of
/// `name` succeeds.
///
/// Nothing is claimed of what comes back.
#[verifier::external_body]
pub(crate) fn find_local_branch(repo: &git2::Repository, name: &str) -> (r: Result<
    (),
    git2::Error,
>) {
    repo.find_branch(name, git2::BranchType::Local)?;
    Ok(())
}

/// `Repository::head`, then `Reference::is_branch` and `Reference::shorthand`.
///
/// Nothing is claimed of what comes back.
#[verifier::external_body]
pub(crate) fn read_head(repo: &git2::Repository) -> (r: Result<HeadInfo, git2::Error>) {
    let head = repo.head()?;
    Ok(HeadInfo { is_branch: head.is_branch(), shorthand: head.shorthand().ok().map(String::from) })
}

/// `Repository::revparse_single` on `spec`, then `Repository::checkout_tree` of what
/// it names, with the default options: brings the working tree and the index to
/// that revision.
///
/// Nothing is claimed of what comes back.
#[verifier::external_body]
pub(crate) fn checkout_revision(repo: &git2::Repository, spec: &str) -> (r: Result<
    (),
    git2::Error,
>) {
    let target = repo.revparse_single(spec)?;
    repo.checkout_tree(&target, None)
}

/// `Repository::set_head`: makes `HEAD` point to the reference `refname`.
///
/// Nothing is claimed of what comes back.
#[verifier::external_body]
pub(crate) fn set_head(repo: &git2::Repository, refname: &str) -> (r: Result<(), git2::Error>) {
    repo.set_head(refname)
}

/// `Repository::find_branch` of the local branch `parent`, `Reference::peel_to_commit`
/// on it, and `Repository::branch`: a new branch `name` at the tip of `parent`,
/// without force.
///
/// Nothing is claimed of what comes back.
#[verifier::external_body]
pub(crate) fn create_branch_at(repo: &git2::Repository, name: &str, parent: &str) -> (r: Result<
    (),
    git2::Error,
>) {
    let tip = repo.find_branch(parent, git2::BranchType::Local)?.get().peel_to_commit()?;
    repo.branch(name, &tip, false)?;
    Ok(())
}

/// The flag tests of `git2::Status`, one for each field.
///
/// Nothing is claimed of what comes back.
#[verifier::external_body]
pub(crate) fn status_flags(status: &git2::Status) -> (flags: StatusFlags) {
    StatusFlags {
        index_new: status.is_index_new(),
        index_modified: status.is_index_modified(),
        index_deleted: status.is_index_deleted(),
        index_renamed: status.is_index_renamed(),
        index_typechange: status.is_index_typechange(),
        wt_new: status.is_wt_new(),
        wt_modified: status.is_wt_modified(),
        wt_deleted: status.is_wt_deleted(),
        wt_renamed: status.is_wt_renamed(),
        wt_typechange: status.is_wt_typechange(),
        conflicted: status.is_conflicted(),
    }
}

/// `Repository::statuses`, without unmodified and ignored files, and with the
/// untracked ones, also inside untracked directories, where `include_untracked` is
/// set: for each entry its path, where that is valid UTF-8, and its status.
///
/// Nothing is claimed of what comes back.
#[verifier::external_body]
pub(crate) fn list_statuses(repo: &git2::Repository, include_untracked: bool) -> (r: Result<
    Vec<(Option<String>, git2::Status)>,
    git2::Error,
>) {
    let mut options = git2::StatusOptions::new();
    options.include_untracked(include_untracked).recurse_untracked_dirs(include_untracked);
    options.include_unmodified(false).include_ignored(false);
    let statuses = repo.statuses(Some(&mut options))?;
    let mut entries = Vec::new();
    for entry in statuses.iter() {
        entries.push((entry.path().ok().map(String::from), entry.status()));
    }
    Ok(entries)
}

/// `Repository::find_reference` of `refname`, then
/// `Repository::reference_to_annotated_commit`: the commit that the reference
/// names, as the source of a merge.
///
/// Nothing is claimed of what comes back.
#[verifier::external_body]
pub(crate) fn annotated_commit<'a>(repo: &'a git2::Repository, refname: &str) -> (r: Result<
    git2::AnnotatedCommit<'a>,
    git2::Error,
>) {
    repo.reference_to_annotated_commit(&repo.find_reference(refname)?)
}

/// `Repository::merge_analysis` of `theirs` against `HEAD`: what merging it would
/// be.
///
/// Nothing is claimed of what comes back.
#[verifier::external_body]
pub(crate) fn merge_analysis(repo: &git2::Repository, theirs: &git2::AnnotatedCommit) -> (r: Result<
    MergeOutlook,
    git2::Error,
>) {
    let analysis = repo.merge_analysis(&[theirs])?.0;
    Ok(
        MergeOutlook {
            up_to_date: analysis.is_up_to_date(),
            fast_forward: analysis.is_fast_forward(),
        },
    )
}

/// `Repository::find_reference` of `refname`, then `Reference::set_target`: makes
/// the reference point to the commit `theirs`, with `Fast-forward` as the entry in
/// its log.
///
/// Nothing is claimed of what comes back.
#[verifier::external_body]
pub(crate) fn move_reference(
    repo: &git2::Repository,
    refname: &str,
    theirs: &git2::AnnotatedCommit,
) -> (r: Result<(), git2::Error>) {
    repo.find_reference(refname)?.set_target(theirs.id(), "Fast-forward")?;
    Ok(())
}

/// `Repository::find_object` of the commit `theirs`, then
/// `Repository::checkout_tree` of it, with the default options.
///
/// Nothing is claimed of what comes back.
#[verifier::external_body]
pub(crate) fn checkout_commit(repo: &git2::Repository, theirs: &git2::AnnotatedCommit) -> (r:
    Result<(), git2::Error>) {
    repo.checkout_tree(&repo.find_object(theirs.id(), None)?, None)
}

/// `Repository::signature`: the author that the repository's configuration names.
///
/// Nothing is claimed of what comes back.
#[verifier::external_body]
pub(crate) fn default_signature(repo: &git2::Repository) -> (r: Result<
    git2::Signature<'static>,
    git2::Error,
>) {
    repo.signature()
}

/// `Repository::merge` of `theirs` into the working tree and the index, with
/// options that do not fail on a conflict.
///
/// Nothing is claimed of what comes back.
#[verifier::external_body]
pub(crate) fn merge_into_worktree(repo: &git2::Repository, theirs: &git2::AnnotatedCommit) -> (r:
    Result<(), git2::Error>) {
    let mut options = git2::MergeOptions::new();
    options.fail_on_conflict(false);
    repo.merge(&[theirs], Some(&mut options), None)
}

/// `Error::code`: which of the backend's kinds of failure an error is, as far as
/// the commands tell them apart.
///
/// Nothing is claimed of what comes back.
#[verifier::external_body]
pub(crate) fn failure_kind(error: &git2::Error) -> (kind: BackendFailure) {
    match error.code() {
        git2::ErrorCode::Conflict => BackendFailure::Conflict,
        git2::ErrorCode::NotFound => BackendFailure::NotFound,
        _ => BackendFailure::Other,
    }
}

/// `Index::has_conflicts`: whether the index holds a file in conflict.
///
/// Nothing is claimed of what comes back.
#[verifier::external_body]
pub(crate) fn index_has_conflicts(index: &git2::Index) -> (b: bool) {
    index.has_conflicts()
}

/// `Index::write_tree`: writes the index as a tree into the repository, and gives
/// the id of the tree.
///
/// Nothing is claimed of what comes back.
#[verifier::external_body]
pub(crate) fn write_tree(index: &mut git2::Index) -> (r: Result<String, git2::Error>) {
    Ok(index.write_tree()?.to_string())
}

/// `Repository::commit` on `HEAD`: a commit of the tree with the id `tree_id` by
/// `author`, with the commit of `HEAD` and the commit `theirs` as parents. The
/// tree and the parents are looked up with `Repository::find_tree`,
/// `Repository::head` and `Repository::find_commit`.
///
/// Nothing is claimed of what comes back.
#[verifier::external_body]
pub(crate) fn commit_merge(
    repo: &git2::Repository,
    tree_id: &str,
    author: &git2::Signature<'static>,
    theirs: &git2::AnnotatedCommit,
    message: &str,
) -> (r: Result<(), git2::Error>) {
    let tree = repo.find_tree(git2::Oid::from_str(tree_id)?)?;
    let ours = repo.head()?.peel_to_commit()?;
    let merged = repo.find_commit(theirs.id())?;
    repo.commit(Some("HEAD"), author, author, message, &tree, &[&ours, &merged])?;
    Ok(())
}

/// `Repository::cleanup_state`: ends a merge that is under way.
///
/// Nothing is claimed of what comes back.
#[verifier::external_body]
pub(crate) fn cleanup_state(repo: &git2::Repository) -> (r: Result<(), git2::Error>) {
    repo.cleanup_state()
}

/// `Repository::index`: the index of the repository, read into memory.
///
/// Nothing is claimed of what comes back.
#[verifier::external_body]
pub(crate) fn open_index(repo: &git2::Repository) -> (r: Result<git2::Index, git2::Error>) {
    repo.index()
}

/// `Index::add_path`: stages the file at `path`.
///
/// Nothing is claimed of what comes back.
#[verifier::external_body]
pub(crate) fn index_add(index: &mut git2::Index, path: &str) -> (r: Result<(), git2::Error>) {
    index.add_path(std::path::Path::new(path))
}

/// `Index::remove_path`: stages the removal of the file at `path`.
///
/// Nothing is claimed of what comes back.
#[verifier::external_body]
pub(crate) fn index_remove(index: &mut git2::Index, path: &str) -> (r: Result<(), git2::Error>) {
    index.remove_path(std::path::Path::new(path))
}

/// `Repository::commit` on `HEAD`: a commit of the tree with the id `tree_id` by
/// `author`, on top of the commit of `HEAD`. The tree and the parent are looked up
/// with `Repository::find_tree`, `Repository::head` and
/// `Reference::peel_to_commit`.
///
/// Nothing is claimed of what comes back.
#[verifier::external_body]
pub(crate) fn commit_on_head(
    repo: &git2::Repository,
    tree_id: &str,
    author: &git2::Signature<'static>,
    message: &str,
) -> (r: Result<(), git2::Error>) {
    let parent = repo.head()?.peel_to_commit()?;
    let tree = repo.find_tree(git2::Oid::from_str(tree_id)?)?;
    repo.commit(Some("HEAD"), author, author, message, &tree, &[&parent])?;
    Ok(())
}

/// `Repository::commit` on `HEAD`: a commit of the tree with the id `tree_id` by
/// `author`, without a parent. The tree is looked up with `Repository::find_tree`.
///
/// Nothing is claimed of what comes back.
#[verifier::external_body]
pub(crate) fn commit_without_parent(
    repo: &git2::Repository,
    tree_id: &str,
    author: &git2::Signature<'static>,
    message: &str,
) -> (r: Result<(), git2::Error>) {
    let tree = repo.find_tree(git2::Oid::from_str(tree_id)?)?;
    repo.commit(Some("HEAD"), author, author, message, &tree, &[])?;
    Ok(())
}

/// `Index::write`: writes the index to disk.
///
/// Nothing is claimed of what comes back.
#[verifier::external_body]
pub(crate) fn write_index(index: &mut git2::Index) -> (r: Result<(), git2::Error>) {
    index.write()
}

/// `Repository::head`, then `Reference::peel_to_commit`: the commit that `HEAD`
/// names.
///
/// Nothing is claimed of what comes back.
#[verifier::external_body]
pub(crate) fn head_commit(repo: &git2::Repository) -> (r: Result<CommitInfo, git2::Error>) {
    let commit = repo.head()?.peel_to_commit()?;
    Ok(
        CommitInfo {
            id: commit.id().to_string(),
            time: commit.time().seconds(),
            message: commit.message().ok().map(String::from),
        },
    )
}

/// `Repository::find_remote`, then `Remote::url`: the address of the remote
/// `name`, where it is valid UTF-8.
///
/// Nothing is claimed of what comes back.
#[verifier::external_body]
pub(crate) fn remote_url(repo: &git2::Repository, name: &str) -> (r: Result<
    Option<String>,
    git2::Error,
>) {
    Ok(repo.find_remote(name)?.url().ok().map(String::from))
}

} // verus!
