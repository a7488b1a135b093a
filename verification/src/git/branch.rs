//! Branch relationships: the strategies that detect them, and the roots of a
//! hierarchy.
use crate::configuration::Config;
use crate::error::GitFlowError;
use crate::git::backend::{
    ancestor_ids, checkout_revision, create_branch_at, failure_kind, find_local_branch,
    git_error, local_branch_names, merge_base, read_head, set_head, tip_commit, BackendFailure,
    CommitInfo, HeadInfo,
};
use crate::git::history::{
    descends, descends_at, history_tree, is_direct, is_direct_at, lies_between, tree_by_history,
};
use crate::git::timeline::{creation_time_tree, is_within_window, tree_by_creation_time};
use crate::text::{join2, join3};
use crate::tree::lemma_filter_push;
use crate::tree::{
    contains_name, has_edge, has_key, is_child, key_index, other_than, same_name, tree_keys,
    without_name, BranchTree, Name, TreeModel,
};
use vstd::prelude::*;
use vstd::string::StringExecFns;

verus! {

/// How the parent/child relationships among branches are worked out.
#[derive(Debug, Clone, Copy, PartialEq, Eq, Structural)]
pub enum BranchRelationStrategy {
    /// Tip-commit ancestry between every pair of branches.
    CommitHistory,
    /// Closeness in time of the tip commits.
    CreationTime,
    /// One designated branch is the parent of all the others.
    DefaultRoot,
    /// The relationships written in the configuration.
    Manual,
}

impl Default for BranchRelationStrategy {
    fn default() -> (s: Self)
        ensures
            s == BranchRelationStrategy::CommitHistory,
    {
        BranchRelationStrategy::CommitHistory
    }
}

/// The test that a name is no child in `m`.
pub open spec fn not_a_child(m: TreeModel) -> spec_fn(Name) -> bool {
    |k: Name| !is_child(m, k)
}

/// The roots of `m`: its parents that are nobody's child, in entry order.
pub open spec fn roots_of(m: TreeModel) -> Seq<Name> {
    tree_keys(m).filter(not_a_child(m))
}

/// The root branches of a hierarchy: the parents that occur in no list of
/// children, in the order of their entries.
pub fn find_root_branches(branch_tree: &BranchTree) -> (roots: Vec<String>)
    ensures
        roots.deep_view() == roots_of(branch_tree@),
        forall|name: Name|
            roots.deep_view().contains(name) <==> (has_key(branch_tree@, name) && !is_child(
                branch_tree@,
                name,
            )),
{
    let ghost m = branch_tree@;
    let ghost keys = tree_keys(m);
    let mut roots: Vec<String> = Vec::new();
    let mut i: usize = 0;
    proof {
        reveal(Seq::filter);
        assert(keys.take(0) =~= Seq::<Name>::empty());
        assert(roots.deep_view() =~= Seq::<Name>::empty());
    }
    while i < branch_tree.len()
        invariant
            i <= branch_tree@.len(),
            m == branch_tree@,
            keys == tree_keys(m),
            roots.deep_view() == keys.take(i as int).filter(not_a_child(m)),
        decreases branch_tree@.len() - i,
    {
        let entry = branch_tree.entry(i).unwrap();
        let ghost before = roots.deep_view();
        proof {
            lemma_filter_push(keys.take(i as int), keys[i as int], not_a_child(m));
            assert(keys.take(i as int).push(keys[i as int]) =~= keys.take(i + 1));
        }
        if !branch_tree.is_child(entry.parent.as_str()) {
            roots.push(entry.parent.clone());
            assert(roots.deep_view() =~= before.push(keys[i as int]));
        }
        i += 1;
    }
    proof {
        assert(keys.take(i as int) =~= keys);
        assert forall|name: Name|
            roots.deep_view().contains(name) <==> (has_key(m, name) && !is_child(m, name)) by {
            if roots.deep_view().contains(name) {
                let r = roots.deep_view();
                let j = choose|j: int| 0 <= j < r.len() && r[j] == name;
                keys.lemma_filter_pred(not_a_child(m), j);
                keys.lemma_filter_contains_rev(not_a_child(m), name);
                let k = choose|k: int| 0 <= k < keys.len() && keys[k] == name;
                assert(m[k].0 == name);
            }
            if has_key(m, name) && !is_child(m, name) {
                let k = choose|k: int| 0 <= k < m.len() && (#[trigger] m[k]).0 == name;
                assert(keys[k] == name);
                keys.lemma_filter_contains(not_a_child(m), k);
            }
        }
    }
    roots
}

/// The hierarchy of the default-root strategy: where the default branch exists and
/// there are other branches, it is the parent of them all, in their order; in every
/// other case there is no hierarchy.
pub open spec fn default_root_tree(default_branch: Name, exists: bool, names: Seq<Name>) -> TreeModel {
    let others = names.filter(other_than(default_branch));
    if exists && others.len() > 0 {
        seq![(default_branch, others)]
    } else {
        Seq::empty()
    }
}

/// In the hierarchy of the default-root strategy the default branch is the one
/// parent, and it is not its own child.
pub proof fn lemma_default_root_tree(default_branch: Name, exists: bool, names: Seq<Name>, p: Name, c: Name)
    requires
        has_edge(default_root_tree(default_branch, exists, names), p, c),
    ensures
        exists,
        p == default_branch,
        c != default_branch,
        names.contains(c),
{
    let m = default_root_tree(default_branch, exists, names);
    let others = names.filter(other_than(default_branch));
    assert(has_key(m, p));
    let i = key_index(m, p);
    assert(m[i].1 == others);
    let k = choose|k: int| 0 <= k < others.len() && others[k] == c;
    names.lemma_filter_pred(other_than(default_branch), k);
    names.lemma_filter_contains_rev(other_than(default_branch), c);
}

/// The hierarchy of the default-root strategy, from whether the default branch
/// exists and from the names of the local branches.
pub fn tree_with_default_root(default_branch: &str, exists: bool, names: &Vec<String>) -> (t:
    BranchTree)
    ensures
        t@ == default_root_tree(default_branch@, exists, names.deep_view()),
        !exists ==> t@.len() == 0,
{
    let mut tree = BranchTree::new();
    if !exists {
        return tree;
    }
    let others = without_name(names, default_branch);
    if others.len() > 0 {
        tree.insert(String::from_str(default_branch), others);
        assert(tree@ =~= seq![(default_branch@, others.deep_view())]);
    }
    tree
}

/// The names of a listing of branches, where every name of it is readable.
pub open spec fn readable_names(found: Seq<Option<String>>) -> Option<Seq<Name>> {
    if forall|i: int| 0 <= i < found.len() ==> (#[trigger] found[i]) is Some {
        Some(Seq::new(found.len(), |i: int| found[i]->0@))
    } else {
        None
    }
}

/// The names of a listing of branches; none at all where one of them is not
/// readable, because a hierarchy over a part of the branches would mislead.
pub fn valid_names(found: &Vec<Option<String>>) -> (r: Option<Vec<String>>)
    ensures
        match r {
            Some(names) => readable_names(found@) == Some(names.deep_view()),
            None => readable_names(found@) is None,
        },
{
    let mut names: Vec<String> = Vec::new();
    let mut i: usize = 0;
    while i < found.len()
        invariant
            i <= found.len(),
            names.len() == i,
            forall|k: int| 0 <= k < i ==> (#[trigger] found[k]) is Some,
            forall|k: int| 0 <= k < i ==> names[k]@ == found[k]->0@,
        decreases found.len() - i,
    {
        match &found[i] {
            Some(name) => {
                names.push(name.clone());
            },
            None => {
                return None;
            },
        }
        i += 1;
    }
    assert(names.deep_view() =~= Seq::new(found@.len(), |i: int| found@[i]->0@));
    Some(names)
}

/// The branch names of a listing: all of them, or a failure of the backend's kind
/// where one of them cannot be read. No branch is passed over.
pub fn branch_names_of(found: &Vec<Option<String>>) -> (r: Result<Vec<String>, GitFlowError>)
    ensures
        match readable_names(found@) {
            Some(names) => r matches Ok(listed) && listed.deep_view() == names,
            None => r matches Err(e) && e is Git,
        },
{
    match valid_names(found) {
        Some(names) => Ok(names),
        None => Err(GitFlowError::Git(git_error("Invalid UTF-8 in branch name"))),
    }
}

/// The names of the local branches. Fails where the backend fails, and where a
/// branch has a name that is not valid UTF-8: the result is what `branch_names_of`
/// makes of the backend's listing.
pub fn list_branches(repo: &git2::Repository) -> (r: Result<Vec<String>, GitFlowError>)
    ensures
        r matches Err(e) ==> e is Git,
{
    match local_branch_names(repo) {
        Ok(found) => branch_names_of(&found),
        Err(e) => Err(GitFlowError::Git(e)),
    }
}

/// The latest commit of a branch.
pub fn get_branch_commit(repo: &git2::Repository, branch_name: &str) -> (r: Result<
    CommitInfo,
    GitFlowError,
>)
    ensures
        r matches Err(e) ==> e is Git,
{
    match tip_commit(repo, branch_name) {
        Ok(commit) => Ok(commit),
        Err(e) => Err(GitFlowError::Git(e)),
    }
}

/// Whether a walk back from a commit, given by the ids it met, shows the commit
/// with the id `ancestor` to be an ancestor of the commit with the id `commit`. A
/// commit is not its own descendant, whatever the walk met.
pub open spec fn descends_by_walk(walk: Seq<Name>, commit: Name, ancestor: Name) -> bool {
    commit != ancestor && walk.contains(ancestor)
}

/// Whether the walk back from `commit` met `ancestor`, which is another commit.
pub fn met_on_walk(walk: &Vec<String>, commit: &str, ancestor: &str) -> (b: bool)
    ensures
        b == descends_by_walk(walk.deep_view(), commit@, ancestor@),
{
    if same_name(commit, ancestor) {
        false
    } else {
        contains_name(walk, ancestor)
    }
}

/// Whether `commit` descends from `potential_ancestor`: whether the walk back from
/// `commit` meets it. A commit does not descend from itself, and for that answer
/// the repository is not read.
pub fn is_descendant_of(
    repo: &git2::Repository,
    commit: &CommitInfo,
    potential_ancestor: &CommitInfo,
) -> (r: Result<bool, GitFlowError>)
    ensures
        commit.id@ == potential_ancestor.id@ ==> (r matches Ok(b) && !b),
        r matches Err(e) ==> e is Git,
{
    if same_name(commit.id.as_str(), potential_ancestor.id.as_str()) {
        return Ok(false);
    }
    match ancestor_ids(repo, commit.id.as_str()) {
        Ok(walk) => Ok(met_on_walk(&walk, commit.id.as_str(), potential_ancestor.id.as_str())),
        Err(e) => Err(GitFlowError::Git(e)),
    }
}

/// A table has a row for each of `n` branches, and in each row a cell for each.
pub open spec fn is_square(table: Seq<Seq<bool>>, n: int) -> bool {
    table.len() == n && forall|i: int| 0 <= i < n ==> (#[trigger] table[i]).len() == n
}

/// The tip of each branch of `names`, as a commit id.
fn tips_of(repo: &git2::Repository, names: &Vec<String>) -> (r: Result<Vec<String>, GitFlowError>)
    ensures
        r matches Ok(tips) ==> tips.len() == names.len(),
        r matches Err(e) ==> e is Git,
{
    let mut tips: Vec<String> = Vec::new();
    let mut i: usize = 0;
    while i < names.len()
        invariant
            i <= names.len(),
            tips.len() == i,
        decreases names.len() - i,
    {
        match tip_commit(repo, names[i].as_str()) {
            Ok(commit) => {
                tips.push(commit.id);
            },
            Err(e) => {
                return Err(GitFlowError::Git(e));
            },
        }
        i += 1;
    }
    Ok(tips)
}

/// The ancestry among the commits `tips`: row by row, whether the row's commit
/// descends from each of the others. One walk is made for each row.
fn ancestry_table(repo: &git2::Repository, tips: &Vec<String>) -> (r: Result<
    Vec<Vec<bool>>,
    GitFlowError,
>)
    ensures
        r matches Ok(table) ==> is_square(table.deep_view(), tips.len() as int) && forall|i: int|
            0 <= i < tips.len() ==> !descends(table.deep_view(), i, i),
        r matches Err(e) ==> e is Git,
{
    let n = tips.len();
    let mut table: Vec<Vec<bool>> = Vec::new();
    let mut c: usize = 0;
    while c < n
        invariant
            c <= n,
            n == tips.len(),
            table.len() == c,
            forall|i: int| 0 <= i < c ==> (#[trigger] table[i]).len() == n,
            forall|i: int| 0 <= i < c ==> !(#[trigger] table[i])[i],
        decreases n - c,
    {
        let walk = match ancestor_ids(repo, tips[c].as_str()) {
            Ok(walk) => walk,
            Err(e) => {
                return Err(GitFlowError::Git(e));
            },
        };
        let mut row: Vec<bool> = Vec::new();
        let mut p: usize = 0;
        while p < n
            invariant
                p <= n,
                c < n,
                n == tips.len(),
                row.len() == p,
                p > c ==> !row[c as int],
            decreases n - p,
        {
            row.push(met_on_walk(&walk, tips[c].as_str(), tips[p].as_str()));
            p += 1;
        }
        table.push(row);
        c += 1;
    }
    proof {
        assert forall|i: int| 0 <= i < n implies (#[trigger] table.deep_view()[i]).len() == n by {
            assert(table.deep_view()[i] == table[i].deep_view());
        }
        assert forall|i: int| 0 <= i < n implies !descends(table.deep_view(), i, i) by {
            assert(table.deep_view()[i] == table[i].deep_view());
            assert(table[i].deep_view()[i] == table[i][i]);
        }
    }
    Ok(table)
}

/// The hierarchy by commit ancestry: the names of the local branches, the tip of
/// each, the ancestry among the tips, and from these the direct edges. The history
/// is walked once from the tip of each branch, and each walk is searched for the
/// tip of every branch: the cost grows with the square of the number of branches
/// times the length of the history.
pub fn get_branch_tree_by_history(repo: &git2::Repository) -> (r: Result<BranchTree, GitFlowError>)
    ensures
        r matches Ok(t) ==> exists|names: Seq<Name>, d: Seq<Seq<bool>>|
            t@ == #[trigger] history_tree(names, d),
        r matches Err(e) ==> e is Git,
{
    let names = list_branches(repo)?;
    let tips = tips_of(repo, &names)?;
    let table = ancestry_table(repo, &tips)?;
    let tree = tree_by_history(&names, &table);
    assert(tree@ == history_tree(names.deep_view(), table.deep_view()));
    Ok(tree)
}

/// Whether the commits `a` and `b` of `tips` share history: one descends from the
/// other by the table `ancestry`, or the backend finds a common ancestor of the
/// two.
fn are_branches_related(
    repo: &git2::Repository,
    tips: &Vec<String>,
    ancestry: &Vec<Vec<bool>>,
    a: usize,
    b: usize,
) -> (related: bool)
    requires
        a < tips.len(),
        b < tips.len(),
    ensures
        (descends(ancestry.deep_view(), a as int, b as int) || descends(
            ancestry.deep_view(),
            b as int,
            a as int,
        )) ==> related,
{
    descends_at(ancestry, a, b) || descends_at(ancestry, b, a) || merge_base(
        repo,
        tips[a].as_str(),
        tips[b].as_str(),
    ).is_ok()
}

/// Which branches share history, for every pair that the creation-time strategy
/// may ask about: the second branch is no older than the first, and less than the
/// window younger. For every other pair the table says no, and the backend is not
/// asked.
fn relatedness_table(
    repo: &git2::Repository,
    ages: &Vec<(String, i64)>,
    tips: &Vec<String>,
    ancestry: &Vec<Vec<bool>>,
) -> (r: Vec<Vec<bool>>)
    requires
        tips.len() == ages.len(),
    ensures
        is_square(r.deep_view(), tips.len() as int),
{
    let n = tips.len();
    let mut table: Vec<Vec<bool>> = Vec::new();
    let mut a: usize = 0;
    while a < n
        invariant
            a <= n,
            n == tips.len(),
            n == ages.len(),
            table.len() == a,
            forall|i: int| 0 <= i < a ==> (#[trigger] table[i]).len() == n,
        decreases n - a,
    {
        let mut row: Vec<bool> = Vec::new();
        let mut b: usize = 0;
        while b < n
            invariant
                b <= n,
                a < n,
                n == tips.len(),
                n == ages.len(),
                row.len() == b,
            decreases n - b,
        {
            let related = ages[a].1 <= ages[b].1 && is_within_window(ages, a, b)
                && are_branches_related(
                repo,
                tips,
                ancestry,
                a,
                b,
            );
            row.push(related);
            b += 1;
        }
        table.push(row);
        a += 1;
    }
    proof {
        assert forall|i: int| 0 <= i < n implies (#[trigger] table.deep_view()[i]).len() == n by {
            assert(table.deep_view()[i] == table[i].deep_view());
        }
    }
    table
}

/// The hierarchy by creation time: the local branches, each with the time of its
/// tip, which of them share history, and from these the nearest related older
/// branch of each. A branch whose tip cannot be read fails the detection: no
/// hierarchy over a part of the branches is given.
pub fn get_branch_tree_by_creation_time(repo: &git2::Repository) -> (r: Result<
    BranchTree,
    GitFlowError,
>)
    ensures
        r matches Ok(t) ==> exists|ages: Seq<(Seq<char>, i64)>, related: Seq<Seq<bool>>|
            t@ == #[trigger] creation_time_tree(ages, related),
        r matches Err(e) ==> e is Git,
{
    let names = list_branches(repo)?;
    let mut ages: Vec<(String, i64)> = Vec::new();
    let mut tips: Vec<String> = Vec::new();
    let mut i: usize = 0;
    while i < names.len()
        invariant
            i <= names.len(),
            tips.len() == ages.len(),
        decreases names.len() - i,
    {
        match tip_commit(repo, names[i].as_str()) {
            Ok(commit) => {
                ages.push((names[i].clone(), commit.time));
                tips.push(commit.id);
            },
            Err(e) => {
                return Err(GitFlowError::Git(e));
            },
        }
        i += 1;
    }
    let ancestry = ancestry_table(repo, &tips)?;
    let related = relatedness_table(repo, &ages, &tips, &ancestry);
    let tree = tree_by_creation_time(&ages, &related);
    assert(tree@ == creation_time_tree(ages.deep_view(), related.deep_view()));
    Ok(tree)
}

/// What the lookup of a branch says of its existence: it exists where the lookup
/// succeeds, it does not where the backend says that there is no such branch, and
/// any other failure leaves the question open.
pub fn branch_exists(failure: Option<BackendFailure>) -> (r: Option<bool>)
    ensures
        r == match failure {
            None => Some(true),
            Some(BackendFailure::NotFound) => Some(false),
            Some(_) => None::<bool>,
        },
{
    match failure {
        None => Some(true),
        Some(BackendFailure::NotFound) => Some(false),
        Some(_) => None,
    }
}

/// The hierarchy with the default branch as the root of all others. Where the
/// default branch does not exist there is no hierarchy, and no failure either; any
/// other failure of the lookup of the default branch is the backend's. What the
/// lookup means is what `branch_exists` says.
pub fn get_branch_tree_with_default_root(repo: &git2::Repository, default_branch: &str) -> (r:
    Result<BranchTree, GitFlowError>)
    ensures
        r matches Ok(t) ==> exists|exists_: bool, names: Seq<Name>|
            t@ == #[trigger] default_root_tree(default_branch@, exists_, names),
        r matches Err(e) ==> e is Git,
{
    if let Err(e) = find_local_branch(repo, default_branch) {
        match branch_exists(Some(failure_kind(&e))) {
            Some(_) => {
                let none: Vec<String> = Vec::new();
                let tree = tree_with_default_root(default_branch, false, &none);
                assert(tree@ == default_root_tree(default_branch@, false, none.deep_view()));
                return Ok(tree);
            },
            None => {
                return Err(GitFlowError::Git(e));
            },
        }
    }
    let names = list_branches(repo)?;
    let tree = tree_with_default_root(default_branch, true, &names);
    assert(tree@ == default_root_tree(default_branch@, true, names.deep_view()));
    Ok(tree)
}

/// The hierarchy of the local branches by `strategy`. The manual strategy gives the
/// relationships of the configuration as they stand, without reading the
/// repository; the others read it, and fail only where the backend fails.
pub fn get_branch_tree(
    repo: &git2::Repository,
    strategy: BranchRelationStrategy,
    config: &Config,
) -> (r: Result<BranchTree, GitFlowError>)
    ensures
        strategy == BranchRelationStrategy::Manual ==> (r matches Ok(t) && t@
            == config.branch_relationships@),
        (strategy == BranchRelationStrategy::CommitHistory && r is Ok) ==> exists|
            names: Seq<Name>,
            d: Seq<Seq<bool>>,
        | r->Ok_0@ == #[trigger] history_tree(names, d),
        (strategy == BranchRelationStrategy::CreationTime && r is Ok) ==> exists|
            ages: Seq<(Seq<char>, i64)>,
            related: Seq<Seq<bool>>,
        | r->Ok_0@ == #[trigger] creation_time_tree(ages, related),
        (strategy == BranchRelationStrategy::DefaultRoot && r is Ok) ==> exists|
            exists_: bool,
            names: Seq<Name>,
        | r->Ok_0@ == #[trigger] default_root_tree(config.default_base_branch@, exists_, names),
        r matches Err(e) ==> e is Git,
{
    match strategy {
        BranchRelationStrategy::CommitHistory => get_branch_tree_by_history(repo),
        BranchRelationStrategy::CreationTime => get_branch_tree_by_creation_time(repo),
        BranchRelationStrategy::DefaultRoot => get_branch_tree_with_default_root(
            repo,
            config.default_base_branch.as_str(),
        ),
        BranchRelationStrategy::Manual => Ok(config.branch_relationships.clone()),
    }
}

/// The full name of the reference of a local branch.
pub open spec fn branch_ref(name: Name) -> Seq<char> {
    "refs/heads/"@ + name
}

/// The full name of the reference of the local branch `name`.
pub fn branch_ref_name(name: &str) -> (r: String)
    ensures
        r@ == branch_ref(name@),
{
    join2("refs/heads/", name)
}

/// The branch that `HEAD` is on: its short name, where `HEAD` points to a branch
/// and the name can be read; else an error of the backend's kind.
pub fn current_branch_of(head: &HeadInfo) -> (r: Result<String, GitFlowError>)
    ensures
        match r {
            Ok(name) => head.is_branch && (head.shorthand matches Some(short) && name@ == short@),
            Err(e) => e is Git && (!head.is_branch || head.shorthand is None),
        },
{
    if !head.is_branch {
        return Err(GitFlowError::Git(git_error("HEAD is not a branch (detached HEAD state)")));
    }
    match &head.shorthand {
        Some(short) => Ok(short.clone()),
        None => Err(GitFlowError::Git(git_error("Could not get branch name"))),
    }
}

/// The name of the branch that is checked out.
pub fn get_current_branch(repo: &git2::Repository) -> (r: Result<String, GitFlowError>)
    ensures
        r matches Err(e) ==> e is Git,
{
    match read_head(repo) {
        Ok(head) => current_branch_of(&head),
        Err(e) => Err(GitFlowError::Git(e)),
    }
}

/// Checks the branch `branch_name` out: the working tree and `HEAD`.
pub fn checkout_branch(repo: &git2::Repository, branch_name: &str) -> (r: Result<(), GitFlowError>)
    ensures
        r matches Err(e) ==> e is Git,
{
    let refname = branch_ref_name(branch_name);
    if let Err(e) = checkout_revision(repo, refname.as_str()) {
        return Err(GitFlowError::Git(e));
    }
    match set_head(repo, refname.as_str()) {
        Ok(()) => Ok(()),
        Err(e) => Err(GitFlowError::Git(e)),
    }
}

/// The message of the error for a branch that exists already.
pub open spec fn exists_message(name: Name) -> Seq<char> {
    "Branch '"@ + name + "' already exists"@
}

/// Refuses a name for a new branch that a branch has already: with a failure of the
/// backend's kind that says so. Any other name passes.
pub fn refuse_existing(name: &str, exists: bool) -> (r: Result<(), GitFlowError>)
    ensures
        r is Ok <==> !exists,
        r matches Err(e) ==> e is Git,
{
    if exists {
        let message = join3("Branch '", name, "' already exists");
        Err(GitFlowError::Git(git_error(message.as_str())))
    } else {
        Ok(())
    }
}

/// Wants the parent of a new branch to exist: a parent that does not is reported
/// as `BranchNotFound`, under its name.
pub fn require_parent(parent: String, exists: bool) -> (r: Result<String, GitFlowError>)
    ensures
        r is Ok <==> exists,
        r matches Ok(name) ==> name == parent,
        r matches Err(e) ==> (e matches GitFlowError::BranchNotFound(missing) && missing == parent),
{
    if exists {
        Ok(parent)
    } else {
        Err(GitFlowError::BranchNotFound(parent))
    }
}

/// Creates the branch `name` at the tip of `parent`, or of the branch that is
/// checked out where no parent is given, and checks it out. Fails where `name`
/// exists already, and with `BranchNotFound` where the parent does not exist:
/// `refuse_existing` and `require_parent` decide on what the lookups of the two
/// branches give.
pub fn create_new_branch(repo: &git2::Repository, name: &str, parent: Option<&str>) -> (r: Result<
    (),
    GitFlowError,
>)
    ensures
        r matches Err(e) ==> (e is Git || (e matches GitFlowError::BranchNotFound(missing)
            && match parent {
            Some(p) => missing@ == p@,
            None => true,
        })),
{
    refuse_existing(name, find_local_branch(repo, name).is_ok())?;
    let parent_branch_name = match parent {
        Some(branch) => String::from_str(branch),
        None => get_current_branch(repo)?,
    };
    let parent_exists = find_local_branch(repo, parent_branch_name.as_str()).is_ok();
    let parent_branch_name = require_parent(parent_branch_name, parent_exists)?;
    if let Err(e) = create_branch_at(repo, name, parent_branch_name.as_str()) {
        return Err(GitFlowError::Git(e));
    }
    checkout_branch(repo, name)
}

/// The parent that the first `n` entries of `m` give to `child`: the parent of the
/// first entry that lists it.
pub open spec fn parent_among(m: TreeModel, child: Name, n: int) -> Option<Name>
    decreases n,
{
    if n <= 0 {
        None
    } else {
        match parent_among(m, child, n - 1) {
            Some(p) => Some(p),
            None => if m[n - 1].1.contains(child) {
                Some(m[n - 1].0)
            } else {
                None
            },
        }
    }
}

/// The parent of `child` in `m`, where it has one.
pub open spec fn parent_in(m: TreeModel, child: Name) -> Option<Name> {
    parent_among(m, child, m.len() as int)
}

/// The parent of `branch` in `tree`: the parent of the first entry that lists it.
pub fn find_parent_in(tree: &BranchTree, branch: &str) -> (r: Option<String>)
    ensures
        match r {
            Some(p) => parent_in(tree@, branch@) == Some(p@),
            None => parent_in(tree@, branch@) is None,
        },
        r is Some <==> is_child(tree@, branch@),
{
    let ghost m = tree@;
    let mut i: usize = 0;
    while i < tree.len()
        invariant
            i <= tree@.len(),
            m == tree@,
            parent_among(m, branch@, i as int) is None,
            forall|k: int| 0 <= k < i ==> !(#[trigger] m[k]).1.contains(branch@),
        decreases tree@.len() - i,
    {
        let entry = tree.entry(i).unwrap();
        if contains_name(&entry.children, branch) {
            proof {
                lemma_parent_found(m, branch@, i + 1, m.len() as int);
                assert(m[i as int].1.contains(branch@));
            }
            return Some(entry.parent.clone());
        }
        i += 1;
    }
    None
}

/// A parent found among the first entries is the parent among more entries.
pub proof fn lemma_parent_found(m: TreeModel, child: Name, n: int, more: int)
    requires
        parent_among(m, child, n) is Some,
        n <= more,
    ensures
        parent_among(m, child, more) == parent_among(m, child, n),
    decreases more - n,
{
    if n < more {
        lemma_parent_found(m, child, n, more - 1);
    }
}

/// The parent of `current_branch` in the first of two hierarchies that gives it one;
/// `default_base` where neither does.
pub open spec fn chosen_parent(
    by_history: TreeModel,
    by_time: TreeModel,
    current_branch: Name,
    default_base: Name,
) -> Name {
    match parent_in(by_history, current_branch) {
        Some(p) => p,
        None => match parent_in(by_time, current_branch) {
            Some(p) => p,
            None => default_base,
        },
    }
}

/// The parent of `current_branch` by two hierarchies: the one that the first gives
/// it, else the one that the second gives it, else `default_base`.
pub fn choose_parent(
    by_history: &BranchTree,
    by_time: &BranchTree,
    current_branch: &str,
    default_base: &str,
) -> (parent: String)
    ensures
        parent@ == chosen_parent(by_history@, by_time@, current_branch@, default_base@),
{
    if let Some(parent) = find_parent_in(by_history, current_branch) {
        return parent;
    }
    match find_parent_in(by_time, current_branch) {
        Some(parent) => parent,
        None => String::from_str(default_base),
    }
}

/// The parent of the branch `current_branch`: the one that commit ancestry gives
/// it, else the one that creation time gives it, else `default_base`. The
/// hierarchy by creation time is detected only where commit ancestry gives no
/// parent.
pub fn get_parent_branch(repo: &git2::Repository, current_branch: &str, default_base: &str) -> (r:
    Result<String, GitFlowError>)
    ensures
        r matches Err(e) ==> e is Git,
        r matches Ok(parent) ==> exists|by_history: TreeModel, by_time: TreeModel|
            parent@ == #[trigger] chosen_parent(by_history, by_time, current_branch@, default_base@),
{
    let by_history = get_branch_tree_by_history(repo)?;
    if let Some(parent) = find_parent_in(&by_history, current_branch) {
        assert(parent@ == chosen_parent(by_history@, TreeModel::empty(), current_branch@, default_base@));
        return Ok(parent);
    }
    let by_time = get_branch_tree_by_creation_time(repo)?;
    let parent = choose_parent(&by_history, &by_time, current_branch, default_base);
    Ok(parent)
}

/// `names` holds a name that is neither `parent` nor `child`.
pub open spec fn has_third_branch(names: Seq<Name>, parent: Name, child: Name) -> bool {
    exists|k: int| 0 <= k < names.len() && #[trigger] names[k] != parent && names[k] != child
}

/// `parent`, `child` and then `others`: the branches that the directness test of a
/// single pair is asked about, with `parent` at position 0 and `child` at 1.
pub open spec fn pair_and_others(parent: Name, child: Name, others: Seq<Name>) -> Seq<Name> {
    seq![parent, child] + others
}

/// The branch of a table that stands at position `k` of the list for a single
/// pair: the parent and the child first, then every branch.
pub open spec fn pair_source(k: int, parent: int, child: int) -> int {
    if k == 0 {
        parent
    } else if k == 1 {
        child
    } else {
        k - 2
    }
}

/// The ancestry table `d` laid out for the list of a single pair.
pub open spec fn pair_ancestry(d: Seq<Seq<bool>>, n: int, parent: int, child: int) -> Seq<Seq<bool>> {
    Seq::new(
        (n + 2) as nat,
        |r: int|
            Seq::new(
                (n + 2) as nat,
                |c: int| descends(d, pair_source(r, parent, child), pair_source(c, parent, child)),
            ),
    )
}

/// The directness test of a single pair agrees with the test on the table: asked
/// about two branches of a table, with the same ancestry, it says what the table's
/// test says. So every edge of a hierarchy by commit ancestry passes it.
pub proof fn lemma_pair_test_agrees(names: Seq<Name>, d: Seq<Seq<bool>>, parent: int, child: int)
    requires
        0 <= parent < names.len(),
        0 <= child < names.len(),
    ensures
        is_direct(
            pair_and_others(names[parent], names[child], names),
            pair_ancestry(d, names.len() as int, parent, child),
            0,
            1,
        ) == is_direct(names, d, parent, child),
{
    let n = names.len() as int;
    let pn = pair_and_others(names[parent], names[child], names);
    let pd = pair_ancestry(d, n, parent, child);
    assert(pn.len() == n + 2);
    assert(pn[0] == names[parent] && pn[1] == names[child]);
    assert forall|k: int| 2 <= k < n + 2 implies lies_between(pn, pd, 0, k, 1) == lies_between(
        names,
        d,
        parent,
        k - 2,
        child,
    ) by {
        assert(pn[k] == names[k - 2]);
        assert(pd[k][0] == descends(d, k - 2, parent));
        assert(pd[1][k] == descends(d, child, k - 2));
    }
    if is_direct(names, d, parent, child) {
        assert forall|k: int| 0 <= k < pn.len() implies !lies_between(pn, pd, 0, k, 1) by {
            if k >= 2 {
                assert(!lies_between(names, d, parent, k - 2, child));
            }
        }
    }
    if is_direct(pn, pd, 0, 1) {
        assert forall|k: int| 0 <= k < names.len() implies !lies_between(names, d, parent, k, child) by {
            assert(!lies_between(pn, pd, 0, k + 2, 1));
        }
    }
}

/// `parent`, `child` and then the names of `others`.
pub fn pair_with_others(parent: &str, child: &str, others: &Vec<String>) -> (names: Vec<String>)
    ensures
        names.deep_view() == pair_and_others(parent@, child@, others.deep_view()),
{
    let mut names: Vec<String> = Vec::new();
    names.push(String::from_str(parent));
    names.push(String::from_str(child));
    assert(names.deep_view() =~= seq![parent@, child@]);
    let mut i: usize = 0;
    while i < others.len()
        invariant
            i <= others.len(),
            names.deep_view() == seq![parent@, child@] + others.deep_view().take(i as int),
        decreases others.len() - i,
    {
        let ghost before = names.deep_view();
        names.push(others[i].clone());
        assert(names.deep_view() =~= before.push(others.deep_view()[i as int]));
        assert(others.deep_view().take(i + 1) =~= others.deep_view().take(i as int).push(
            others.deep_view()[i as int],
        ));
        assert(names.deep_view() =~= seq![parent@, child@] + others.deep_view().take(i + 1));
        i += 1;
    }
    assert(others.deep_view().take(i as int) =~= others.deep_view());
    names
}

/// Whether no other branch of `all_branches` lies between `parent` and `child`:
/// none that descends from the tip of `parent` and from which the tip of `child`
/// descends.
///
/// The tips of `parent`, of `child` and of every branch of `all_branches` are
/// looked up, in this order, and the ancestry among them is read; a failure of
/// that is the backend's. The answer is then that of the directness test on these
/// branches and their ancestry, as `is_direct_at` gives it.
pub fn is_direct_parent_child(
    all_branches: &Vec<String>,
    parent: &str,
    child: &str,
    repo: &git2::Repository,
) -> (r: Result<bool, GitFlowError>)
    ensures
        r matches Err(e) ==> e is Git,
        r matches Ok(direct) ==> exists|d: Seq<Seq<bool>>|
            direct == #[trigger] is_direct(
                pair_and_others(parent@, child@, all_branches.deep_view()),
                d,
                0,
                1,
            ),
        r matches Ok(direct) ==> (direct || has_third_branch(
            all_branches.deep_view(),
            parent@,
            child@,
        )),
{
    let names = pair_with_others(parent, child, all_branches);
    let tips = tips_of(repo, &names)?;
    let table = ancestry_table(repo, &tips)?;
    let direct = is_direct_at(&names, &table, 0, 1);
    proof {
        let all = names.deep_view();
        assert(direct == is_direct(all, table.deep_view(), 0, 1));
        if !direct {
            let k = choose|k: int|
                0 <= k < all.len() && lies_between(all, table.deep_view(), 0, k, 1);
            assert(all[0] == parent@ && all[1] == child@);
            assert(k >= 2);
            assert(all[k] == all_branches.deep_view()[k - 2]);
        }
    }
    Ok(direct)
}

} // verus!
