//! The show command: the branch hierarchy with the pull request and the last
//! commit of each branch, or the plain list of branches where there is no
//! hierarchy.
use crate::cli::{strategy_named, BranchDetectionStrategy};
use crate::configuration::{pr_of, Config, PrModel, PrTable};
use crate::error::GitFlowError;
use crate::git::branch::{
    find_root_branches, get_branch_commit, get_branch_tree, get_current_branch, list_branches,
    roots_of, BranchRelationStrategy,
};
use crate::text::{first_line, first_line_of};
use crate::tree::{has_key, same_name, BranchTree, Name, TreeModel};
use crate::utils::display::{
    branch_listing, hierarchy_lines, lines_model, print_branch_hierarchy, HierarchyLine,
    LineModel,
};
use vstd::prelude::*;

verus! {

/// The strategy of a command: the one named on the command line, else the
/// configured one.
pub open spec fn strategy_for(
    named: Option<BranchDetectionStrategy>,
    configured: BranchRelationStrategy,
) -> BranchRelationStrategy {
    match named {
        Some(strategy) => strategy_named(strategy),
        None => configured,
    }
}

/// The strategy of a command.
pub fn effective_strategy(
    named: Option<BranchDetectionStrategy>,
    configured: BranchRelationStrategy,
) -> (strategy: BranchRelationStrategy)
    ensures
        strategy == strategy_for(named, configured),
{
    match named {
        Some(strategy) => BranchRelationStrategy::from(strategy),
        None => configured,
    }
}

/// The summary that a list of summaries holds for `branch`: that of the first
/// record for it among the first `n`.
pub open spec fn summary_among(summaries: Seq<(Seq<char>, Seq<char>)>, branch: Name, n: int) -> Option<
    Seq<char>,
>
    decreases n,
{
    if n <= 0 {
        None
    } else {
        match summary_among(summaries, branch, n - 1) {
            Some(text) => Some(text),
            None => if summaries[n - 1].0 == branch {
                Some(summaries[n - 1].1)
            } else {
                None
            },
        }
    }
}

/// The summary that `summaries` holds for `branch`.
pub fn summary_for(summaries: &Vec<(String, String)>, branch: &str) -> (r: Option<String>)
    ensures
        match r {
            Some(text) => summary_among(summaries.deep_view(), branch@, summaries.len() as int)
                == Some(text@),
            None => summary_among(summaries.deep_view(), branch@, summaries.len() as int) is None,
        },
{
    let mut i: usize = 0;
    while i < summaries.len()
        invariant
            i <= summaries.len(),
            summary_among(summaries.deep_view(), branch@, i as int) is None,
        decreases summaries.len() - i,
    {
        if same_name(summaries[i].0.as_str(), branch) {
            proof {
                assert(summaries.deep_view()[i as int].0 == branch@);
                lemma_summary_found(summaries.deep_view(), branch@, i + 1, summaries.len() as int);
            }
            return Some(summaries[i].1.clone());
        }
        assert(summaries.deep_view()[i as int].0 != branch@);
        i += 1;
    }
    None
}

/// A summary found among the first records is the summary among more records.
pub proof fn lemma_summary_found(
    summaries: Seq<(Seq<char>, Seq<char>)>,
    branch: Name,
    n: int,
    more: int,
)
    requires
        summary_among(summaries, branch, n) is Some,
        n <= more,
    ensures
        summary_among(summaries, branch, more) == summary_among(summaries, branch, n),
    decreases more - n,
{
    if n < more {
        lemma_summary_found(summaries, branch, n, more - 1);
    }
}

/// A record holds, for a parent of `m`, the first line of some message.
pub open spec fn is_summary_of_parent(m: TreeModel, branch: Name, text: Seq<char>) -> bool {
    has_key(m, branch) && exists|message: Seq<char>| text == #[trigger] first_line(message)
}

/// The summaries that the messages read for the first `n` parents of `m` give: for
/// every parent for which a message was read, in entry order, the parent with the
/// first line of the message. A parent for which `read` holds nothing, or no place,
/// gets no summary.
pub open spec fn summaries_of(m: TreeModel, read: Seq<Option<Seq<char>>>, n: int) -> Seq<
    (Seq<char>, Seq<char>),
>
    decreases n,
{
    if n <= 0 {
        Seq::empty()
    } else {
        let before = summaries_of(m, read, n - 1);
        if n - 1 < read.len() && read[n - 1] is Some {
            before.push((m[n - 1].0, first_line(read[n - 1]->0)))
        } else {
            before
        }
    }
}

/// Every summary is that of a parent, and is the first line of a message.
pub proof fn lemma_summaries_of_parents(m: TreeModel, read: Seq<Option<Seq<char>>>, n: int, i: int)
    requires
        n <= m.len(),
        0 <= i < summaries_of(m, read, n).len(),
    ensures
        is_summary_of_parent(m, summaries_of(m, read, n)[i].0, summaries_of(m, read, n)[i].1),
    decreases n,
{
    if n > 0 {
        let before = summaries_of(m, read, n - 1);
        if i < before.len() {
            lemma_summaries_of_parents(m, read, n - 1, i);
        } else {
            assert(m[n - 1].0 == summaries_of(m, read, n)[i].0);
            assert(summaries_of(m, read, n)[i].1 == first_line(read[n - 1]->0));
        }
    }
}

/// The summaries for the parents of `tree`, from the last commit message that was
/// read for each: `read` holds them in entry order, and nothing for a parent whose
/// message could not be read.
pub fn summaries_from(tree: &BranchTree, read: &Vec<Option<String>>) -> (summaries: Vec<
    (String, String),
>)
    ensures
        summaries.deep_view() == summaries_of(tree@, read.deep_view(), tree@.len() as int),
{
    let mut summaries: Vec<(String, String)> = Vec::new();
    let mut k: usize = 0;
    assert(summaries.deep_view() =~= summaries_of(tree@, read.deep_view(), 0));
    while k < tree.len()
        invariant
            k <= tree@.len(),
            summaries.deep_view() == summaries_of(tree@, read.deep_view(), k as int),
        decreases tree@.len() - k,
    {
        let entry = tree.entry(k).unwrap();
        let ghost before = summaries.deep_view();
        if k < read.len() {
            assert(read.deep_view()[k as int] == read[k as int].deep_view());
            if let Some(message) = &read[k] {
                let line = first_line_of(message.as_str());
                summaries.push((entry.parent.clone(), line));
                assert(summaries.deep_view() =~= before.push(
                    (tree@[k as int].0, first_line(message@)),
                ));
            }
        }
        k += 1;
    }
    summaries
}

/// The first line of the last commit message of each parent of `tree`, for the
/// parents whose last commit and its message can be read: the last commit of every
/// parent is looked up, in entry order, and the summaries are those that the
/// messages read give.
pub fn commit_summaries(repo: &git2::Repository, tree: &BranchTree) -> (summaries: Vec<
    (String, String),
>)
    ensures
        exists|read: Seq<Option<Seq<char>>>|
            read.len() == tree@.len() && summaries.deep_view() == #[trigger] summaries_of(
                tree@,
                read,
                tree@.len() as int,
            ),
        forall|i: int|
            0 <= i < summaries.len() ==> is_summary_of_parent(
                tree@,
                (#[trigger] summaries[i]).0@,
                summaries[i].1@,
            ),
{
    let mut read: Vec<Option<String>> = Vec::new();
    let mut k: usize = 0;
    while k < tree.len()
        invariant
            k <= tree@.len(),
            read.len() == k,
        decreases tree@.len() - k,
    {
        let entry = tree.entry(k).unwrap();
        let message = match get_branch_commit(repo, entry.parent.as_str()) {
            Ok(commit) => commit.message,
            Err(_) => None,
        };
        read.push(message);
        k += 1;
    }
    let summaries = summaries_from(tree, &read);
    proof {
        let all = summaries_of(tree@, read.deep_view(), tree@.len() as int);
        assert(read.deep_view().len() == tree@.len());
        assert forall|i: int| 0 <= i < summaries.len() implies is_summary_of_parent(
            tree@,
            (#[trigger] summaries[i]).0@,
            summaries[i].1@,
        ) by {
            lemma_summaries_of_parents(tree@, read.deep_view(), tree@.len() as int, i);
            assert(summaries.deep_view()[i] == (summaries[i].0@, summaries[i].1@));
        }
    }
    summaries
}

/// One line of what the show command draws.
#[derive(Debug)]
pub struct ShownBranch {
    /// Where the branch stands in the drawing.
    pub line: HierarchyLine,
    /// Whether the branch is the one that is checked out.
    pub is_current: bool,
    /// The number and the address of the pull request of the branch.
    pub pr: Option<(u64, String)>,
    /// The first line of the last commit message of the branch.
    pub summary: Option<String>,
}

/// What the show command shows.
#[derive(Debug)]
pub enum ShowReport {
    /// No hierarchy: the local branches, each with whether it is checked out.
    Listing(Vec<String>),
    /// The hierarchy, line by line.
    Hierarchy(Vec<ShownBranch>),
}

/// The lines of a list of shown branches.
pub open spec fn shown_lines(shown: Seq<ShownBranch>) -> Seq<LineModel> {
    Seq::new(shown.len(), |i: int| shown[i].line@)
}

/// The pull request of a line, by the tracked pull requests.
pub open spec fn pr_shown(prs: PrModel, branch: Name) -> Option<(u64, Seq<char>)> {
    match pr_of(prs, branch) {
        Some(info) => Some((info.number, info.url)),
        None => None,
    }
}

/// The pull request of a shown branch as contracts see it.
pub open spec fn pr_view(pr: Option<(u64, String)>) -> Option<(u64, Seq<char>)> {
    match pr {
        Some((number, url)) => Some((number, url@)),
        None => None,
    }
}

/// The summary of a shown branch as contracts see it.
pub open spec fn summary_view(summary: Option<String>) -> Option<Seq<char>> {
    match summary {
        Some(text) => Some(text@),
        None => None,
    }
}

/// The lines of a drawing, each with what is known of its branch: whether it is
/// checked out, its pull request, and the summary of its last commit.
pub fn annotate(
    lines: Vec<HierarchyLine>,
    current_branch: &str,
    prs: &PrTable,
    summaries: &Vec<(String, String)>,
) -> (shown: Vec<ShownBranch>)
    ensures
        shown_lines(shown@) == lines_model(lines@),
        forall|i: int|
            0 <= i < shown.len() ==> {
                &&& (#[trigger] shown[i]).is_current == (lines[i].branch@ == current_branch@)
                &&& pr_view(shown[i].pr) == pr_shown(prs@, lines[i].branch@)
                &&& summary_view(shown[i].summary) == summary_among(
                    summaries.deep_view(),
                    lines[i].branch@,
                    summaries.len() as int,
                )
            },
{
    let ghost all = lines@;
    let mut rest = lines;
    let mut shown: Vec<ShownBranch> = Vec::new();
    let n = rest.len();
    let mut i: usize = 0;
    while i < n
        invariant
            i <= n,
            n == all.len(),
            rest.len() == n - i,
            shown.len() == i,
            forall|k: int| 0 <= k < n - i ==> #[trigger] rest[k] == all[i + k],
            forall|k: int| 0 <= k < i ==> (#[trigger] shown[k]).line@ == all[k]@,
            forall|k: int|
                0 <= k < i ==> {
                    &&& (#[trigger] shown[k]).is_current == (all[k].branch@ == current_branch@)
                    &&& pr_view(shown[k].pr) == pr_shown(prs@, all[k].branch@)
                    &&& summary_view(shown[k].summary) == summary_among(
                        summaries.deep_view(),
                        all[k].branch@,
                        summaries.len() as int,
                    )
                },
        decreases n - i,
    {
        let line = rest.remove(0);
        let is_current = same_name(line.branch.as_str(), current_branch);
        let pr = match prs.get(line.branch.as_str()) {
            Some(info) => Some((info.number, info.url.clone())),
            None => None,
        };
        let summary = summary_for(summaries, line.branch.as_str());
        shown.push(ShownBranch { line, is_current, pr, summary });
        i += 1;
    }
    assert(shown_lines(shown@) =~= lines_model(all));
    shown
}

/// What the show command shows for the repository, by the strategy named on the
/// command line or else the configured one: the drawing of the hierarchy from its
/// roots, or the list of the local branches where the strategy finds no hierarchy.
pub fn handle_show(
    repo: &git2::Repository,
    config: &Config,
    strategy_opt: Option<BranchDetectionStrategy>,
) -> (r: Result<ShowReport, GitFlowError>)
    ensures
        r matches Err(e) ==> e is Git,
        r matches Ok(ShowReport::Hierarchy(shown)) ==> exists|m: TreeModel|
            m.len() > 0 && shown_lines(shown@) == #[trigger] hierarchy_lines(m, roots_of(m)),
        strategy_for(strategy_opt, config.branch_detection_strategy)
            == BranchRelationStrategy::Manual ==> (r matches Ok(ShowReport::Hierarchy(shown))
            ==> shown_lines(shown@) == hierarchy_lines(
            config.branch_relationships@,
            roots_of(config.branch_relationships@),
        )),
        strategy_for(strategy_opt, config.branch_detection_strategy)
            == BranchRelationStrategy::Manual ==> (r matches Ok(ShowReport::Listing(_))
            ==> config.branch_relationships@.len() == 0),
{
    let strategy = effective_strategy(strategy_opt, config.branch_detection_strategy);
    let tree = get_branch_tree(repo, strategy, config)?;
    let current_branch = get_current_branch(repo)?;
    if tree.is_empty() {
        let names = list_branches(repo)?;
        return Ok(ShowReport::Listing(branch_listing(&names, current_branch.as_str())));
    }
    let roots = find_root_branches(&tree);
    let summaries = commit_summaries(repo, &tree);
    let lines = print_branch_hierarchy(&tree, &roots);
    let shown = annotate(lines, current_branch.as_str(), &config.prs, &summaries);
    assert(shown_lines(shown@) == hierarchy_lines(tree@, roots_of(tree@)));
    Ok(ShowReport::Hierarchy(shown))
}

} // verus!
