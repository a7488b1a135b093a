//! The settings of the tool: the pull requests it tracks, the default base branch,
//! the branch relationships that the user wrote down, and the detection strategy.
//!
//! A change is made on the value in memory. Writing it to durable storage is the
//! caller's part, after every change.
use crate::git::branch::BranchRelationStrategy;
use crate::tree::{
    distinct_keys, has_key, key_index, lemma_key_index, same_name, with_child, with_entry,
    without_child, BranchTree, Name, TreeModel,
};
use vstd::prelude::*;
use vstd::string::StringExecFns;

verus! {

/// What is kept of a pull request.
#[derive(Debug, Clone)]
pub struct PrInfo {
    pub url: String,
    pub number: u64,
    pub title: String,
    pub created_at: String,
}

/// A pull request as contracts see it.
pub ghost struct PrInfoModel {
    pub url: Seq<char>,
    pub number: u64,
    pub title: Seq<char>,
    pub created_at: Seq<char>,
}

impl View for PrInfo {
    type V = PrInfoModel;

    open spec fn view(&self) -> PrInfoModel {
        PrInfoModel {
            url: self.url@,
            number: self.number,
            title: self.title@,
            created_at: self.created_at@,
        }
    }
}

/// The tracked pull requests as contracts see them: one entry for each branch.
pub type PrModel = Seq<(Seq<char>, PrInfoModel)>;

/// The pull request of a branch.
pub struct PrRecord {
    pub branch: String,
    pub info: PrInfo,
}

impl View for PrRecord {
    type V = (Seq<char>, PrInfoModel);

    open spec fn view(&self) -> (Seq<char>, PrInfoModel) {
        (self.branch@, self.info@)
    }
}

/// The records as contracts see them.
pub open spec fn records_model(records: Seq<PrRecord>) -> PrModel {
    Seq::new(records.len(), |i: int| records[i]@)
}

/// The pull request that `m` holds for `branch`, if it holds one.
pub open spec fn pr_of(m: PrModel, branch: Name) -> Option<PrInfoModel> {
    if has_key(m, branch) {
        Some(m[key_index(m, branch)].1)
    } else {
        None
    }
}

/// The tracked pull requests, one for each branch at most, in the order in which
/// the branches were first added.
pub struct PrTable {
    records: Vec<PrRecord>,
}

impl View for PrTable {
    type V = PrModel;

    closed spec fn view(&self) -> PrModel {
        records_model(self.records@)
    }
}

impl PrTable {
    #[verifier::type_invariant]
    spec fn branches_are_distinct(self) -> bool {
        distinct_keys(self@)
    }

    /// The table without records.
    pub fn new() -> (t: Self)
        ensures
            t@ == PrModel::empty(),
    {
        let t = PrTable { records: Vec::new() };
        assert(t@ =~= PrModel::empty());
        t
    }

    /// The number of tracked pull requests.
    pub fn len(&self) -> (n: usize)
        ensures
            n == self@.len(),
    {
        self.records.len()
    }

    /// The record at position `i`, if there are that many.
    pub fn record(&self, i: usize) -> (r: Option<&PrRecord>)
        ensures
            i < self@.len() ==> (r matches Some(e) && e@ == self@[i as int]),
            i >= self@.len() ==> r is None,
    {
        if i < self.records.len() {
            Some(&self.records[i])
        } else {
            None
        }
    }

    /// The position of the record of `branch`.
    fn position(&self, branch: &str) -> (r: Option<usize>)
        ensures
            match r {
                Some(i) => i < self@.len() && self@[i as int].0 == branch@ && i == key_index(
                    self@,
                    branch@,
                ) && has_key(self@, branch@),
                None => !has_key(self@, branch@),
            },
    {
        proof {
            use_type_invariant(self);
        }
        let mut i: usize = 0;
        while i < self.records.len()
            invariant
                i <= self.records.len(),
                distinct_keys(self@),
                forall|k: int| 0 <= k < i ==> (#[trigger] self@[k]).0 != branch@,
            decreases self.records.len() - i,
        {
            if same_name(self.records[i].branch.as_str(), branch) {
                proof {
                    lemma_key_index(self@, branch@, i as int);
                }
                return Some(i);
            }
            i += 1;
        }
        None
    }

    /// The pull request of `branch`, if one is tracked.
    pub fn get(&self, branch: &str) -> (r: Option<&PrInfo>)
        ensures
            match r {
                Some(info) => pr_of(self@, branch@) == Some(info@),
                None => pr_of(self@, branch@) is None,
            },
    {
        match self.position(branch) {
            Some(i) => Some(&self.records[i].info),
            None => None,
        }
    }

    /// Tracks `info` as the pull request of `branch`, in place of the one that was
    /// tracked for it.
    pub fn insert(&mut self, branch: String, info: PrInfo)
        ensures
            final(self)@ == with_entry(old(self)@, branch@, info@),
            pr_of(final(self)@, branch@) == Some(info@),
            forall|other: Name| other != branch@ ==> pr_of(final(self)@, other) == pr_of(old(self)@, other),
    {
        proof {
            use_type_invariant(&*self);
        }
        let found = self.position(branch.as_str());
        let mut records: Vec<PrRecord> = Vec::new();
        core::mem::swap(&mut self.records, &mut records);
        let ghost before = records_model(records@);
        match found {
            Some(i) => {
                let _ = records.remove(i);
                records.insert(i, PrRecord { branch, info });
            },
            None => {
                records.push(PrRecord { branch, info });
            },
        }
        let ghost after = records_model(records@);
        proof {
            assert(after =~= with_entry(before, branch@, info@));
            lemma_with_entry(before, branch@, info@);
            assert forall|other: Name| other != branch@ implies pr_of(after, other) == pr_of(
                before,
                other,
            ) by {
                lemma_with_entry_elsewhere(before, branch@, info@, other);
            }
        }
        self.records = records;
    }
}

/// Setting what stands under `p` keeps the names apart and is what is then found
/// under `p`.
pub proof fn lemma_with_entry<V>(m: Seq<(Seq<char>, V)>, p: Name, v: V)
    requires
        distinct_keys(m),
    ensures
        distinct_keys(with_entry(m, p, v)),
        has_key(with_entry(m, p, v), p),
        with_entry(m, p, v)[key_index(with_entry(m, p, v), p)].1 == v,
{
    let w = with_entry(m, p, v);
    if has_key(m, p) {
        let i = key_index(m, p);
        assert forall|a: int, b: int| 0 <= a < b < w.len() implies (#[trigger] w[a]).0 != (
        #[trigger] w[b]).0 by {
            assert(w[a].0 == m[a].0);
            assert(w[b].0 == m[b].0);
        }
        lemma_key_index(w, p, i);
    } else {
        assert forall|a: int, b: int| 0 <= a < b < w.len() implies (#[trigger] w[a]).0 != (
        #[trigger] w[b]).0 by {
            assert(w[a] == m[a]);
            if b < m.len() {
                assert(w[b] == m[b]);
            }
        }
        lemma_key_index(w, p, m.len() as int);
    }
}

/// Setting what stands under `p` changes nothing under another name.
pub proof fn lemma_with_entry_elsewhere<V>(m: Seq<(Seq<char>, V)>, p: Name, v: V, q: Name)
    requires
        distinct_keys(m),
        q != p,
    ensures
        has_key(with_entry(m, p, v), q) == has_key(m, q),
        has_key(m, q) ==> with_entry(m, p, v)[key_index(with_entry(m, p, v), q)].1
            == m[key_index(m, q)].1,
{
    let w = with_entry(m, p, v);
    lemma_with_entry(m, p, v);
    if has_key(m, q) {
        let j = key_index(m, q);
        assert(w[j].0 == q);
        assert(w[j].1 == m[j].1);
        lemma_key_index(w, q, j);
    } else if has_key(w, q) {
        let j = key_index(w, q);
        if j < m.len() {
            assert(m[j].0 == q);
        }
    }
}

/// The settings.
pub struct Config {
    /// The pull request of each branch that has one.
    pub prs: PrTable,
    /// The default base branch, usually `main` or `master`.
    pub default_base_branch: String,
    /// The branch relationships that the user wrote down.
    pub branch_relationships: BranchTree,
    /// The strategy that detects branch relationships.
    pub branch_detection_strategy: BranchRelationStrategy,
}

impl Config {
    /// The settings of a fresh installation: no pull request, `main` as the default
    /// base branch, no relationship, and the commit-ancestry strategy.
    pub fn new() -> (c: Self)
        ensures
            c.prs@ == PrModel::empty(),
            c.default_base_branch@ == "main"@,
            c.branch_relationships@ == TreeModel::empty(),
            c.branch_detection_strategy == BranchRelationStrategy::CommitHistory,
    {
        Config {
            prs: PrTable::new(),
            default_base_branch: String::from_str("main"),
            branch_relationships: BranchTree::new(),
            branch_detection_strategy: BranchRelationStrategy::CommitHistory,
        }
    }

    /// Tracks `pr_info` as the pull request of `branch`.
    pub fn add_pr(&mut self, branch: String, pr_info: PrInfo)
        ensures
            final(self).prs@ == with_entry(old(self).prs@, branch@, pr_info@),
            pr_of(final(self).prs@, branch@) == Some(pr_info@),
            forall|other: Name|
                other != branch@ ==> pr_of(final(self).prs@, other) == pr_of(old(self).prs@, other),
            final(self).default_base_branch == old(self).default_base_branch,
            final(self).branch_relationships == old(self).branch_relationships,
            final(self).branch_detection_strategy == old(self).branch_detection_strategy,
    {
        self.prs.insert(branch, pr_info);
    }

    /// The pull request of `branch`, if one is tracked.
    pub fn get_pr(&self, branch: &str) -> (r: Option<&PrInfo>)
        ensures
            match r {
                Some(info) => pr_of(self.prs@, branch@) == Some(info@),
                None => pr_of(self.prs@, branch@) is None,
            },
    {
        self.prs.get(branch)
    }

    /// Makes `branch` the default base branch.
    pub fn set_default_base_branch(&mut self, branch: String)
        ensures
            final(self).default_base_branch == branch,
            final(self).prs == old(self).prs,
            final(self).branch_relationships == old(self).branch_relationships,
            final(self).branch_detection_strategy == old(self).branch_detection_strategy,
    {
        self.default_base_branch = branch;
    }

    /// Makes `strategy` the detection strategy.
    pub fn set_branch_detection_strategy(&mut self, strategy: BranchRelationStrategy)
        ensures
            final(self).branch_detection_strategy == strategy,
            final(self).prs == old(self).prs,
            final(self).default_base_branch == old(self).default_base_branch,
            final(self).branch_relationships == old(self).branch_relationships,
    {
        self.branch_detection_strategy = strategy;
    }

    /// Writes down that `child` is a child of `parent`: after the children that
    /// `parent` has already.
    pub fn add_branch_relationship(&mut self, parent: String, child: String)
        ensures
            final(self).branch_relationships@ == with_child(
                old(self).branch_relationships@,
                parent@,
                child@,
            ),
            final(self).prs == old(self).prs,
            final(self).default_base_branch == old(self).default_base_branch,
            final(self).branch_detection_strategy == old(self).branch_detection_strategy,
    {
        self.branch_relationships.add_child(parent, child);
    }

    /// Strikes `child` from the children of `parent`, and `parent` from the
    /// relationships where it has no child left.
    pub fn remove_branch_relationship(&mut self, parent: &str, child: &str)
        ensures
            final(self).branch_relationships@ == without_child(
                old(self).branch_relationships@,
                parent@,
                child@,
            ),
            final(self).prs == old(self).prs,
            final(self).default_base_branch == old(self).default_base_branch,
            final(self).branch_detection_strategy == old(self).branch_detection_strategy,
    {
        self.branch_relationships.remove_child(parent, child);
    }
}

} // verus!
