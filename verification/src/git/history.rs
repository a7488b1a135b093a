//! The commit-ancestry strategy: from which tips descend from which, to the edges
//! between each branch and its nearest descendants.
//!
//! The ancestry is a square table over the branches, in the order of their names:
//! the row of a branch says, for each branch, whether the row's tip descends from
//! that branch's tip. A cell that the table lacks counts as "does not descend".
//!
//! The work is not linear in the number of branches: every pair of branches is
//! looked at, and for every pair every third branch. This is meant for the number
//! of branches that a repository usually has.
use crate::tree::{has_edge, tree_from_edges, BranchTree, Edge, Name, TreeModel};
use crate::tree::{lemma_tree_from_edges_has_edge, same_name};
use vstd::prelude::*;

verus! {

/// The tip of branch `c` descends from the tip of branch `p`, by the table `d`.
pub open spec fn descends(d: Seq<Seq<bool>>, c: int, p: int) -> bool {
    0 <= c < d.len() && 0 <= p < d[c].len() && d[c][p]
}

/// Branch `k` is a third branch whose tip lies on the way from `p` down to `c`.
pub open spec fn lies_between(names: Seq<Name>, d: Seq<Seq<bool>>, p: int, k: int, c: int) -> bool {
    names[k] != names[p] && names[k] != names[c] && descends(d, k, p) && descends(d, c, k)
}

/// No third branch lies between `p` and `c`.
pub open spec fn is_direct(names: Seq<Name>, d: Seq<Seq<bool>>, p: int, c: int) -> bool {
    forall|k: int| 0 <= k < names.len() ==> !lies_between(names, d, p, k, c)
}

/// `p` and `c` are branches of the table, and no third branch lies between them.
pub open spec fn is_direct_between(names: Seq<Name>, d: Seq<Seq<bool>>, p: int, c: int) -> bool {
    0 <= p < names.len() && 0 <= c < names.len() && is_direct(names, d, p, c)
}

/// `c` is another branch than `p`, descends from it, and no third branch lies between.
pub open spec fn is_direct_edge(names: Seq<Name>, d: Seq<Seq<bool>>, p: int, c: int) -> bool {
    &&& 0 <= p < names.len()
    &&& 0 <= c < names.len()
    &&& names[p] != names[c]
    &&& descends(d, c, p)
    &&& is_direct(names, d, p, c)
}

/// The table `d` cut down to its direct edges.
pub open spec fn minimal_relation(names: Seq<Name>, d: Seq<Seq<bool>>) -> Seq<Seq<bool>> {
    Seq::new(
        names.len(),
        |c: int| Seq::new(names.len(), |p: int| is_direct_edge(names, d, p, c)),
    )
}

/// The edges from parent `p` to the first `n` branches that the table `m` marks as
/// descending from it, in branch order.
pub open spec fn relation_row(names: Seq<Name>, m: Seq<Seq<bool>>, p: int, n: int) -> Seq<Edge>
    decreases n,
{
    if n <= 0 {
        Seq::empty()
    } else {
        let rest = relation_row(names, m, p, n - 1);
        if descends(m, n - 1, p) {
            rest.push((names[p], names[n - 1]))
        } else {
            rest
        }
    }
}

/// The edges of the table `m` from the first `n` branches as parents: parent by
/// parent, and under each parent child by child.
pub open spec fn relation_edges(names: Seq<Name>, m: Seq<Seq<bool>>, n: int) -> Seq<Edge>
    decreases n,
{
    if n <= 0 {
        Seq::empty()
    } else {
        relation_edges(names, m, n - 1) + relation_row(names, m, n - 1, names.len() as int)
    }
}

/// The edges that the commit-ancestry strategy records, in the order it records them.
pub open spec fn history_edges(names: Seq<Name>, d: Seq<Seq<bool>>) -> Seq<Edge> {
    relation_edges(names, minimal_relation(names, d), names.len() as int)
}

/// The hierarchy of the commit-ancestry strategy.
pub open spec fn history_tree(names: Seq<Name>, d: Seq<Seq<bool>>) -> TreeModel {
    tree_from_edges(history_edges(names, d))
}

/// Every edge of a row joins the row's parent to a branch that the table marks.
pub proof fn lemma_relation_row_members(
    names: Seq<Name>,
    m: Seq<Seq<bool>>,
    p: int,
    n: int,
    e: Edge,
)
    requires
        relation_row(names, m, p, n).contains(e),
    ensures
        exists|c: int| 0 <= c < n && #[trigger] descends(m, c, p) && e == (names[p], names[c]),
    decreases n,
{
    if n > 0 {
        let rest = relation_row(names, m, p, n - 1);
        if rest.contains(e) {
            lemma_relation_row_members(names, m, p, n - 1, e);
            let c = choose|c: int|
                0 <= c < n - 1 && #[trigger] descends(m, c, p) && e == (names[p], names[c]);
            assert(0 <= c < n && descends(m, c, p) && e == (names[p], names[c]));
        } else {
            let row = relation_row(names, m, p, n);
            let i = choose|i: int| 0 <= i < row.len() && row[i] == e;
            if descends(m, n - 1, p) {
                if i < rest.len() {
                    assert(rest[i] == e);
                }
                assert(e == (names[p], names[n - 1]));
            } else {
                assert(rest[i] == e);
            }
        }
    }
}

/// Every edge of a table joins two branches of which the table marks the second
/// as descending from the first.
pub proof fn lemma_relation_edges_members(names: Seq<Name>, m: Seq<Seq<bool>>, n: int, e: Edge)
    requires
        relation_edges(names, m, n).contains(e),
    ensures
        exists|p: int, c: int|
            0 <= p < n && 0 <= c < names.len() && #[trigger] descends(m, c, p) && e == (
                names[p],
                names[c],
            ),
    decreases n,
{
    if n > 0 {
        let before = relation_edges(names, m, n - 1);
        let row = relation_row(names, m, n - 1, names.len() as int);
        let all = relation_edges(names, m, n);
        let i = choose|i: int| 0 <= i < all.len() && all[i] == e;
        if i < before.len() {
            assert(before[i] == e);
            lemma_relation_edges_members(names, m, n - 1, e);
            let (p, c) = choose|p: int, c: int|
                0 <= p < n - 1 && 0 <= c < names.len() && #[trigger] descends(m, c, p) && e == (
                    names[p],
                    names[c],
                );
            assert(0 <= p < n && 0 <= c < names.len() && descends(m, c, p) && e == (
                names[p],
                names[c],
            ));
        } else {
            assert(row[i - before.len()] == e);
            lemma_relation_row_members(names, m, n - 1, names.len() as int, e);
            let c = choose|c: int|
                0 <= c < names.len() && #[trigger] descends(m, c, n - 1) && e == (
                    names[n - 1],
                    names[c],
                );
            assert(0 <= n - 1 < n && 0 <= c < names.len() && descends(m, c, n - 1) && e == (
                names[n - 1],
                names[c],
            ));
        }
    }
}

/// A row holds the edge to every branch that the table marks.
pub proof fn lemma_relation_row_holds(names: Seq<Name>, m: Seq<Seq<bool>>, p: int, n: int, c: int)
    requires
        0 <= c < n,
        descends(m, c, p),
    ensures
        relation_row(names, m, p, n).contains((names[p], names[c])),
    decreases n,
{
    let row = relation_row(names, m, p, n);
    let rest = relation_row(names, m, p, n - 1);
    if c == n - 1 {
        assert(row[row.len() - 1] == (names[p], names[c]));
    } else {
        lemma_relation_row_holds(names, m, p, n - 1, c);
        let i = choose|i: int| 0 <= i < rest.len() && rest[i] == (names[p], names[c]);
        assert(row[i] == (names[p], names[c]));
    }
}

/// A table's edges hold the edge between every two branches of which the table
/// marks the second as descending from the first.
pub proof fn lemma_relation_edges_hold(names: Seq<Name>, m: Seq<Seq<bool>>, n: int, p: int, c: int)
    requires
        0 <= p < n,
        0 <= c < names.len(),
        descends(m, c, p),
    ensures
        relation_edges(names, m, n).contains((names[p], names[c])),
    decreases n,
{
    let all = relation_edges(names, m, n);
    let before = relation_edges(names, m, n - 1);
    let row = relation_row(names, m, n - 1, names.len() as int);
    if p == n - 1 {
        lemma_relation_row_holds(names, m, p, names.len() as int, c);
        let i = choose|i: int| 0 <= i < row.len() && row[i] == (names[p], names[c]);
        assert(all[before.len() + i] == (names[p], names[c]));
    } else {
        lemma_relation_edges_hold(names, m, n - 1, p, c);
        let i = choose|i: int| 0 <= i < before.len() && before[i] == (names[p], names[c]);
        assert(all[i] == (names[p], names[c]));
    }
}

/// The hierarchy by commit ancestry has an edge from one name to another exactly
/// where a branch of the first name and a branch of the second are a direct edge;
/// so no branch is its own child.
pub proof fn lemma_history_tree_has_edge(names: Seq<Name>, d: Seq<Seq<bool>>, p: Name, c: Name)
    ensures
        has_edge(history_tree(names, d), p, c) <==> exists|i: int, j: int| #[trigger]
            is_direct_edge(names, d, i, j) && names[i] == p && names[j] == c,
        has_edge(history_tree(names, d), p, c) ==> p != c,
{
    let edges = history_edges(names, d);
    let m = minimal_relation(names, d);
    lemma_tree_from_edges_has_edge(edges, p, c);
    if edges.contains((p, c)) {
        lemma_history_edges_are_direct(names, d, (p, c));
        let (i, j) = choose|i: int, j: int| #[trigger]
            is_direct_edge(names, d, i, j) && (p, c) == (names[i], names[j]);
        assert(is_direct_edge(names, d, i, j) && names[i] == p && names[j] == c);
    }
    if exists|i: int, j: int| #[trigger] is_direct_edge(names, d, i, j) && names[i] == p && names[j] == c {
        let (i, j) = choose|i: int, j: int| #[trigger]
            is_direct_edge(names, d, i, j) && names[i] == p && names[j] == c;
        assert(m[j][i] == is_direct_edge(names, d, i, j));
        assert(descends(m, j, i));
        lemma_relation_edges_hold(names, m, names.len() as int, i, j);
    }
}

/// Every edge of the hierarchy by commit ancestry passes the directness test
/// again: it joins two branches with no third branch between them. So keeping of a
/// detected hierarchy only the edges that pass the test gives the same hierarchy.
pub proof fn lemma_history_edges_pass_the_test(names: Seq<Name>, d: Seq<Seq<bool>>, p: Name, c: Name)
    requires
        has_edge(history_tree(names, d), p, c),
    ensures
        exists|i: int, j: int| #[trigger]
            is_direct_between(names, d, i, j) && names[i] == p && names[j] == c,
{
    lemma_history_tree_has_edge(names, d, p, c);
    let (i, j) = choose|i: int, j: int| #[trigger]
        is_direct_edge(names, d, i, j) && names[i] == p && names[j] == c;
    assert(is_direct_between(names, d, i, j) && names[i] == p && names[j] == c);
}

/// Every edge that the commit-ancestry strategy records joins a branch to another
/// branch that descends from it with no third branch between: no branch is its own
/// child.
pub proof fn lemma_history_edges_are_direct(names: Seq<Name>, d: Seq<Seq<bool>>, e: Edge)
    requires
        history_edges(names, d).contains(e),
    ensures
        exists|p: int, c: int| #[trigger] is_direct_edge(names, d, p, c) && e == (names[p], names[c]),
        e.0 != e.1,
{
    let m = minimal_relation(names, d);
    lemma_relation_edges_members(names, m, names.len() as int, e);
    let (p, c) = choose|p: int, c: int|
        0 <= p < names.len() && 0 <= c < names.len() && #[trigger] descends(m, c, p) && e == (
            names[p],
            names[c],
        );
    assert(m[c][p] == is_direct_edge(names, d, p, c));
    assert(is_direct_edge(names, d, p, c) && e == (names[p], names[c]));
}

/// Where no tip descends from another, the commit-ancestry strategy finds no
/// hierarchy at all.
pub proof fn lemma_unrelated_branches_have_no_hierarchy(names: Seq<Name>, d: Seq<Seq<bool>>)
    requires
        forall|c: int, p: int| !descends(d, c, p),
    ensures
        history_edges(names, d) == Seq::<Edge>::empty(),
        history_tree(names, d) == TreeModel::empty(),
{
    let edges = history_edges(names, d);
    if edges.len() > 0 {
        assert(edges.contains(edges[0]));
        lemma_history_edges_are_direct(names, d, edges[0]);
        let (p, c) = choose|p: int, c: int| #[trigger]
            is_direct_edge(names, d, p, c) && edges[0] == (names[p], names[c]);
        assert(descends(d, c, p));
    }
    assert(edges =~= Seq::<Edge>::empty());
}

/// The minimality filter is idempotent: a table that was cut down to its direct
/// edges stays as it is when it is cut down again, and so does the hierarchy that
/// is built from it.
pub proof fn lemma_minimal_relation_idempotent(names: Seq<Name>, d: Seq<Seq<bool>>)
    ensures
        minimal_relation(names, minimal_relation(names, d)) == minimal_relation(names, d),
        history_edges(names, minimal_relation(names, d)) == history_edges(names, d),
        history_tree(names, minimal_relation(names, d)) == history_tree(names, d),
{
    let m = minimal_relation(names, d);
    let mm = minimal_relation(names, m);
    assert forall|c: int, p: int| 0 <= c < names.len() && 0 <= p < names.len() implies mm[c][p]
        == m[c][p] by {
        assert(m[c][p] == is_direct_edge(names, d, p, c));
        assert(mm[c][p] == is_direct_edge(names, m, p, c));
        if is_direct_edge(names, d, p, c) {
            assert(descends(m, c, p));
            assert forall|k: int| 0 <= k < names.len() implies !lies_between(names, m, p, k, c) by {
                if lies_between(names, m, p, k, c) {
                    assert(m[k][p] == is_direct_edge(names, d, p, k));
                    assert(m[c][k] == is_direct_edge(names, d, k, c));
                    assert(lies_between(names, d, p, k, c));
                }
            }
        }
    }
    assert forall|c: int| 0 <= c < names.len() implies #[trigger] mm[c] =~= m[c] by {
        assert forall|p: int| 0 <= p < names.len() implies mm[c][p] == m[c][p] by {}
    }
    assert(mm =~= m);
}

/// Reads one cell of an ancestry table; a missing cell reads as `false`.
pub fn descends_at(d: &Vec<Vec<bool>>, c: usize, p: usize) -> (b: bool)
    ensures
        b == descends(d.deep_view(), c as int, p as int),
{
    if c < d.len() {
        if p < d[c].len() {
            assert(d.deep_view()[c as int][p as int] == d[c as int][p as int]);
            d[c][p]
        } else {
            false
        }
    } else {
        false
    }
}

/// Whether `parent` and `child` are branches of the table with no third branch
/// between them: the directness test. It asks nothing of `parent` and `child`
/// themselves.
pub fn is_direct_at(names: &Vec<String>, d: &Vec<Vec<bool>>, parent: usize, child: usize) -> (b: bool)
    ensures
        b == is_direct_between(names.deep_view(), d.deep_view(), parent as int, child as int),
        (parent < names.len() && child < names.len()) ==> b == is_direct(
            names.deep_view(),
            d.deep_view(),
            parent as int,
            child as int,
        ),
{
    let n = names.len();
    if parent >= n || child >= n {
        return false;
    }
    let mut k: usize = 0;
    while k < n
        invariant
            k <= n,
            n == names.len(),
            parent < n,
            child < n,
            forall|q: int|
                0 <= q < k ==> !lies_between(
                    names.deep_view(),
                    d.deep_view(),
                    parent as int,
                    q,
                    child as int,
                ),
        decreases n - k,
    {
        if !same_name(names[k].as_str(), names[parent].as_str()) && !same_name(
            names[k].as_str(),
            names[child].as_str(),
        ) && descends_at(d, k, parent) && descends_at(d, child, k) {
            assert(lies_between(
                names.deep_view(),
                d.deep_view(),
                parent as int,
                k as int,
                child as int,
            ));
            return false;
        }
        k += 1;
    }
    true
}

/// Whether `child` is another branch than `parent`, descends from it, and has no
/// third branch between: what makes the two an edge of the hierarchy.
pub fn is_direct_edge_at(names: &Vec<String>, d: &Vec<Vec<bool>>, parent: usize, child: usize) -> (b: bool)
    ensures
        b == is_direct_edge(names.deep_view(), d.deep_view(), parent as int, child as int),
{
    let n = names.len();
    if parent >= n || child >= n {
        return false;
    }
    if same_name(names[parent].as_str(), names[child].as_str()) {
        return false;
    }
    if !descends_at(d, child, parent) {
        return false;
    }
    is_direct_at(names, d, parent, child)
}

/// The minimality filter: cuts an ancestry table down to the direct edges.
pub fn filter_direct(names: &Vec<String>, d: &Vec<Vec<bool>>) -> (m: Vec<Vec<bool>>)
    ensures
        m.deep_view() == minimal_relation(names.deep_view(), d.deep_view()),
{
    let n = names.len();
    let mut m: Vec<Vec<bool>> = Vec::new();
    let mut c: usize = 0;
    while c < n
        invariant
            c <= n,
            n == names.len(),
            m.len() == c,
            forall|i: int|
                0 <= i < c ==> (#[trigger] m.deep_view()[i]) == Seq::new(
                    n as nat,
                    |p: int| is_direct_edge(names.deep_view(), d.deep_view(), p, i),
                ),
        decreases n - c,
    {
        let mut row: Vec<bool> = Vec::new();
        let mut p: usize = 0;
        while p < n
            invariant
                p <= n,
                n == names.len(),
                row.len() == p,
                forall|q: int|
                    0 <= q < p ==> (#[trigger] row[q]) == is_direct_edge(
                        names.deep_view(),
                        d.deep_view(),
                        q,
                        c as int,
                    ),
            decreases n - p,
        {
            row.push(is_direct_edge_at(names, d, p, c));
            p += 1;
        }
        assert(row.deep_view() =~= Seq::new(
            n as nat,
            |p: int| is_direct_edge(names.deep_view(), d.deep_view(), p, c as int),
        ));
        let ghost before = m.deep_view();
        m.push(row);
        assert(m.deep_view() =~= before.push(row.deep_view()));
        c += 1;
    }
    assert(m.deep_view() =~= minimal_relation(names.deep_view(), d.deep_view()));
    m
}

/// The edges of a table, parent by parent and child by child.
pub fn edges_of_relation(names: &Vec<String>, m: &Vec<Vec<bool>>) -> (edges: Vec<(String, String)>)
    ensures
        edges.deep_view() == relation_edges(names.deep_view(), m.deep_view(), names.len() as int),
{
    let n = names.len();
    let mut edges: Vec<(String, String)> = Vec::new();
    let mut p: usize = 0;
    assert(edges.deep_view() =~= relation_edges(names.deep_view(), m.deep_view(), 0));
    while p < n
        invariant
            p <= n,
            n == names.len(),
            edges.deep_view() == relation_edges(names.deep_view(), m.deep_view(), p as int),
        decreases n - p,
    {
        let ghost base = edges.deep_view();
        let mut c: usize = 0;
        assert(edges.deep_view() =~= base + relation_row(
            names.deep_view(),
            m.deep_view(),
            p as int,
            0,
        ));
        while c < n
            invariant
                c <= n,
                p < n,
                n == names.len(),
                edges.deep_view() == base + relation_row(
                    names.deep_view(),
                    m.deep_view(),
                    p as int,
                    c as int,
                ),
            decreases n - c,
        {
            let ghost before = edges.deep_view();
            if descends_at(m, c, p) {
                edges.push((names[p].clone(), names[c].clone()));
                assert(edges.deep_view() =~= before.push(
                    (names.deep_view()[p as int], names.deep_view()[c as int]),
                ));
            }
            assert(edges.deep_view() =~= base + relation_row(
                names.deep_view(),
                m.deep_view(),
                p as int,
                c + 1,
            ));
            c += 1;
        }
        p += 1;
    }
    edges
}

/// The hierarchy of the commit-ancestry strategy: every branch is the parent of
/// the branches that descend from it with no third branch between.
pub fn tree_by_history(names: &Vec<String>, d: &Vec<Vec<bool>>) -> (t: BranchTree)
    ensures
        t@ == history_tree(names.deep_view(), d.deep_view()),
        (forall|c: int, p: int| !descends(d.deep_view(), c, p)) ==> t@.len() == 0,
{
    proof {
        if forall|c: int, p: int| !descends(d.deep_view(), c, p) {
            lemma_unrelated_branches_have_no_hierarchy(names.deep_view(), d.deep_view());
        }
    }
    let direct = filter_direct(names, d);
    let edges = edges_of_relation(names, &direct);
    BranchTree::from_edges(&edges)
}

} // verus!
