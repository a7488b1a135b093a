//! The creation-time strategy: every branch but the oldest gets as parent the
//! nearest older branch that shares history with it and is less than thirty days
//! older.
//!
//! The age of a branch is the time of its tip commit, in seconds. Branches of the
//! same age keep the order in which they were listed. Which branches share history
//! is a square table over the branches as listed; a cell that the table lacks
//! counts as "unrelated".
use crate::git::history::{descends, descends_at};
use crate::tree::{tree_from_edges, BranchTree, Edge, TreeModel};
use vstd::prelude::*;

verus! {

/// A branch is no candidate parent of a branch that is this many seconds younger,
/// or more: thirty days.
pub const PARENT_WINDOW_SECS: i64 = 2592000;

/// The branches as the strategy reads them: each name with the time of its tip.
pub type Ages = Seq<(Seq<char>, i64)>;

/// The time of the tip of branch `i`.
pub open spec fn time_of(ages: Ages, i: int) -> int {
    ages[i].1 as int
}

/// The first position from `from` on, in `order`, of a branch younger than `t`;
/// the length of `order` where there is none.
pub open spec fn first_later(ages: Ages, order: Seq<int>, t: int, from: int) -> int
    decreases order.len() - from,
{
    if from < 0 || from >= order.len() {
        order.len() as int
    } else if time_of(ages, order[from]) > t {
        from
    } else {
        first_later(ages, order, t, from + 1)
    }
}

/// The first `n` branches from the oldest to the youngest; of two of the same age
/// the one listed first comes first.
pub open spec fn time_order(ages: Ages, n: int) -> Seq<int>
    decreases n,
{
    if n <= 0 {
        Seq::empty()
    } else {
        let older = time_order(ages, n - 1);
        older.insert(first_later(ages, older, time_of(ages, n - 1), 0), n - 1)
    }
}

/// `child` is less than the window younger than `parent`.
pub open spec fn within_window(ages: Ages, parent: int, child: int) -> bool {
    time_of(ages, child) - time_of(ages, parent) < PARENT_WINDOW_SECS
}

/// The branches `a` and `b` share history, by the table `related`.
pub open spec fn related_in(related: Seq<Seq<bool>>, a: int, b: int) -> bool {
    descends(related, a, b)
}

/// The parent of the branch at position `pos` of `order`, looked for from position
/// `j` down to the oldest: the first branch that is within the window and related.
pub open spec fn nearest_parent(
    ages: Ages,
    related: Seq<Seq<bool>>,
    order: Seq<int>,
    pos: int,
    j: int,
) -> Option<int>
    decreases j + 1,
{
    if j < 0 {
        None
    } else if within_window(ages, order[j], order[pos]) && related_in(
        related,
        order[j],
        order[pos],
    ) {
        Some(order[j])
    } else {
        nearest_parent(ages, related, order, pos, j - 1)
    }
}

/// The edges to the branches at the first `n` positions of `order`, from the
/// second-oldest on: for each the edge from its parent, where it has one.
pub open spec fn time_edges(ages: Ages, related: Seq<Seq<bool>>, order: Seq<int>, n: int) -> Seq<
    Edge,
>
    decreases n,
{
    if n <= 1 {
        Seq::empty()
    } else {
        let rest = time_edges(ages, related, order, n - 1);
        match nearest_parent(ages, related, order, n - 1, n - 2) {
            Some(p) => rest.push((ages[p].0, ages[order[n - 1]].0)),
            None => rest,
        }
    }
}

/// The edges that the creation-time strategy records, in the order it records them.
pub open spec fn creation_time_edges(ages: Ages, related: Seq<Seq<bool>>) -> Seq<Edge> {
    time_edges(ages, related, time_order(ages, ages.len() as int), ages.len() as int)
}

/// The hierarchy of the creation-time strategy.
pub open spec fn creation_time_tree(ages: Ages, related: Seq<Seq<bool>>) -> TreeModel {
    tree_from_edges(creation_time_edges(ages, related))
}

/// Branch `a` comes before branch `b`: it is older, or as old and listed earlier.
pub open spec fn ordered_before(ages: Ages, a: int, b: int) -> bool {
    time_of(ages, a) < time_of(ages, b) || (time_of(ages, a) == time_of(ages, b) && a < b)
}

/// `order` lists each of the first `n` branches once, every branch before those
/// that it comes before.
pub open spec fn is_time_order(ages: Ages, order: Seq<int>, n: int) -> bool {
    &&& order.len() == n
    &&& forall|k: int| 0 <= k < order.len() ==> 0 <= #[trigger] order[k] < n
    &&& forall|p: int, q: int|
        0 <= p < q < order.len() ==> ordered_before(ages, #[trigger] order[p], #[trigger] order[q])
    &&& forall|i: int| 0 <= i < n ==> #[trigger] order.contains(i)
}

/// Where the search for a younger branch ends: no branch before that position is
/// younger than `t`, and the branch at it is.
pub proof fn lemma_first_later(ages: Ages, order: Seq<int>, t: int, from: int)
    requires
        0 <= from <= order.len(),
    ensures
        from <= first_later(ages, order, t, from) <= order.len(),
        forall|k: int|
            from <= k < first_later(ages, order, t, from) ==> time_of(ages, #[trigger] order[k]) <= t,
        first_later(ages, order, t, from) < order.len() ==> time_of(
            ages,
            order[first_later(ages, order, t, from)],
        ) > t,
    decreases order.len() - from,
{
    if from < order.len() && time_of(ages, order[from]) <= t {
        lemma_first_later(ages, order, t, from + 1);
    }
}

/// The order by time lists every branch once, the older before the younger, and of
/// two of the same age the one listed first before the other.
pub proof fn lemma_time_order(ages: Ages, n: int)
    requires
        0 <= n,
    ensures
        is_time_order(ages, time_order(ages, n), n),
    decreases n,
{
    if n > 0 {
        lemma_time_order(ages, n - 1);
        let older = time_order(ages, n - 1);
        let t = time_of(ages, n - 1);
        let pos = first_later(ages, older, t, 0);
        lemma_first_later(ages, older, t, 0);
        let order = older.insert(pos, n - 1);
        assert(order == time_order(ages, n));
        assert forall|k: int| 0 <= k < order.len() implies 0 <= #[trigger] order[k] < n by {
            if k < pos {
                assert(order[k] == older[k]);
            } else if k > pos {
                assert(order[k] == older[k - 1]);
            }
        }
        assert forall|p: int, q: int| 0 <= p < q < order.len() implies ordered_before(
            ages,
            #[trigger] order[p],
            #[trigger] order[q],
        ) by {
            if q < pos {
                assert(order[p] == older[p] && order[q] == older[q]);
            } else if q == pos {
                assert(order[p] == older[p]);
                assert(time_of(ages, older[p]) <= t);
                assert(older[p] < n - 1);
            } else if p == pos {
                assert(order[q] == older[q - 1]);
                if q - 1 > pos {
                    assert(ordered_before(ages, older[pos], older[q - 1]));
                }
            } else if p < pos {
                assert(order[p] == older[p] && order[q] == older[q - 1]);
            } else {
                assert(order[p] == older[p - 1] && order[q] == older[q - 1]);
            }
        }
        assert forall|i: int| 0 <= i < n implies #[trigger] order.contains(i) by {
            if i == n - 1 {
                assert(order[pos] == i);
            } else {
                assert(older.contains(i));
                let k = choose|k: int| 0 <= k < older.len() && older[k] == i;
                if k < pos {
                    assert(order[k] == i);
                } else {
                    assert(order[k + 1] == i);
                }
            }
        }
    }
}

/// A parent that the search finds stands before the position `j + 1`, is less than
/// the window older than the branch, and is related to it.
pub proof fn lemma_nearest_parent(
    ages: Ages,
    related: Seq<Seq<bool>>,
    order: Seq<int>,
    pos: int,
    j: int,
)
    requires
        nearest_parent(ages, related, order, pos, j) is Some,
    ensures
        exists|k: int|
            0 <= k <= j && nearest_parent(ages, related, order, pos, j) == Some(#[trigger] order[k])
                && within_window(ages, order[k], order[pos]) && related_in(
                related,
                order[k],
                order[pos],
            ),
    decreases j + 1,
{
    if j >= 0 {
        if within_window(ages, order[j], order[pos]) && related_in(related, order[j], order[pos]) {
            assert(nearest_parent(ages, related, order, pos, j) == Some(order[j]));
        } else {
            lemma_nearest_parent(ages, related, order, pos, j - 1);
            let k = choose|k: int|
                0 <= k <= j - 1 && nearest_parent(ages, related, order, pos, j - 1) == Some(
                    #[trigger] order[k],
                ) && within_window(ages, order[k], order[pos]) && related_in(
                    related,
                    order[k],
                    order[pos],
                );
            assert(0 <= k <= j && nearest_parent(ages, related, order, pos, j) == Some(order[k]));
        }
    }
}

/// `(p, c)` are branches that the creation-time strategy may join: `p` comes before
/// `c`, is less than the window older, and is related to it.
pub open spec fn may_join(ages: Ages, related: Seq<Seq<bool>>, p: int, c: int) -> bool {
    &&& 0 <= p < ages.len()
    &&& 0 <= c < ages.len()
    &&& ordered_before(ages, p, c)
    &&& within_window(ages, p, c)
    &&& related_in(related, p, c)
}

/// The edges to the branches at the first positions: at most one for each position
/// but the first, and each between two branches that may be joined.
proof fn lemma_time_edges(ages: Ages, related: Seq<Seq<bool>>, n: int, i: int)
    requires
        0 <= n <= ages.len(),
        0 <= i < time_edges(ages, related, time_order(ages, ages.len() as int), n).len(),
    ensures
        time_edges(ages, related, time_order(ages, ages.len() as int), n).len() <= n - 1,
        exists|p: int, c: int| #[trigger]
            may_join(ages, related, p, c) && time_edges(
                ages,
                related,
                time_order(ages, ages.len() as int),
                n,
            )[i] == (ages[p].0, ages[c].0),
    decreases n,
{
    let order = time_order(ages, ages.len() as int);
    lemma_time_order(ages, ages.len() as int);
    let edges = time_edges(ages, related, order, n);
    if n > 1 {
        let rest = time_edges(ages, related, order, n - 1);
        lemma_time_edges_count(ages, related, order, n - 1);
        if i < rest.len() {
            lemma_time_edges(ages, related, n - 1, i);
            let (p, c) = choose|p: int, c: int| #[trigger]
                may_join(ages, related, p, c) && rest[i] == (ages[p].0, ages[c].0);
            assert(edges[i] == rest[i]);
            assert(may_join(ages, related, p, c) && edges[i] == (ages[p].0, ages[c].0));
        } else {
            lemma_nearest_parent(ages, related, order, n - 1, n - 2);
            let k = choose|k: int|
                0 <= k <= n - 2 && nearest_parent(ages, related, order, n - 1, n - 2) == Some(
                    #[trigger] order[k],
                ) && within_window(ages, order[k], order[n - 1]) && related_in(
                    related,
                    order[k],
                    order[n - 1],
                );
            assert(ordered_before(ages, order[k], order[n - 1]));
            assert(may_join(ages, related, order[k], order[n - 1]));
            assert(edges[i] == (ages[order[k]].0, ages[order[n - 1]].0));
        }
    }
}

/// There is at most one edge for each position but the first.
proof fn lemma_time_edges_count(ages: Ages, related: Seq<Seq<bool>>, order: Seq<int>, n: int)
    ensures
        time_edges(ages, related, order, n).len() <= if n >= 1 {
            n - 1
        } else {
            0
        },
    decreases n,
{
    if n > 1 {
        lemma_time_edges_count(ages, related, order, n - 1);
    }
}

/// Every edge of the creation-time strategy joins a branch to one that comes after
/// it, is less than thirty days younger and shares history with it; and there are
/// fewer edges than branches, since a branch gets one parent at most.
pub proof fn lemma_creation_time_edges(ages: Ages, related: Seq<Seq<bool>>, i: int)
    requires
        0 <= i < creation_time_edges(ages, related).len(),
    ensures
        creation_time_edges(ages, related).len() < ages.len(),
        exists|p: int, c: int| #[trigger]
            may_join(ages, related, p, c) && creation_time_edges(ages, related)[i] == (
                ages[p].0,
                ages[c].0,
            ),
{
    lemma_time_edges(ages, related, ages.len() as int, i);
}

/// Where no two branches share a name, no edge of the creation-time strategy joins
/// a branch to itself.
pub proof fn lemma_creation_time_no_self_loop(ages: Ages, related: Seq<Seq<bool>>, i: int)
    requires
        forall|a: int, b: int| 0 <= a < b < ages.len() ==> (#[trigger] ages[a]).0 != (#[trigger] ages[b]).0,
        0 <= i < creation_time_edges(ages, related).len(),
    ensures
        creation_time_edges(ages, related)[i].0 != creation_time_edges(ages, related)[i].1,
{
    lemma_creation_time_edges(ages, related, i);
    let (p, c) = choose|p: int, c: int| #[trigger]
        may_join(ages, related, p, c) && creation_time_edges(ages, related)[i] == (
            ages[p].0,
            ages[c].0,
        );
    if p < c {
        assert(ages[p].0 != ages[c].0);
    } else if c < p {
        assert(ages[c].0 != ages[p].0);
    }
}

/// Two tables say the same of every pair that the strategy may ask about: a branch
/// and one that is no older and less than the window younger.
pub open spec fn agree_within_window(ages: Ages, r1: Seq<Seq<bool>>, r2: Seq<Seq<bool>>) -> bool {
    forall|a: int, b: int|
        0 <= a < ages.len() && 0 <= b < ages.len() && time_of(ages, a) <= time_of(ages, b)
            && within_window(ages, a, b) ==> #[trigger] related_in(r1, a, b) == #[trigger] related_in(
            r2,
            a,
            b,
        )
}

/// The search for a parent reads the table only for pairs within the window.
proof fn lemma_nearest_parent_agrees(
    ages: Ages,
    r1: Seq<Seq<bool>>,
    r2: Seq<Seq<bool>>,
    order: Seq<int>,
    pos: int,
    j: int,
)
    requires
        is_time_order(ages, order, ages.len() as int),
        agree_within_window(ages, r1, r2),
        0 <= pos < order.len(),
        j < pos,
    ensures
        nearest_parent(ages, r1, order, pos, j) == nearest_parent(ages, r2, order, pos, j),
    decreases j + 1,
{
    if j >= 0 {
        assert(ordered_before(ages, order[j], order[pos]));
        assert(0 <= order[j] < ages.len() && 0 <= order[pos] < ages.len());
        if within_window(ages, order[j], order[pos]) {
            assert(related_in(r1, order[j], order[pos]) == related_in(r2, order[j], order[pos]));
        }
        lemma_nearest_parent_agrees(ages, r1, r2, order, pos, j - 1);
    }
}

/// The edges depend on the table only for pairs within the window.
proof fn lemma_time_edges_agree(ages: Ages, r1: Seq<Seq<bool>>, r2: Seq<Seq<bool>>, n: int)
    requires
        agree_within_window(ages, r1, r2),
        n <= ages.len(),
    ensures
        time_edges(ages, r1, time_order(ages, ages.len() as int), n) == time_edges(
            ages,
            r2,
            time_order(ages, ages.len() as int),
            n,
        ),
    decreases n,
{
    if n > 1 {
        lemma_time_order(ages, ages.len() as int);
        lemma_time_edges_agree(ages, r1, r2, n - 1);
        lemma_nearest_parent_agrees(
            ages,
            r1,
            r2,
            time_order(ages, ages.len() as int),
            n - 1,
            n - 2,
        );
    }
}

/// The creation-time strategy asks only whether a branch shares history with one
/// that is no older and less than thirty days younger: two tables that say the same
/// of these pairs give the same hierarchy.
pub proof fn lemma_creation_time_reads_the_window(ages: Ages, r1: Seq<Seq<bool>>, r2: Seq<Seq<bool>>)
    requires
        agree_within_window(ages, r1, r2),
    ensures
        creation_time_edges(ages, r1) == creation_time_edges(ages, r2),
        creation_time_tree(ages, r1) == creation_time_tree(ages, r2),
{
    lemma_time_edges_agree(ages, r1, r2, ages.len() as int);
}

/// Positions as contracts see them.
pub open spec fn as_ints(order: Seq<usize>) -> Seq<int> {
    Seq::new(order.len(), |i: int| order[i] as int)
}

/// The branches from the oldest to the youngest, as positions in `ages`; of two of
/// the same age the one listed first comes first.
pub fn order_by_time(ages: &Vec<(String, i64)>) -> (order: Vec<usize>)
    ensures
        as_ints(order@) == time_order(ages.deep_view(), ages.len() as int),
        order.len() == ages.len(),
        forall|q: int| 0 <= q < order.len() ==> #[trigger] order[q] < ages.len(),
{
    let n = ages.len();
    let mut order: Vec<usize> = Vec::new();
    let mut k: usize = 0;
    assert(as_ints(order@) =~= time_order(ages.deep_view(), 0));
    while k < n
        invariant
            k <= n,
            n == ages.len(),
            order.len() == k,
            as_ints(order@) == time_order(ages.deep_view(), k as int),
            forall|q: int| 0 <= q < order.len() ==> #[trigger] order[q] < k,
        decreases n - k,
    {
        let t = ages[k].1;
        let ghost older = as_ints(order@);
        let mut p: usize = 0;
        while p < order.len() && ages[order[p]].1 <= t
            invariant
                p <= order.len(),
                n == ages.len(),
                k < n,
                order.len() == k,
                older == as_ints(order@),
                t == ages[k as int].1,
                forall|q: int| 0 <= q < order.len() ==> #[trigger] order[q] < k,
                first_later(ages.deep_view(), older, t as int, 0) == first_later(
                    ages.deep_view(),
                    older,
                    t as int,
                    p as int,
                ),
            decreases order.len() - p,
        {
            assert(ages.deep_view()[order[p as int] as int].1 == ages[order[p as int] as int].1);
            p += 1;
        }
        proof {
            if p < order.len() {
                assert(ages.deep_view()[order[p as int] as int].1 == ages[order[p as int] as int].1);
            }
            assert(first_later(ages.deep_view(), older, t as int, 0) == p);
            assert(ages.deep_view()[k as int].1 == t);
        }
        order.insert(p, k);
        assert(as_ints(order@) =~= older.insert(p as int, k as int));
        k += 1;
    }
    order
}

/// Whether branch `child` is less than the window younger than branch `parent`.
pub(crate) fn is_within_window(ages: &Vec<(String, i64)>, parent: usize, child: usize) -> (b: bool)
    requires
        parent < ages.len(),
        child < ages.len(),
    ensures
        b == within_window(ages.deep_view(), parent as int, child as int),
{
    assert(ages.deep_view()[parent as int].1 == ages[parent as int].1);
    assert(ages.deep_view()[child as int].1 == ages[child as int].1);
    (ages[child].1 as i128) - (ages[parent].1 as i128) < (PARENT_WINDOW_SECS as i128)
}

/// The parent of the branch at position `pos` of `order`: the nearest older branch
/// that is within the window and related, if there is one.
fn find_parent(
    ages: &Vec<(String, i64)>,
    related: &Vec<Vec<bool>>,
    order: &Vec<usize>,
    pos: usize,
) -> (r: Option<usize>)
    requires
        pos < order.len(),
        forall|q: int| 0 <= q < order.len() ==> #[trigger] order[q] < ages.len(),
    ensures
        r matches Some(p) ==> p < ages.len(),
        match r {
            Some(p) => Some(p as int),
            None => None::<int>,
        } == nearest_parent(
            ages.deep_view(),
            related.deep_view(),
            as_ints(order@),
            pos as int,
            pos - 1,
        ),
{
    let mut j: usize = pos;
    while j > 0
        invariant
            j <= pos,
            pos < order.len(),
            forall|q: int| 0 <= q < order.len() ==> #[trigger] order[q] < ages.len(),
            nearest_parent(
                ages.deep_view(),
                related.deep_view(),
                as_ints(order@),
                pos as int,
                pos - 1,
            ) == nearest_parent(
                ages.deep_view(),
                related.deep_view(),
                as_ints(order@),
                pos as int,
                j - 1,
            ),
        decreases j,
    {
        let candidate = order[j - 1];
        let child = order[pos];
        if is_within_window(ages, candidate, child) && descends_at(related, candidate, child) {
            return Some(candidate);
        }
        j -= 1;
    }
    None
}

/// The edges of the creation-time strategy, from the second-oldest branch to the
/// youngest.
pub fn edges_by_creation_time(ages: &Vec<(String, i64)>, related: &Vec<Vec<bool>>) -> (edges: Vec<
    (String, String),
>)
    ensures
        edges.deep_view() == creation_time_edges(ages.deep_view(), related.deep_view()),
{
    let n = ages.len();
    let order = order_by_time(ages);
    let mut edges: Vec<(String, String)> = Vec::new();
    if n <= 1 {
        assert(edges.deep_view() =~= Seq::<Edge>::empty());
        return edges;
    }
    let mut i: usize = 1;
    assert(edges.deep_view() =~= time_edges(
        ages.deep_view(),
        related.deep_view(),
        as_ints(order@),
        1,
    ));
    while i < n
        invariant
            1 <= i <= n,
            n == ages.len(),
            order.len() == n,
            forall|q: int| 0 <= q < order.len() ==> #[trigger] order[q] < ages.len(),
            edges.deep_view() == time_edges(
                ages.deep_view(),
                related.deep_view(),
                as_ints(order@),
                i as int,
            ),
        decreases n - i,
    {
        let ghost before = edges.deep_view();
        match find_parent(ages, related, &order, i) {
            Some(p) => {
                let child = order[i];
                edges.push((ages[p].0.clone(), ages[child].0.clone()));
                assert(edges.deep_view() =~= before.push(
                    (ages.deep_view()[p as int].0, ages.deep_view()[child as int].0),
                ));
            },
            None => {},
        }
        i += 1;
    }
    edges
}

/// The hierarchy of the creation-time strategy.
pub fn tree_by_creation_time(ages: &Vec<(String, i64)>, related: &Vec<Vec<bool>>) -> (t: BranchTree)
    ensures
        t@ == creation_time_tree(ages.deep_view(), related.deep_view()),
{
    let edges = edges_by_creation_time(ages, related);
    BranchTree::from_edges(&edges)
}

} // verus!
