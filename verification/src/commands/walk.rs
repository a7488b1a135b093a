//! The walk of a cascade through the hierarchy, as contracts see it, and what
//! holds of it.
//!
//! The walk starts at each root in turn and goes depth first, child by child. A
//! branch that was met before is not walked from again: this is what ends the
//! walk on a hierarchy with a cycle. The edges that the walk goes along are the
//! merges of the cascade, in order.
use crate::tree::{lemma_filter_push, lemma_key_index};
use crate::tree::{children_of, has_key, key_index, starts_at, Edge, Name, TreeModel};
use vstd::prelude::*;

verus! {

/// How many of the first `n` parents of `m` are not in `done`.
pub open spec fn pending_among(m: TreeModel, done: Set<Name>, n: int) -> nat
    decreases n,
{
    if n <= 0 {
        0
    } else {
        pending_among(m, done, n - 1) + if done.contains(m[n - 1].0) {
            0nat
        } else {
            1nat
        }
    }
}

/// How many parents of `m` were not used as a merge source yet.
pub open spec fn pending(m: TreeModel, done: Set<Name>) -> nat {
    pending_among(m, done, m.len() as int)
}

/// What a walk leaves behind: the edges it went along, in order, and the branches
/// met so far.
pub ghost struct Walk {
    pub edges: Seq<Edge>,
    pub done: Set<Name>,
}

/// The more branches are done, the fewer parents are pending.
pub proof fn lemma_pending_shrinks(m: TreeModel, done: Set<Name>, more: Set<Name>, n: int)
    requires
        done.subset_of(more),
    ensures
        pending_among(m, more, n) <= pending_among(m, done, n),
    decreases n,
{
    if n > 0 {
        lemma_pending_shrinks(m, done, more, n - 1);
    }
}

/// Marking a pending parent as done leaves fewer parents pending.
pub proof fn lemma_pending_drops(m: TreeModel, done: Set<Name>, more: Set<Name>, b: Name, n: int)
    requires
        done.subset_of(more),
        more.contains(b),
        !done.contains(b),
        exists|i: int| 0 <= i < n && i < m.len() && (#[trigger] m[i]).0 == b,
    ensures
        pending_among(m, more, n) < pending_among(m, done, n),
    decreases n,
{
    if n > 0 {
        if m[n - 1].0 == b {
            lemma_pending_shrinks(m, done, more, n - 1);
        } else {
            let i = choose|i: int| 0 <= i < n && i < m.len() && (#[trigger] m[i]).0 == b;
            assert(0 <= i < n - 1 && m[i].0 == b);
            lemma_pending_drops(m, done, more, b, n - 1);
        }
    }
}

/// The walk from `b`: nothing where `b` was met before; else `b` is marked as met,
/// and the walk goes through its children.
pub open spec fn visit(m: TreeModel, b: Name, done: Set<Name>) -> Walk
    decreases pending(m, done), 0nat, 0nat,
{
    if done.contains(b) {
        Walk { edges: Seq::empty(), done }
    } else if !has_key(m, b) {
        Walk { edges: Seq::empty(), done: done.insert(b) }
    } else {
        proof {
            lemma_pending_drops(m, done, done.insert(b), b, m.len() as int);
        }
        visit_children(m, b, children_of(m, b), 0, done.insert(b))
    }
}

/// The walk through the children of `b` from position `from` on: for each child the
/// edge from `b` to it, then the walk from the child, before the next child.
pub open spec fn visit_children(
    m: TreeModel,
    b: Name,
    children: Seq<Name>,
    from: int,
    done: Set<Name>,
) -> Walk
    decreases pending(m, done), 1nat, children.len() - from,
{
    if from < 0 || from >= children.len() {
        Walk { edges: Seq::empty(), done }
    } else {
        let below = visit(m, children[from], done);
        proof {
            lemma_pending_shrinks(m, done, done.union(below.done), m.len() as int);
        }
        let rest = visit_children(m, b, children, from + 1, done.union(below.done));
        Walk { edges: seq![(b, children[from])] + below.edges + rest.edges, done: rest.done }
    }
}

/// The walks from the roots at position `from` on, one after the other.
pub open spec fn visit_roots(m: TreeModel, roots: Seq<Name>, from: int, done: Set<Name>) -> Walk
    decreases roots.len() - from,
{
    if from < 0 || from >= roots.len() {
        Walk { edges: Seq::empty(), done }
    } else {
        let first = visit(m, roots[from], done);
        let rest = visit_roots(m, roots, from + 1, done.union(first.done));
        Walk { edges: first.edges + rest.edges, done: rest.done }
    }
}

/// The merges of a cascade, as edges from the source to the target, in the order in
/// which they are attempted.
pub open spec fn cascade_edges(m: TreeModel, roots: Seq<Name>) -> Seq<Edge> {
    visit_roots(m, roots, 0, Set::empty()).edges
}

/// The edge from `b` to a child.
pub open spec fn edge_from(b: Name) -> spec_fn(Name) -> Edge {
    |c: Name| (b, c)
}

/// The edges from `b` to each of its children, in their order.
pub open spec fn edges_under(m: TreeModel, b: Name) -> Seq<Edge> {
    children_of(m, b).map_values(edge_from(b))
}

/// The edges of `edges` that start at `b`, in their order: the merges with `b` as
/// the source.
pub open spec fn sourced(edges: Seq<Edge>, b: Name) -> Seq<Edge> {
    edges.filter(starts_at(b))
}

/// `x` was met between `before` and `after`.
pub open spec fn is_new(after: Set<Name>, before: Set<Name>, x: Name) -> bool {
    after.contains(x) && !before.contains(x)
}

/// Every branch met between `before` and `after` is the source of each of its edges
/// once, in the order of its children, and no other branch is a source at all.
pub open spec fn accounted(m: TreeModel, edges: Seq<Edge>, before: Set<Name>, after: Set<Name>) -> bool {
    forall|x: Name| #[trigger]
        sourced(edges, x) == if is_new(after, before, x) {
            edges_under(m, x)
        } else {
            Seq::empty()
        }
}

/// The children of every branch met between `before` and `after` were met too.
pub open spec fn closed_over(m: TreeModel, before: Set<Name>, after: Set<Name>) -> bool {
    forall|x: Name, c: Name|
        is_new(after, before, x) && #[trigger] children_of(m, x).contains(c) ==> after.contains(c)
}

/// The edges from `b` to its children from position `from` on.
pub open spec fn tail_edges(b: Name, children: Seq<Name>, from: int) -> Seq<Edge> {
    if from >= children.len() {
        Seq::empty()
    } else {
        Seq::new((children.len() - from) as nat, |j: int| (b, children[from + j]))
    }
}

/// As `accounted`, for a walk through the children of `b`, which adds the edges
/// from `b` itself.
pub open spec fn accounted_under(
    m: TreeModel,
    b: Name,
    children: Seq<Name>,
    from: int,
    edges: Seq<Edge>,
    before: Set<Name>,
    after: Set<Name>,
) -> bool {
    forall|x: Name| #[trigger]
        sourced(edges, x) == if x == b {
            tail_edges(b, children, from)
        } else if is_new(after, before, x) {
            edges_under(m, x)
        } else {
            Seq::empty()
        }
}

/// The edges of one edge that start at `x`.
proof fn lemma_sourced_single(e: Edge, x: Name)
    ensures
        sourced(seq![e], x) == if e.0 == x {
            seq![e]
        } else {
            Seq::<Edge>::empty()
        },
{
    reveal(Seq::filter);
    lemma_filter_push(Seq::<Edge>::empty(), e, starts_at(x));
    assert(Seq::<Edge>::empty().push(e) =~= seq![e]);
    assert(Seq::<Edge>::empty().filter(starts_at(x)) =~= Seq::<Edge>::empty());
}

/// The edges of three runs of edges that start at `x`.
proof fn lemma_sourced_three(a: Seq<Edge>, b: Seq<Edge>, c: Seq<Edge>, x: Name)
    ensures
        sourced(a + b + c, x) == sourced(a, x) + sourced(b, x) + sourced(c, x),
{
    Seq::filter_distributes_over_add(a + b, c, starts_at(x));
    Seq::filter_distributes_over_add(a, b, starts_at(x));
}

/// What a walk from a branch leaves behind: the branch is met, nothing met before
/// is forgotten, the branches newly met are the sources of their edges once each
/// and no other branch is, and the children of the branches newly met are met.
pub proof fn lemma_visit(m: TreeModel, b: Name, done: Set<Name>)
    ensures
        done.subset_of(visit(m, b, done).done),
        visit(m, b, done).done.contains(b),
        accounted(m, visit(m, b, done).edges, done, visit(m, b, done).done),
        closed_over(m, done, visit(m, b, done).done),
    decreases pending(m, done), 0nat, 0nat,
{
    let w = visit(m, b, done);
    if done.contains(b) {
        assert forall|x: Name| #[trigger] sourced(w.edges, x) == Seq::<Edge>::empty() by {
            reveal(Seq::filter);
        }
    } else if !has_key(m, b) {
        assert forall|x: Name| #[trigger]
            sourced(w.edges, x) == if is_new(w.done, done, x) {
                edges_under(m, x)
            } else {
                Seq::empty()
            } by {
            reveal(Seq::filter);
            if is_new(w.done, done, x) {
                assert(x == b);
                assert(edges_under(m, b) =~= Seq::<Edge>::empty());
            }
        }
    } else {
        let cs = children_of(m, b);
        let d1 = done.insert(b);
        lemma_pending_drops(m, done, d1, b, m.len() as int);
        lemma_visit_children(m, b, cs, 0, d1);
        assert forall|x: Name| #[trigger]
            sourced(w.edges, x) == if is_new(w.done, done, x) {
                edges_under(m, x)
            } else {
                Seq::empty()
            } by {
            if x == b {
                assert(tail_edges(b, cs, 0) =~= edges_under(m, b));
            } else {
                assert(is_new(w.done, d1, x) == is_new(w.done, done, x));
            }
        }
        assert forall|x: Name, c: Name|
            is_new(w.done, done, x) && #[trigger] children_of(m, x).contains(
                c,
            ) implies w.done.contains(c) by {
            if x == b {
                let j = choose|j: int| 0 <= j < cs.len() && cs[j] == c;
                assert(w.done.contains(cs[j]));
            } else {
                assert(is_new(w.done, d1, x));
            }
        }
    }
}

/// What a walk through the children of a branch leaves behind, where the branch
/// itself was met before: see `lemma_visit`; and each child from `from` on is met.
pub proof fn lemma_visit_children(
    m: TreeModel,
    b: Name,
    children: Seq<Name>,
    from: int,
    done: Set<Name>,
)
    requires
        done.contains(b),
        0 <= from,
    ensures
        done.subset_of(visit_children(m, b, children, from, done).done),
        forall|j: int|
            from <= j < children.len() ==> visit_children(m, b, children, from, done).done.contains(
                #[trigger] children[j],
            ),
        accounted_under(
            m,
            b,
            children,
            from,
            visit_children(m, b, children, from, done).edges,
            done,
            visit_children(m, b, children, from, done).done,
        ),
        closed_over(m, done, visit_children(m, b, children, from, done).done),
    decreases pending(m, done), 1nat, children.len() - from,
{
    let w = visit_children(m, b, children, from, done);
    if from >= children.len() {
        assert forall|x: Name| #[trigger]
            sourced(w.edges, x) == if x == b {
                tail_edges(b, children, from)
            } else if is_new(w.done, done, x) {
                edges_under(m, x)
            } else {
                Seq::empty()
            } by {
            reveal(Seq::filter);
        }
    } else {
        let c0 = children[from];
        let below = visit(m, c0, done);
        lemma_visit(m, c0, done);
        let d1 = done.union(below.done);
        assert(d1 =~= below.done);
        lemma_pending_shrinks(m, done, d1, m.len() as int);
        let rest = visit_children(m, b, children, from + 1, d1);
        lemma_visit_children(m, b, children, from + 1, d1);
        assert(w.edges == seq![(b, c0)] + below.edges + rest.edges);
        assert(w.done == rest.done);
        assert forall|x: Name| #[trigger]
            sourced(w.edges, x) == if x == b {
                tail_edges(b, children, from)
            } else if is_new(w.done, done, x) {
                edges_under(m, x)
            } else {
                Seq::empty()
            } by {
            lemma_sourced_three(seq![(b, c0)], below.edges, rest.edges, x);
            lemma_sourced_single((b, c0), x);
            let s1 = sourced(seq![(b, c0)], x);
            let s2 = sourced(below.edges, x);
            let s3 = sourced(rest.edges, x);
            if x == b {
                assert(!is_new(below.done, done, x));
                assert(s2 == Seq::<Edge>::empty());
                assert(s3 == tail_edges(b, children, from + 1));
                assert(s1 + s2 + s3 =~= tail_edges(b, children, from));
            } else {
                assert(s1 == Seq::<Edge>::empty());
                if is_new(below.done, done, x) {
                    assert(!is_new(rest.done, d1, x));
                    assert(is_new(w.done, done, x));
                    assert(s1 + s2 + s3 =~= edges_under(m, x));
                } else {
                    assert(is_new(rest.done, d1, x) == is_new(w.done, done, x));
                    assert(s1 + s2 + s3 =~= s3);
                }
            }
        }
        assert forall|x: Name, c: Name|
            is_new(w.done, done, x) && #[trigger] children_of(m, x).contains(
                c,
            ) implies w.done.contains(c) by {
            if is_new(below.done, done, x) {
                assert(below.done.contains(c));
            } else {
                assert(is_new(rest.done, d1, x));
            }
        }
        assert forall|j: int| from <= j < children.len() implies w.done.contains(
            #[trigger] children[j],
        ) by {
            if j == from {
                assert(below.done.contains(c0));
            }
        }
    }
}

/// What the walks from the roots leave behind: see `lemma_visit`; and each root
/// from `from` on is met.
pub proof fn lemma_visit_roots(m: TreeModel, roots: Seq<Name>, from: int, done: Set<Name>)
    requires
        0 <= from,
    ensures
        done.subset_of(visit_roots(m, roots, from, done).done),
        forall|j: int|
            from <= j < roots.len() ==> visit_roots(m, roots, from, done).done.contains(
                #[trigger] roots[j],
            ),
        accounted(m, visit_roots(m, roots, from, done).edges, done, visit_roots(m, roots, from, done).done),
        closed_over(m, done, visit_roots(m, roots, from, done).done),
    decreases roots.len() - from,
{
    let w = visit_roots(m, roots, from, done);
    if from >= roots.len() {
        assert forall|x: Name| #[trigger] sourced(w.edges, x) == Seq::<Edge>::empty() by {
            reveal(Seq::filter);
        }
    } else {
        let first = visit(m, roots[from], done);
        lemma_visit(m, roots[from], done);
        let d1 = done.union(first.done);
        assert(d1 =~= first.done);
        let rest = visit_roots(m, roots, from + 1, d1);
        lemma_visit_roots(m, roots, from + 1, d1);
        assert forall|x: Name| #[trigger]
            sourced(w.edges, x) == if is_new(w.done, done, x) {
                edges_under(m, x)
            } else {
                Seq::empty()
            } by {
            Seq::filter_distributes_over_add(first.edges, rest.edges, starts_at(x));
            let s1 = sourced(first.edges, x);
            let s2 = sourced(rest.edges, x);
            if is_new(first.done, done, x) {
                assert(!is_new(rest.done, d1, x));
                assert(s1 + s2 =~= edges_under(m, x));
            } else {
                assert(is_new(rest.done, d1, x) == is_new(w.done, done, x));
                assert(s1 + s2 =~= s2);
            }
        }
        assert forall|x: Name, c: Name|
            is_new(w.done, done, x) && #[trigger] children_of(m, x).contains(
                c,
            ) implies w.done.contains(c) by {
            if is_new(first.done, done, x) {
                assert(first.done.contains(c));
            } else {
                assert(is_new(rest.done, d1, x));
            }
        }
        assert forall|j: int| from <= j < roots.len() implies w.done.contains(
            #[trigger] roots[j],
        ) by {
            if j == from {
                assert(first.done.contains(roots[from]));
            }
        }
    }
}

/// `path` goes down the hierarchy: every next name is a child of the one before.
pub open spec fn is_path(m: TreeModel, path: Seq<Name>) -> bool {
    &&& path.len() >= 1
    &&& forall|i: int|
        0 <= i < path.len() - 1 ==> children_of(m, #[trigger] path[i]).contains(path[i + 1])
}

/// A path leads from `a` down to `x`.
pub open spec fn connected(m: TreeModel, a: Name, x: Name) -> bool {
    exists|path: Seq<Name>| #[trigger] is_path(m, path) && path[0] == a && path.last() == x
}

/// `b` can be reached from a root along the edges of `m`.
pub open spec fn reachable(m: TreeModel, roots: Seq<Name>, b: Name) -> bool {
    exists|j: int| 0 <= j < roots.len() && connected(m, #[trigger] roots[j], b)
}

/// A branch is connected to what its children are connected to.
proof fn lemma_connected_below(m: TreeModel, b: Name, c: Name, x: Name)
    requires
        children_of(m, b).contains(c),
        connected(m, c, x),
    ensures
        connected(m, b, x),
{
    let path = choose|path: Seq<Name>| #[trigger] is_path(m, path) && path[0] == c && path.last() == x;
    let longer = seq![b] + path;
    assert forall|i: int| 0 <= i < longer.len() - 1 implies children_of(
        m,
        #[trigger] longer[i],
    ).contains(longer[i + 1]) by {
        if i > 0 {
            assert(longer[i] == path[i - 1]);
            assert(longer[i + 1] == path[i]);
        }
    }
    assert(is_path(m, longer) && longer[0] == b && longer.last() == x);
}

/// A branch is connected to itself.
proof fn lemma_connected_self(m: TreeModel, b: Name)
    ensures
        connected(m, b, b),
{
    let path = seq![b];
    assert(is_path(m, path) && path[0] == b && path.last() == b);
}

/// A walk from a branch meets only branches that the branch is connected to.
pub proof fn lemma_visit_sound(m: TreeModel, b: Name, done: Set<Name>, x: Name)
    requires
        is_new(visit(m, b, done).done, done, x),
    ensures
        connected(m, b, x),
    decreases pending(m, done), 0nat, 0nat,
{
    if done.contains(b) {
    } else if !has_key(m, b) {
        lemma_connected_self(m, b);
    } else {
        let cs = children_of(m, b);
        let d1 = done.insert(b);
        if x == b {
            lemma_connected_self(m, b);
        } else {
            lemma_pending_drops(m, done, d1, b, m.len() as int);
            lemma_visit_children_sound(m, b, cs, 0, d1, x);
            let j = choose|j: int| 0 <= j < cs.len() && connected(m, #[trigger] cs[j], x);
            lemma_connected_below(m, b, cs[j], x);
        }
    }
}

/// A walk through children meets only branches that one of the children is
/// connected to.
pub proof fn lemma_visit_children_sound(
    m: TreeModel,
    b: Name,
    children: Seq<Name>,
    from: int,
    done: Set<Name>,
    x: Name,
)
    requires
        0 <= from,
        is_new(visit_children(m, b, children, from, done).done, done, x),
    ensures
        exists|j: int| from <= j < children.len() && connected(m, #[trigger] children[j], x),
    decreases pending(m, done), 1nat, children.len() - from,
{
    if from < children.len() {
        let below = visit(m, children[from], done);
        let d1 = done.union(below.done);
        lemma_pending_shrinks(m, done, d1, m.len() as int);
        if is_new(below.done, done, x) {
            lemma_visit_sound(m, children[from], done, x);
            assert(from <= from < children.len() && connected(m, children[from], x));
        } else {
            lemma_visit_children_sound(m, b, children, from + 1, d1, x);
            let j = choose|j: int| from + 1 <= j < children.len() && connected(m, #[trigger] children[j], x);
            assert(from <= j < children.len() && connected(m, children[j], x));
        }
    }
}

/// The walks from the roots meet only branches that can be reached from a root.
pub proof fn lemma_visit_roots_sound(
    m: TreeModel,
    roots: Seq<Name>,
    from: int,
    done: Set<Name>,
    x: Name,
)
    requires
        0 <= from,
        is_new(visit_roots(m, roots, from, done).done, done, x),
    ensures
        reachable(m, roots, x),
    decreases roots.len() - from,
{
    if from < roots.len() {
        let first = visit(m, roots[from], done);
        let d1 = done.union(first.done);
        if is_new(first.done, done, x) {
            lemma_visit_sound(m, roots[from], done, x);
            assert(0 <= from < roots.len() && connected(m, roots[from], x));
        } else {
            lemma_visit_roots_sound(m, roots, from + 1, d1, x);
        }
    }
}

/// A set that holds the roots and, with each of its names, the children of the
/// name, holds every name of a path that starts at a root.
proof fn lemma_path_is_met(m: TreeModel, path: Seq<Name>, met: Set<Name>, k: int)
    requires
        is_path(m, path),
        met.contains(path[0]),
        closed_over(m, Set::empty(), met),
        0 <= k < path.len(),
    ensures
        met.contains(path[k]),
    decreases k,
{
    if k > 0 {
        lemma_path_is_met(m, path, met, k - 1);
        assert(is_new(met, Set::empty(), path[k - 1]));
        assert(children_of(m, path[k - 1]).contains(path[k]));
    }
}

/// In a cascade every branch that can be reached from a root is the source of the
/// merges into its children exactly once, child by child in their order, whether
/// or not the hierarchy has a cycle and however many roots lead to the branch; and
/// a branch that cannot be reached from a root is the source of no merge.
pub proof fn lemma_cascade_uses_each_source_once(m: TreeModel, roots: Seq<Name>, b: Name)
    ensures
        sourced(cascade_edges(m, roots), b) == if reachable(m, roots, b) {
            edges_under(m, b)
        } else {
            Seq::empty()
        },
{
    let w = visit_roots(m, roots, 0, Set::empty());
    lemma_visit_roots(m, roots, 0, Set::empty());
    assert(sourced(w.edges, b) == if is_new(w.done, Set::empty(), b) {
        edges_under(m, b)
    } else {
        Seq::empty()
    });
    if reachable(m, roots, b) {
        let j = choose|j: int| 0 <= j < roots.len() && connected(m, #[trigger] roots[j], b);
        let path = choose|path: Seq<Name>| #[trigger]
            is_path(m, path) && path[0] == roots[j] && path.last() == b;
        assert(w.done.contains(roots[j]));
        lemma_path_is_met(m, path, w.done, path.len() - 1);
        assert(is_new(w.done, Set::empty(), b));
    }
    if is_new(w.done, Set::empty(), b) {
        lemma_visit_roots_sound(m, roots, 0, Set::empty(), b);
    }
}

/// Every merge of a cascade goes along an edge of the hierarchy.
pub proof fn lemma_cascade_follows_the_hierarchy(m: TreeModel, roots: Seq<Name>, i: int)
    requires
        0 <= i < cascade_edges(m, roots).len(),
    ensures
        children_of(m, cascade_edges(m, roots)[i].0).contains(cascade_edges(m, roots)[i].1),
        reachable(m, roots, cascade_edges(m, roots)[i].0),
{
    let edges = cascade_edges(m, roots);
    let e = edges[i];
    lemma_cascade_uses_each_source_once(m, roots, e.0);
    assert(starts_at(e.0)(edges[i]));
    edges.lemma_filter_contains(starts_at(e.0), i);
    assert(sourced(edges, e.0).contains(e));
    let under = edges_under(m, e.0);
    let k = choose|k: int| 0 <= k < under.len() && under[k] == e;
    assert(children_of(m, e.0)[k] == e.1);
}

/// The source of the edge at position `i` is the target of an edge before it.
pub open spec fn merged_into_before(edges: Seq<Edge>, i: int) -> bool {
    exists|j: int| 0 <= j < i && (#[trigger] edges[j]).1 == edges[i].0
}

/// In a walk from a branch, the source of every edge is that branch or the target
/// of an earlier edge.
pub proof fn lemma_visit_parent_first(m: TreeModel, b: Name, done: Set<Name>, i: int)
    requires
        0 <= i < visit(m, b, done).edges.len(),
    ensures
        visit(m, b, done).edges[i].0 == b || merged_into_before(visit(m, b, done).edges, i),
    decreases pending(m, done), 0nat, 0nat,
{
    if !done.contains(b) && has_key(m, b) {
        lemma_pending_drops(m, done, done.insert(b), b, m.len() as int);
        lemma_visit_children_parent_first(m, b, children_of(m, b), 0, done.insert(b), i);
    }
}

/// In a walk through the children of a branch, the source of every edge is that
/// branch or the target of an earlier edge.
pub proof fn lemma_visit_children_parent_first(
    m: TreeModel,
    b: Name,
    children: Seq<Name>,
    from: int,
    done: Set<Name>,
    i: int,
)
    requires
        0 <= from,
        0 <= i < visit_children(m, b, children, from, done).edges.len(),
    ensures
        visit_children(m, b, children, from, done).edges[i].0 == b || merged_into_before(
            visit_children(m, b, children, from, done).edges,
            i,
        ),
    decreases pending(m, done), 1nat, children.len() - from,
{
    let w = visit_children(m, b, children, from, done);
    if from < children.len() {
        let below = visit(m, children[from], done);
        let d1 = done.union(below.done);
        lemma_pending_shrinks(m, done, d1, m.len() as int);
        let rest = visit_children(m, b, children, from + 1, d1);
        assert(w.edges == seq![(b, children[from])] + below.edges + rest.edges);
        if 1 <= i <= below.edges.len() {
            lemma_visit_parent_first(m, children[from], done, i - 1);
            assert(w.edges[i] == below.edges[i - 1]);
            if below.edges[i - 1].0 == children[from] {
                assert(w.edges[0].1 == w.edges[i].0);
            } else {
                let j = choose|j: int|
                    0 <= j < i - 1 && (#[trigger] below.edges[j]).1 == below.edges[i - 1].0;
                assert(w.edges[j + 1] == below.edges[j]);
            }
        } else if i > below.edges.len() {
            let k = i - 1 - below.edges.len();
            lemma_visit_children_parent_first(m, b, children, from + 1, d1, k);
            assert(w.edges[i] == rest.edges[k]);
            if rest.edges[k].0 != b {
                let j = choose|j: int| 0 <= j < k && (#[trigger] rest.edges[j]).1 == rest.edges[k].0;
                assert(w.edges[j + 1 + below.edges.len()] == rest.edges[j]);
            }
        }
    }
}

/// In the walks from the roots, the source of every edge is a root or the target
/// of an earlier edge.
pub proof fn lemma_visit_roots_parent_first(
    m: TreeModel,
    roots: Seq<Name>,
    from: int,
    done: Set<Name>,
    i: int,
)
    requires
        0 <= from,
        0 <= i < visit_roots(m, roots, from, done).edges.len(),
    ensures
        roots.contains(visit_roots(m, roots, from, done).edges[i].0) || merged_into_before(
            visit_roots(m, roots, from, done).edges,
            i,
        ),
    decreases roots.len() - from,
{
    let w = visit_roots(m, roots, from, done);
    if from < roots.len() {
        let first = visit(m, roots[from], done);
        let d1 = done.union(first.done);
        let rest = visit_roots(m, roots, from + 1, d1);
        if i < first.edges.len() {
            lemma_visit_parent_first(m, roots[from], done, i);
            assert(w.edges[i] == first.edges[i]);
            if first.edges[i].0 == roots[from] {
                assert(roots.contains(roots[from]));
            } else {
                let j = choose|j: int| 0 <= j < i && (#[trigger] first.edges[j]).1 == first.edges[i].0;
                assert(w.edges[j] == first.edges[j]);
            }
        } else {
            let k = i - first.edges.len();
            lemma_visit_roots_parent_first(m, roots, from + 1, d1, k);
            assert(w.edges[i] == rest.edges[k]);
            if !roots.contains(rest.edges[k].0) {
                let j = choose|j: int| 0 <= j < k && (#[trigger] rest.edges[j]).1 == rest.edges[k].0;
                assert(w.edges[j + first.edges.len()] == rest.edges[j]);
            }
        }
    }
}

/// In a cascade no branch is merged from before it was merged into, unless it is a
/// root: the source of every merge is a root or the target of an earlier merge.
pub proof fn lemma_cascade_merges_parents_first(m: TreeModel, roots: Seq<Name>, i: int)
    requires
        0 <= i < cascade_edges(m, roots).len(),
    ensures
        roots.contains(cascade_edges(m, roots)[i].0) || merged_into_before(
            cascade_edges(m, roots),
            i,
        ),
{
    lemma_visit_roots_parent_first(m, roots, 0, Set::empty(), i);
}

/// The walk from a single branch, with no branch met before: every branch that the
/// start is connected to, the start among them, is the source of the merges into
/// its children exactly once, child by child in their order; no other branch is a
/// source; and the branches met are exactly those that the start is connected to.
pub proof fn lemma_walk_uses_each_source_once(m: TreeModel, b: Name, x: Name)
    ensures
        sourced(visit(m, b, Set::empty()).edges, x) == if connected(m, b, x) {
            edges_under(m, x)
        } else {
            Seq::empty()
        },
        visit(m, b, Set::empty()).done.contains(x) <==> connected(m, b, x),
{
    let none = Set::<Name>::empty();
    let w = visit(m, b, none);
    lemma_visit(m, b, none);
    assert(sourced(w.edges, x) == if is_new(w.done, none, x) {
        edges_under(m, x)
    } else {
        Seq::empty()
    });
    if connected(m, b, x) {
        let path = choose|path: Seq<Name>| #[trigger] is_path(m, path) && path[0] == b && path.last() == x;
        lemma_path_is_met(m, path, w.done, path.len() - 1);
    }
    if w.done.contains(x) {
        lemma_visit_sound(m, b, none, x);
    }
}

/// A hierarchy of a single edge is walked along that edge, whether or not its
/// branches exist anywhere else: the walk reads the hierarchy alone.
pub proof fn lemma_single_edge_cascade(p: Name, c: Name)
    ensures
        cascade_edges(seq![(p, seq![c])], seq![p]) == seq![(p, c)],
{
    let m: TreeModel = seq![(p, seq![c])];
    let none = Set::<Name>::empty();
    assert(m[0].0 == p);
    lemma_key_index(m, p, 0);
    let children = children_of(m, p);
    assert(children == seq![c]);
    let d1 = none.insert(p);
    let below = visit(m, c, d1);
    assert(below.edges == Seq::<Edge>::empty()) by {
        if c != p {
            if has_key(m, c) {
                let i = key_index(m, c);
                assert(m[i].0 == c);
            }
        }
    }
    let d2 = d1.union(below.done);
    let rest = visit_children(m, p, children, 1, d2);
    assert(rest.edges == Seq::<Edge>::empty());
    let under = visit_children(m, p, children, 0, d1);
    assert(under.edges =~= seq![(p, c)]);
    let first = visit(m, p, none);
    assert(first.edges == under.edges);
    let roots = seq![p];
    let after = visit_roots(m, roots, 1, none.union(first.done));
    assert(after.edges == Seq::<Edge>::empty());
    assert(visit_roots(m, roots, 0, none).edges =~= seq![(p, c)]);
}

} // verus!
