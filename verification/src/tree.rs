//! The branch hierarchy: parents with their children, both in the order in which
//! they were recorded.
//!
//! Contracts speak of a tree through its view, a sequence of entries. An entry is a
//! parent name with the sequence of its children. No parent occurs in two entries.
use vstd::prelude::*;

verus! {

/// A branch name as contracts see it.
pub type Name = Seq<char>;

/// A directed edge of the hierarchy: the parent, then the child.
pub type Edge = (Seq<char>, Seq<char>);

/// A hierarchy as contracts see it: one entry for each parent.
pub type TreeModel = Seq<(Seq<char>, Seq<Seq<char>>)>;

/// `k` heads some entry of `m`.
pub open spec fn has_key<V>(m: Seq<(Seq<char>, V)>, k: Name) -> bool {
    exists|i: int| 0 <= i < m.len() && (#[trigger] m[i]).0 == k
}

/// The position of an entry of `m` that `k` heads, if there is one.
pub open spec fn key_index<V>(m: Seq<(Seq<char>, V)>, k: Name) -> int {
    choose|i: int| 0 <= i < m.len() && (#[trigger] m[i]).0 == k
}

/// The children recorded for `k`; none where `k` is no parent.
pub open spec fn children_of(m: TreeModel, k: Name) -> Seq<Name> {
    if has_key(m, k) {
        m[key_index(m, k)].1
    } else {
        Seq::empty()
    }
}

/// No name heads two entries.
pub open spec fn distinct_keys<V>(m: Seq<(Seq<char>, V)>) -> bool {
    forall|i: int, j: int| 0 <= i < j < m.len() ==> (#[trigger] m[i]).0 != (#[trigger] m[j]).0
}

/// `c` occurs in the children of some entry.
pub open spec fn is_child(m: TreeModel, c: Name) -> bool {
    exists|i: int| 0 <= i < m.len() && (#[trigger] m[i]).1.contains(c)
}

/// The parents, in entry order.
pub open spec fn tree_keys(m: TreeModel) -> Seq<Name> {
    Seq::new(m.len(), |i: int| m[i].0)
}

/// `m` after recording `c` as one more child of `p`: at the end of `p`'s children,
/// or as a new last entry where `p` had none.
pub open spec fn with_child(m: TreeModel, p: Name, c: Name) -> TreeModel {
    if has_key(m, p) {
        let i = key_index(m, p);
        m.update(i, (p, m[i].1.push(c)))
    } else {
        m.push((p, seq![c]))
    }
}

/// `m` after setting what stands under `p` to `cs`: in place where `p` has an
/// entry, as a new last entry otherwise.
pub open spec fn with_entry<V>(m: Seq<(Seq<char>, V)>, p: Name, cs: V) -> Seq<(Seq<char>, V)> {
    if has_key(m, p) {
        m.update(key_index(m, p), (p, cs))
    } else {
        m.push((p, cs))
    }
}

/// `m` after removing every occurrence of `c` from the children of `p`; an entry
/// left without children goes too.
pub open spec fn without_child(m: TreeModel, p: Name, c: Name) -> TreeModel {
    if has_key(m, p) {
        let i = key_index(m, p);
        let rest = m[i].1.filter(other_than(c));
        if rest.len() == 0 {
            m.remove(i)
        } else {
            m.update(i, (p, rest))
        }
    } else {
        m
    }
}

/// The hierarchy that recording the edges of `edges` one after the other builds.
pub open spec fn tree_from_edges(edges: Seq<Edge>) -> TreeModel
    decreases edges.len(),
{
    if edges.len() == 0 {
        Seq::empty()
    } else {
        with_child(tree_from_edges(edges.drop_last()), edges.last().0, edges.last().1)
    }
}

/// The edges under the first `n` children of entry `i`, in order.
pub open spec fn entry_edges(m: TreeModel, i: int, n: int) -> Seq<Edge> {
    Seq::new(n as nat, |j: int| (m[i].0, m[i].1[j]))
}

/// Every edge of the first `n` entries: entry by entry, child by child.
pub open spec fn tree_edges(m: TreeModel, n: int) -> Seq<Edge>
    decreases n,
{
    if n <= 0 {
        Seq::empty()
    } else {
        tree_edges(m, n - 1) + entry_edges(m, n - 1, m[n - 1].1.len() as int)
    }
}

/// `(p, c)` is an edge of `m`.
pub open spec fn has_edge(m: TreeModel, p: Name, c: Name) -> bool {
    children_of(m, p).contains(c)
}

/// Where no name heads two entries, the entry of a name is found at its one position.
pub proof fn lemma_key_index<V>(m: Seq<(Seq<char>, V)>, k: Name, i: int)
    requires
        distinct_keys(m),
        0 <= i < m.len(),
        m[i].0 == k,
    ensures
        has_key(m, k),
        key_index(m, k) == i,
{
    let j = key_index(m, k);
    assert(0 <= j < m.len() && m[j].0 == k);
    if j < i {
        assert(m[j].0 != m[i].0);
    } else if i < j {
        assert(m[i].0 != m[j].0);
    }
}

/// The test that an edge starts at `p`.
pub open spec fn starts_at(p: Name) -> spec_fn(Edge) -> bool {
    |e: Edge| e.0 == p
}

/// The end of an edge.
pub open spec fn edge_end() -> spec_fn(Edge) -> Name {
    |e: Edge| e.1
}

/// The test that a name is another than `c`.
pub open spec fn other_than(c: Name) -> spec_fn(Name) -> bool {
    |x: Name| x != c
}

/// The children that the edges of `edges` give to `p`, in the order of the edges.
pub open spec fn edge_children(edges: Seq<Edge>, p: Name) -> Seq<Name> {
    edges.filter(starts_at(p)).map_values(edge_end())
}

/// Recording one more child keeps the parents apart, extends the children of that
/// parent alone, and makes no other name a parent.
pub proof fn lemma_with_child(m: TreeModel, p: Name, c: Name, q: Name)
    requires
        distinct_keys(m),
    ensures
        distinct_keys(with_child(m, p, c)),
        has_key(with_child(m, p, c), q) <==> (has_key(m, q) || q == p),
        children_of(with_child(m, p, c), q) == if q == p {
            children_of(m, p).push(c)
        } else {
            children_of(m, q)
        },
{
    let w = with_child(m, p, c);
    if has_key(m, p) {
        let i = key_index(m, p);
        assert(w.len() == m.len());
        assert forall|a: int, b: int| 0 <= a < b < w.len() implies (#[trigger] w[a]).0 != (
        #[trigger] w[b]).0 by {
            assert(w[a].0 == m[a].0);
            assert(w[b].0 == m[b].0);
        }
        lemma_key_index(w, p, i);
        if has_key(m, q) {
            let j = key_index(m, q);
            assert(w[j].0 == q);
            lemma_key_index(w, q, j);
            lemma_key_index(m, q, j);
        } else if has_key(w, q) {
            let j = key_index(w, q);
            assert(m[j].0 == q);
        }
    } else {
        assert forall|a: int, b: int| 0 <= a < b < w.len() implies (#[trigger] w[a]).0 != (
        #[trigger] w[b]).0 by {
            if b == m.len() {
                assert(w[a] == m[a]);
            } else {
                assert(w[a] == m[a]);
                assert(w[b] == m[b]);
            }
        }
        lemma_key_index(w, p, m.len() as int);
        assert(seq![c] =~= Seq::<Name>::empty().push(c));
        if has_key(m, q) {
            let j = key_index(m, q);
            assert(w[j] == m[j]);
            lemma_key_index(w, q, j);
            lemma_key_index(m, q, j);
        } else if has_key(w, q) {
            let j = key_index(w, q);
            if j < m.len() {
                assert(m[j] == w[j]);
            }
        }
    }
}

/// Striking a child keeps the parents apart, strikes the child from the children of
/// that parent alone, and leaves every other parent with its children.
pub proof fn lemma_without_child(m: TreeModel, p: Name, c: Name, q: Name)
    requires
        distinct_keys(m),
    ensures
        distinct_keys(without_child(m, p, c)),
        children_of(without_child(m, p, c), q) == if q == p {
            children_of(m, p).filter(other_than(c))
        } else {
            children_of(m, q)
        },
        !has_edge(without_child(m, p, c), p, c),
{
    let w = without_child(m, p, c);
    if has_key(m, p) {
        let i = key_index(m, p);
        let rest = m[i].1.filter(other_than(c));
        if rest.contains(c) {
            let k = choose|k: int| 0 <= k < rest.len() && rest[k] == c;
            m[i].1.lemma_filter_pred(other_than(c), k);
        }
        if rest.len() == 0 {
            assert forall|a: int, b: int| 0 <= a < b < w.len() implies (#[trigger] w[a]).0 != (
            #[trigger] w[b]).0 by {
                let a0 = if a < i {
                    a
                } else {
                    a + 1
                };
                let b0 = if b < i {
                    b
                } else {
                    b + 1
                };
                assert(w[a] == m[a0] && w[b] == m[b0]);
            }
            if has_key(w, p) {
                let j = key_index(w, p);
                let j0 = if j < i {
                    j
                } else {
                    j + 1
                };
                assert(w[j] == m[j0]);
                lemma_key_index(m, p, j0);
            }
            if q != p {
                if has_key(m, q) {
                    let j = key_index(m, q);
                    let j1 = if j < i {
                        j
                    } else {
                        j - 1
                    };
                    assert(w[j1] == m[j]);
                    lemma_key_index(w, q, j1);
                } else if has_key(w, q) {
                    let j = key_index(w, q);
                    let j0 = if j < i {
                        j
                    } else {
                        j + 1
                    };
                    assert(w[j] == m[j0]);
                }
            }
        } else {
            assert forall|a: int, b: int| 0 <= a < b < w.len() implies (#[trigger] w[a]).0 != (
            #[trigger] w[b]).0 by {
                assert(w[a].0 == m[a].0);
                assert(w[b].0 == m[b].0);
            }
            lemma_key_index(w, p, i);
            if q != p {
                if has_key(m, q) {
                    let j = key_index(m, q);
                    assert(w[j] == m[j]);
                    lemma_key_index(w, q, j);
                } else if has_key(w, q) {
                    let j = key_index(w, q);
                    assert(m[j].0 == q);
                }
            }
        }
    } else {
        reveal(Seq::filter);
    }
}

/// A tree built from edges keeps its parents apart, has as parents the names that
/// start an edge, and lists under each parent the ends of its edges, in their order.
pub proof fn lemma_tree_from_edges(edges: Seq<Edge>, q: Name)
    ensures
        distinct_keys(tree_from_edges(edges)),
        has_key(tree_from_edges(edges), q) <==> exists|i: int|
            0 <= i < edges.len() && (#[trigger] edges[i]).0 == q,
        children_of(tree_from_edges(edges), q) == edge_children(edges, q),
    decreases edges.len(),
{
    let from_q = starts_at(q);
    if edges.len() == 0 {
        reveal(Seq::filter);
        assert(edges.filter(from_q) =~= Seq::<Edge>::empty());
        assert(edge_children(edges, q) =~= Seq::<Name>::empty());
    } else {
        let rest = edges.drop_last();
        let last = edges.last();
        lemma_tree_from_edges(rest, q);
        lemma_tree_from_edges(rest, last.0);
        lemma_with_child(tree_from_edges(rest), last.0, last.1, q);
        assert(edges =~= rest.push(last));
        lemma_filter_push(rest, last, from_q);
        if last.0 == q {
            assert(edges.filter(from_q).map_values(edge_end()) =~= rest.filter(
                from_q,
            ).map_values(edge_end()).push(last.1));
            assert(edges[edges.len() - 1].0 == q);
        } else {
            if has_key(tree_from_edges(rest), q) {
                let i = choose|i: int| 0 <= i < rest.len() && (#[trigger] rest[i]).0 == q;
                assert(edges[i].0 == q);
            }
            if exists|i: int| 0 <= i < edges.len() && (#[trigger] edges[i]).0 == q {
                let i = choose|i: int| 0 <= i < edges.len() && (#[trigger] edges[i]).0 == q;
                assert(rest[i].0 == q);
            }
        }
    }
}

/// A tree built from edges has exactly these edges.
pub proof fn lemma_tree_from_edges_has_edge(edges: Seq<Edge>, p: Name, c: Name)
    ensures
        has_edge(tree_from_edges(edges), p, c) <==> edges.contains((p, c)),
{
    lemma_tree_from_edges(edges, p);
    let from_p = edges.filter(starts_at(p));
    let ends = from_p.map_values(edge_end());
    if ends.contains(c) {
        let k = choose|k: int| 0 <= k < ends.len() && ends[k] == c;
        edges.lemma_filter_pred(starts_at(p), k);
        assert(from_p.contains(from_p[k]));
        edges.lemma_filter_contains_rev(starts_at(p), from_p[k]);
        assert(from_p[k] == (p, c));
    }
    if edges.contains((p, c)) {
        let i = choose|i: int| 0 <= i < edges.len() && edges[i] == (p, c);
        edges.lemma_filter_contains(starts_at(p), i);
        let k = choose|k: int| 0 <= k < from_p.len() && from_p[k] == (p, c);
        assert(ends[k] == c);
    }
}

/// Whether two names are the same, character by character.
pub fn same_name(a: &str, b: &str) -> (r: bool)
    ensures
        r == (a@ == b@),
{
    let x = a.as_bytes();
    let y = b.as_bytes();
    proof {
        vstd::utf8::encode_utf8_decode_utf8(a@);
        vstd::utf8::encode_utf8_decode_utf8(b@);
    }
    if x.len() != y.len() {
        return false;
    }
    let n = x.len();
    let mut i: usize = 0;
    while i < n
        invariant
            i <= n,
            n == x.len(),
            n == y.len(),
            x@ == vstd::utf8::encode_utf8(a@),
            y@ == vstd::utf8::encode_utf8(b@),
            forall|k: int| 0 <= k < i ==> x[k] == y[k],
        decreases n - i,
    {
        if x[i] != y[i] {
            assert(x@[i as int] != y@[i as int]);
            return false;
        }
        i += 1;
    }
    assert(x@ =~= y@);
    true
}

/// Whether `name` occurs in `names`.
pub fn contains_name(names: &Vec<String>, name: &str) -> (r: bool)
    ensures
        r == names.deep_view().contains(name@),
{
    let mut i: usize = 0;
    while i < names.len()
        invariant
            i <= names.len(),
            forall|k: int| 0 <= k < i ==> names.deep_view()[k] != name@,
        decreases names.len() - i,
    {
        if same_name(names[i].as_str(), name) {
            assert(names.deep_view()[i as int] == name@);
            return true;
        }
        i += 1;
    }
    false
}

/// A copy of `names`.
pub fn clone_names(names: &Vec<String>) -> (r: Vec<String>)
    ensures
        r.deep_view() == names.deep_view(),
{
    let mut out: Vec<String> = Vec::new();
    let mut i: usize = 0;
    while i < names.len()
        invariant
            i <= names.len(),
            out.len() == i,
            forall|k: int| 0 <= k < i ==> out[k]@ == names[k]@,
        decreases names.len() - i,
    {
        out.push(names[i].clone());
        i += 1;
    }
    assert(out.deep_view() =~= names.deep_view());
    out
}

/// Filtering after one more item: the item is kept or dropped, the rest is as before.
pub proof fn lemma_filter_push<A>(s: Seq<A>, x: A, pred: spec_fn(A) -> bool)
    ensures
        s.push(x).filter(pred) == if pred(x) {
            s.filter(pred).push(x)
        } else {
            s.filter(pred)
        },
{
    reveal(Seq::filter);
    assert(s.push(x).drop_last() =~= s);
}

/// `names` without the occurrences of `name`.
pub fn without_name(names: &Vec<String>, name: &str) -> (r: Vec<String>)
    ensures
        r.deep_view() == names.deep_view().filter(other_than(name@)),
{
    let ghost keep = other_than(name@);
    let mut out: Vec<String> = Vec::new();
    let mut i: usize = 0;
    proof {
        reveal(Seq::filter);
        assert(names.deep_view().take(0) =~= Seq::<Name>::empty());
        assert(out.deep_view() =~= Seq::<Name>::empty());
    }
    while i < names.len()
        invariant
            i <= names.len(),
            keep == other_than(name@),
            out.deep_view() == names.deep_view().take(i as int).filter(keep),
        decreases names.len() - i,
    {
        let ghost before = out.deep_view();
        proof {
            lemma_filter_push(names.deep_view().take(i as int), names.deep_view()[i as int], keep);
            assert(names.deep_view().take(i as int).push(names.deep_view()[i as int])
                =~= names.deep_view().take(i + 1));
        }
        if !same_name(names[i].as_str(), name) {
            out.push(names[i].clone());
            assert(out.deep_view() =~= before.push(names.deep_view()[i as int]));
        }
        i += 1;
    }
    assert(names.deep_view().take(i as int) =~= names.deep_view());
    out
}

/// One parent with its children.
pub struct TreeEntry {
    pub parent: String,
    pub children: Vec<String>,
}

impl View for TreeEntry {
    type V = (Seq<char>, Seq<Seq<char>>);

    open spec fn view(&self) -> (Seq<char>, Seq<Seq<char>>) {
        (self.parent@, self.children.deep_view())
    }
}

/// A mapping from each parent branch to the ordered list of its children.
pub struct BranchTree {
    entries: Vec<TreeEntry>,
}

/// The entries as contracts see them.
pub open spec fn entries_model(entries: Seq<TreeEntry>) -> TreeModel {
    Seq::new(entries.len(), |i: int| entries[i]@)
}

impl View for BranchTree {
    type V = TreeModel;

    closed spec fn view(&self) -> TreeModel {
        entries_model(self.entries@)
    }
}

impl BranchTree {
    #[verifier::type_invariant]
    spec fn keys_are_distinct(self) -> bool {
        distinct_keys(self@)
    }

    /// The hierarchy without entries.
    pub fn new() -> (t: Self)
        ensures
            t@ == TreeModel::empty(),
    {
        let t = BranchTree { entries: Vec::new() };
        assert(t@ =~= TreeModel::empty());
        t
    }

    /// The number of entries, that is of parents.
    pub fn len(&self) -> (n: usize)
        ensures
            n == self@.len(),
    {
        self.entries.len()
    }

    /// Whether there is no entry.
    pub fn is_empty(&self) -> (b: bool)
        ensures
            b == (self@.len() == 0),
    {
        self.entries.len() == 0
    }

    /// States what holds of every tree: no parent has two entries.
    pub fn keys_distinct(&self)
        ensures
            distinct_keys(self@),
    {
        proof {
            use_type_invariant(self);
        }
    }

    /// The entry at position `i`, if there are that many.
    pub fn entry(&self, i: usize) -> (r: Option<&TreeEntry>)
        ensures
            i < self@.len() ==> (r matches Some(e) && e@ == self@[i as int]),
            i >= self@.len() ==> r is None,
    {
        if i < self.entries.len() {
            Some(&self.entries[i])
        } else {
            None
        }
    }

    /// The position of the entry of `name`.
    fn position(&self, name: &str) -> (r: Option<usize>)
        ensures
            match r {
                Some(i) => i < self@.len() && self@[i as int].0 == name@ && i == key_index(
                    self@,
                    name@,
                ),
                None => !has_key(self@, name@),
            },
    {
        proof {
            use_type_invariant(self);
        }
        let mut i: usize = 0;
        while i < self.entries.len()
            invariant
                i <= self.entries.len(),
                distinct_keys(self@),
                forall|k: int| 0 <= k < i ==> (#[trigger] self@[k]).0 != name@,
            decreases self.entries.len() - i,
        {
            if same_name(self.entries[i].parent.as_str(), name) {
                proof {
                    lemma_key_index(self@, name@, i as int);
                }
                return Some(i);
            }
            i += 1;
        }
        None
    }

    /// Whether `name` is a parent.
    pub fn contains_key(&self, name: &str) -> (b: bool)
        ensures
            b == has_key(self@, name@),
    {
        self.position(name).is_some()
    }

    /// The children of `name`, where it is a parent.
    pub fn get(&self, name: &str) -> (r: Option<&Vec<String>>)
        ensures
            r is Some <==> has_key(self@, name@),
            r matches Some(v) ==> v.deep_view() == children_of(self@, name@),
    {
        match self.position(name) {
            Some(i) => Some(&self.entries[i].children),
            None => None,
        }
    }

    /// Moves the entries out and leaves the tree empty.
    fn take_entries(&mut self) -> (entries: Vec<TreeEntry>)
        ensures
            final(self)@.len() == 0,
            entries_model(entries@) == old(self)@,
    {
        let mut entries: Vec<TreeEntry> = Vec::new();
        core::mem::swap(&mut self.entries, &mut entries);
        entries
    }

    /// Makes `entries` the entries of the tree.
    fn put_entries(&mut self, entries: Vec<TreeEntry>)
        requires
            distinct_keys(entries_model(entries@)),
        ensures
            final(self)@ == entries_model(entries@),
    {
        self.entries = entries;
    }

    /// Records `child` as one more child of `parent`.
    pub fn add_child(&mut self, parent: String, child: String)
        ensures
            final(self)@ == with_child(old(self)@, parent@, child@),
    {
        proof {
            use_type_invariant(&*self);
        }
        let found = self.position(parent.as_str());
        let mut entries = self.take_entries();
        match found {
            Some(i) => {
                let mut entry = entries.remove(i);
                entry.children.push(child);
                entries.insert(i, entry);
            },
            None => {
                let mut children: Vec<String> = Vec::new();
                children.push(child);
                entries.push(TreeEntry { parent, children });
            },
        }
        assert(entries_model(entries@) =~= with_child(old(self)@, parent@, child@)) by {
            if let Some(i) = found {
                assert(entries@[i as int]@.1 =~= old(self)@[i as int].1.push(child@));
            } else {
                assert(entries@.last()@.1 =~= seq![child@]);
            }
        }
        self.put_entries(entries);
    }

    /// Sets the children of `parent`, in place of those it had.
    pub fn insert(&mut self, parent: String, children: Vec<String>)
        ensures
            final(self)@ == with_entry(old(self)@, parent@, children.deep_view()),
    {
        proof {
            use_type_invariant(&*self);
        }
        let found = self.position(parent.as_str());
        let mut entries = self.take_entries();
        match found {
            Some(i) => {
                let _ = entries.remove(i);
                entries.insert(i, TreeEntry { parent, children });
            },
            None => {
                entries.push(TreeEntry { parent, children });
            },
        }
        assert(entries_model(entries@) =~= with_entry(
            old(self)@,
            parent@,
            children.deep_view(),
        ));
        self.put_entries(entries);
    }

    /// Removes `child` from the children of `parent`, and `parent` with it where no
    /// child is left.
    pub fn remove_child(&mut self, parent: &str, child: &str)
        ensures
            final(self)@ == without_child(old(self)@, parent@, child@),
    {
        proof {
            use_type_invariant(&*self);
        }
        let found = self.position(parent);
        if let Some(i) = found {
            let mut entries = self.take_entries();
            let entry = entries.remove(i);
            let rest = without_name(&entry.children, child);
            if rest.len() > 0 {
                entries.insert(i, TreeEntry { parent: entry.parent, children: rest });
            }
            assert(entries_model(entries@) =~= without_child(old(self)@, parent@, child@));
            self.put_entries(entries);
        }
    }

    /// Whether `name` is a child of some parent.
    pub fn is_child(&self, name: &str) -> (b: bool)
        ensures
            b == is_child(self@, name@),
    {
        let mut i: usize = 0;
        while i < self.entries.len()
            invariant
                i <= self.entries.len(),
                forall|k: int| 0 <= k < i ==> !(#[trigger] self@[k]).1.contains(name@),
            decreases self.entries.len() - i,
        {
            if contains_name(&self.entries[i].children, name) {
                assert(self@[i as int].1.contains(name@));
                return true;
            }
            i += 1;
        }
        false
    }

    /// The parents, in entry order.
    pub fn keys(&self) -> (v: Vec<String>)
        ensures
            v.deep_view() == tree_keys(self@),
    {
        let mut out: Vec<String> = Vec::new();
        let mut i: usize = 0;
        while i < self.entries.len()
            invariant
                i <= self.entries.len(),
                out.len() == i,
                forall|k: int| 0 <= k < i ==> out[k]@ == self@[k].0,
            decreases self.entries.len() - i,
        {
            out.push(self.entries[i].parent.clone());
            i += 1;
        }
        assert(out.deep_view() =~= tree_keys(self@));
        out
    }

    /// Every edge, entry by entry and child by child.
    pub fn edges(&self) -> (v: Vec<(String, String)>)
        ensures
            v.deep_view() == tree_edges(self@, self@.len() as int),
    {
        let mut out: Vec<(String, String)> = Vec::new();
        let mut i: usize = 0;
        assert(out.deep_view() =~= tree_edges(self@, 0));
        while i < self.entries.len()
            invariant
                i <= self.entries.len(),
                out.deep_view() == tree_edges(self@, i as int),
            decreases self.entries.len() - i,
        {
            let entry = &self.entries[i];
            let ghost base = out.deep_view();
            let mut j: usize = 0;
            assert(out.deep_view() =~= base + entry_edges(self@, i as int, 0));
            while j < entry.children.len()
                invariant
                    i < self.entries.len(),
                    entry == &self.entries[i as int],
                    j <= entry.children.len(),
                    out.deep_view() == base + entry_edges(self@, i as int, j as int),
                decreases entry.children.len() - j,
            {
                let ghost before = out.deep_view();
                out.push((entry.parent.clone(), entry.children[j].clone()));
                assert(out.deep_view() =~= before.push((self@[i as int].0, self@[i as int].1[j as int])));
                assert(out.deep_view() =~= base + entry_edges(self@, i as int, j + 1));
                j += 1;
            }
            i += 1;
        }
        out
    }

    /// The tree that recording `edges` one after the other builds.
    pub fn from_edges(edges: &Vec<(String, String)>) -> (t: Self)
        ensures
            t@ == tree_from_edges(edges.deep_view()),
    {
        let mut t = BranchTree::new();
        let mut i: usize = 0;
        assert(edges.deep_view().take(0) =~= Seq::<Edge>::empty());
        while i < edges.len()
            invariant
                i <= edges.len(),
                t@ == tree_from_edges(edges.deep_view().take(i as int)),
            decreases edges.len() - i,
        {
            proof {
                let next = edges.deep_view().take(i + 1);
                assert(next.drop_last() =~= edges.deep_view().take(i as int));
                assert(next.last() == edges.deep_view()[i as int]);
            }
            t.add_child(edges[i].0.clone(), edges[i].1.clone());
            i += 1;
        }
        assert(edges.deep_view().take(i as int) =~= edges.deep_view());
        t
    }
}

impl Clone for BranchTree {
    fn clone(&self) -> (t: Self)
        ensures
            t@ == self@,
    {
        proof {
            use_type_invariant(self);
        }
        let mut entries: Vec<TreeEntry> = Vec::new();
        let mut i: usize = 0;
        while i < self.entries.len()
            invariant
                i <= self.entries.len(),
                entries.len() == i,
                forall|k: int| 0 <= k < i ==> entries[k]@ == self@[k],
            decreases self.entries.len() - i,
        {
            let entry = &self.entries[i];
            entries.push(
                TreeEntry { parent: entry.parent.clone(), children: clone_names(&entry.children) },
            );
            i += 1;
        }
        assert(entries_model(entries@) =~= self@);
        BranchTree { entries }
    }
}

} // verus!
