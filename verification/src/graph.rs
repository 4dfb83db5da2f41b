//! The pinned dependency graph and its ordering algorithms.
//!
//! Nodes are pinned packages; an edge runs from a dependent to one of its
//! dependencies and is labeled with the dependency name declared by the
//! dependent (which may differ from the target package's own name when the
//! declaration carries an alias).

use vstd::prelude::*;
use vstd::seq_lib::*;

use crate::error::Error;
use crate::source::Pinned;
use crate::source::PinnedView;

verus! {

/// An edge from a dependent package to one of its dependencies, labeled
/// with the declared dependency name.
#[derive(Debug)]
pub struct GraphEdge {
    /// Index of the dependent node.
    pub from: usize,
    /// Index of the dependency node.
    pub to: usize,
    /// The declared dependency name labeling this edge.
    pub name: String,
}

/// A directed graph of pinned packages.
#[derive(Debug)]
pub struct Graph {
    pub nodes: Vec<Pinned>,
    pub edges: Vec<GraphEdge>,
}

pub ghost struct GraphEdgeView {
    pub from: int,
    pub to: int,
    pub name: Seq<char>,
}

pub ghost struct GraphView {
    pub nodes: Seq<PinnedView>,
    pub edges: Seq<GraphEdgeView>,
}

impl View for GraphEdge {
    type V = GraphEdgeView;

    open spec fn view(&self) -> GraphEdgeView {
        GraphEdgeView { from: self.from as int, to: self.to as int, name: self.name@ }
    }
}

impl View for Graph {
    type V = GraphView;

    open spec fn view(&self) -> GraphView {
        GraphView {
            nodes: self.nodes@.map_values(|p: Pinned| p@),
            edges: self.edges@.map_values(|e: GraphEdge| e@),
        }
    }
}

/// Every edge endpoint indexes a node.
pub open spec fn wf(g: GraphView) -> bool {
    forall|k: int| 0 <= k < g.edges.len() ==> 0 <= #[trigger] g.edges[k].from < g.nodes.len()
        && 0 <= g.edges[k].to < g.nodes.len()
}

/// No two nodes hold an equal pinned package: diamond dependencies collapse
/// to one node reached by multiple edges.
pub open spec fn distinct_nodes(g: GraphView) -> bool {
    forall|i: int, j: int| 0 <= i < g.nodes.len() && 0 <= j < g.nodes.len() && i != j
        ==> #[trigger] g.nodes[i] != #[trigger] g.nodes[j]
}

/// Two graphs over the same nodes are equally duplicate-free.
pub proof fn lemma_distinct_same_nodes(g1: GraphView, g2: GraphView)
    requires
        g1.nodes == g2.nodes,
        distinct_nodes(g1),
    ensures
        distinct_nodes(g2),
{
    assert forall|i: int, j: int|
        0 <= i < g2.nodes.len() && 0 <= j < g2.nodes.len() && i != j
        implies #[trigger] g2.nodes[i] != #[trigger] g2.nodes[j] by {
        assert(g1.nodes[i] != g1.nodes[j]);
    }
}

/// Appending a package equal to no existing node keeps the graph
/// duplicate-free.
pub proof fn lemma_distinct_push(older: GraphView, g: GraphView, p: PinnedView)
    requires
        g.nodes == older.nodes.push(p),
        distinct_nodes(older),
        forall|i: int| 0 <= i < older.nodes.len() ==> #[trigger] older.nodes[i] != p,
    ensures
        distinct_nodes(g),
{
    assert forall|i: int, j: int|
        0 <= i < g.nodes.len() && 0 <= j < g.nodes.len() && i != j
        implies #[trigger] g.nodes[i] != #[trigger] g.nodes[j] by {
        if i < older.nodes.len() && j < older.nodes.len() {
            assert(older.nodes[i] != older.nodes[j]);
        } else if i < older.nodes.len() {
            assert(older.nodes[i] != p);
        } else {
            assert(older.nodes[j] != p);
        }
    }
}

/// Some edge runs from `a` to `b`.
pub open spec fn edge_exists(g: GraphView, a: int, b: int) -> bool {
    exists|k: int| 0 <= k < g.edges.len() && #[trigger] g.edges[k].from == a && g.edges[k].to == b
}

/// A non-empty walk along edges, from its first node to its last.
pub open spec fn is_path(g: GraphView, p: Seq<int>) -> bool {
    &&& p.len() >= 1
    &&& forall|i: int| 0 <= i < p.len() ==> 0 <= #[trigger] p[i] < g.nodes.len()
    &&& forall|i: int| 0 <= i < p.len() - 1 ==> edge_exists(g, #[trigger] p[i], p[i + 1])
}

/// Node `b` lies in the dependency closure of node `a` (including `a`
/// itself).
pub open spec fn reaches(g: GraphView, a: int, b: int) -> bool {
    exists|p: Seq<int>| is_path(g, p) && p.first() == a && p.last() == b
}

/// The integer image of an executable order.
pub open spec fn ord_of(o: Seq<usize>) -> Seq<int> {
    o.map_values(|x: usize| x as int)
}

/// `ord` lists each node index exactly once.
pub open spec fn is_permutation(ord: Seq<int>, n: int) -> bool {
    &&& ord.len() == n
    &&& ord.no_duplicates()
    &&& forall|i: int| 0 <= i < ord.len() ==> 0 <= #[trigger] ord[i] < n
    &&& forall|v: int| 0 <= v < n ==> ord.contains(v)
}

/// A dependency-first total order: every node appears exactly once, and for
/// every edge the dependency precedes the dependent.
pub open spec fn valid_compilation_order(g: GraphView, ord: Seq<int>) -> bool {
    &&& is_permutation(ord, g.nodes.len() as int)
    &&& forall|k: int| 0 <= k < g.edges.len() ==> ord.index_of(#[trigger] g.edges[k].to)
        < ord.index_of(g.edges[k].from)
}

/// The graph admits a dependency-first total order.
pub open spec fn acyclic(g: GraphView) -> bool {
    exists|ord: Seq<int>| valid_compilation_order(g, ord)
}

impl Graph {
    /// An empty graph.
    pub fn new() -> (r: Graph)
        ensures
            r@.nodes.len() == 0,
            r@.edges.len() == 0,
    {
        Graph { nodes: Vec::new(), edges: Vec::new() }
    }

    /// Append a node, returning its index.
    pub fn add_node(&mut self, pkg: Pinned) -> (r: usize)
        ensures
            final(self)@.nodes == old(self)@.nodes.push(pkg@),
            final(self)@.edges == old(self)@.edges,
            r == old(self)@.nodes.len(),
    {
        let ix = self.nodes.len();
        self.nodes.push(pkg);
        proof {
            assert(self@.nodes =~= old(self)@.nodes.push(pkg@));
            assert(self@.edges =~= old(self)@.edges);
        }
        ix
    }

    /// Append an edge from `from` to `to`, labeled `name`.
    pub fn add_edge(&mut self, from: usize, to: usize, name: String)
        requires
            from < old(self)@.nodes.len(),
            to < old(self)@.nodes.len(),
        ensures
            final(self)@.nodes == old(self)@.nodes,
            final(self)@.edges == old(self)@.edges.push(
                GraphEdgeView { from: from as int, to: to as int, name: name@ },
            ),
    {
        let ghost name_view = name@;
        self.edges.push(GraphEdge { from, to, name });
        proof {
            assert(self@.nodes =~= old(self)@.nodes);
            assert(self@.edges =~= old(self)@.edges.push(
                GraphEdgeView { from: from as int, to: to as int, name: name_view },
            ));
        }
    }

    /// Number of nodes.
    pub fn node_count(&self) -> (r: usize)
        ensures
            r == self@.nodes.len(),
    {
        self.nodes.len()
    }
}

// ---------------------------------------------------------------------------
// Counting placed nodes.
// ---------------------------------------------------------------------------

/// How many entries of `s` are set.
pub open spec fn count_true(s: Seq<bool>) -> int
    decreases s.len(),
{
    if s.len() == 0 {
        0
    } else {
        (if s.last() {
            1int
        } else {
            0int
        }) + count_true(s.drop_last())
    }
}

proof fn lemma_count_true_lt(s: Seq<bool>, i: int)
    requires
        0 <= i < s.len(),
        !s[i],
    ensures
        count_true(s) < s.len(),
    decreases s.len(),
{
    if i == s.len() - 1 {
        lemma_count_true_bounds(s.drop_last());
    } else {
        lemma_count_true_lt(s.drop_last(), i);
    }
}

proof fn lemma_count_true_zero(s: Seq<bool>)
    requires
        forall|i: int| 0 <= i < s.len() ==> !s[i],
    ensures
        count_true(s) == 0,
    decreases s.len(),
{
    if s.len() > 0 {
        lemma_count_true_zero(s.drop_last());
    }
}

proof fn lemma_count_true_bounds(s: Seq<bool>)
    ensures
        0 <= count_true(s) <= s.len(),
    decreases s.len(),
{
    if s.len() > 0 {
        lemma_count_true_bounds(s.drop_last());
    }
}

proof fn lemma_count_true_update(s: Seq<bool>, i: int)
    requires
        0 <= i < s.len(),
        !s[i],
    ensures
        count_true(s.update(i, true)) == count_true(s) + 1,
    decreases s.len(),
{
    let t = s.update(i, true);
    if i == s.len() - 1 {
        assert(t.drop_last() =~= s.drop_last());
    } else {
        assert(t.drop_last() =~= s.drop_last().update(i, true));
        lemma_count_true_update(s.drop_last(), i);
    }
}

proof fn lemma_count_true_all(s: Seq<bool>)
    requires
        count_true(s) == s.len(),
    ensures
        forall|i: int| 0 <= i < s.len() ==> s[i],
    decreases s.len(),
{
    if s.len() > 0 {
        lemma_count_true_bounds(s.drop_last());
        lemma_count_true_all(s.drop_last());
        assert forall|i: int| 0 <= i < s.len() implies s[i] by {
            if i < s.len() - 1 {
                assert(s.drop_last()[i]);
            }
        }
    }
}

proof fn lemma_count_true_short(s: Seq<bool>)
    requires
        count_true(s) < s.len(),
    ensures
        exists|i: int| 0 <= i < s.len() && !s[i],
    decreases s.len(),
{
    if s.len() > 0 {
        if !s.last() {
            assert(!s[s.len() - 1]);
        } else {
            lemma_count_true_short(s.drop_last());
            let i = choose|i: int| 0 <= i < s.drop_last().len() && !s.drop_last()[i];
            assert(!s[i]);
        }
    }
}

// ---------------------------------------------------------------------------
// Positions in a duplicate-free order.
// ---------------------------------------------------------------------------

/// An element that avoids every position up to `p` sits strictly beyond
/// `p`.
pub proof fn lemma_position_beyond(ord: Seq<int>, v: int, p: int)
    requires
        ord.contains(v),
        forall|q: int| 0 <= q <= p ==> ord[q] != v,
    ensures
        ord.index_of(v) > p,
{
    let w = ord.index_of(v);
    assert(0 <= w < ord.len() && ord[w] == v);
    if w <= p {
        assert(ord[w] != v);
    }
}

/// In a duplicate-free sequence, the index of an element is the position it
/// occupies.
pub proof fn lemma_index_of_unique(ord: Seq<int>, m: int)
    requires
        ord.no_duplicates(),
        0 <= m < ord.len(),
    ensures
        ord.index_of(ord[m]) == m,
{
    assert(ord.contains(ord[m]));
    let w = ord.index_of(ord[m]);
    assert(0 <= w < ord.len() && ord[w] == ord[m]);
}

/// Appending a fresh element does not move the ones already present.
proof fn lemma_index_of_push(ord: Seq<int>, x: int, m: int)
    requires
        ord.no_duplicates(),
        !ord.contains(x),
        0 <= m < ord.len(),
    ensures
        ord.push(x).index_of(ord[m]) == ord.index_of(ord[m]),
        ord.push(x).no_duplicates(),
{
    let t = ord.push(x);
    assert forall|i: int, j: int|
        0 <= i < t.len() && 0 <= j < t.len() && i != j implies t[i] != t[j] by {
        if i < ord.len() && j < ord.len() {
            assert(ord[i] != ord[j]);
        } else if i < ord.len() {
            assert(ord.contains(ord[i]));
        } else if j < ord.len() {
            assert(ord.contains(ord[j]));
        }
    }
    assert(t[m] == ord[m]);
    lemma_index_of_unique(t, m);
    lemma_index_of_unique(ord, m);
}

// ---------------------------------------------------------------------------
// A stuck state certifies a cycle.
// ---------------------------------------------------------------------------

/// Find the earliest position of `ord` holding an unplaced node.
proof fn find_min_unplaced(ord: Seq<int>, placed: Seq<bool>, p: int) -> (m: int)
    requires
        0 <= p < ord.len(),
        forall|q: int| 0 <= q < ord.len() ==> 0 <= #[trigger] ord[q] < placed.len(),
        !placed[ord[p]],
    ensures
        0 <= m <= p,
        !placed[ord[m]],
        forall|q: int| 0 <= q < m ==> placed[#[trigger] ord[q]],
    decreases p,
{
    if forall|q: int| 0 <= q < p ==> placed[#[trigger] ord[q]] {
        p
    } else {
        let q = choose|q: int| 0 <= q < p && !placed[#[trigger] ord[q]];
        find_min_unplaced(ord, placed, q)
    }
}

/// When every unplaced node still waits on an unplaced dependency, no
/// dependency-first total order can exist.
proof fn lemma_stuck_not_acyclic(g: GraphView, placed: Seq<bool>)
    requires
        wf(g),
        placed.len() == g.nodes.len(),
        exists|i: int| 0 <= i < placed.len() && !placed[i],
        forall|i: int| 0 <= i < placed.len() && !(#[trigger] placed[i]) ==> exists|k: int|
            0 <= k < g.edges.len() && (#[trigger] g.edges[k]).from == i && !placed[g.edges[k].to],
    ensures
        !acyclic(g),
{
    if acyclic(g) {
        let ord = choose|ord: Seq<int>| valid_compilation_order(g, ord);
        let i0 = choose|i: int| 0 <= i < placed.len() && !placed[i];
        assert(ord.contains(i0));
        let p0 = ord.index_of(i0);
        assert(0 <= p0 < ord.len() && ord[p0] == i0);
        let m = find_min_unplaced(ord, placed, p0);
        let i = ord[m];
        let k = choose|k: int|
            0 <= k < g.edges.len() && (#[trigger] g.edges[k]).from == i && !placed[g.edges[k].to];
        let t = g.edges[k].to;
        assert(ord.contains(t));
        let pt = ord.index_of(t);
        assert(0 <= pt < ord.len() && ord[pt] == t);
        lemma_index_of_unique(ord, m);
        assert(ord.index_of(t) < ord.index_of(i));
        assert(placed[ord[pt]]);
    }
}

// ---------------------------------------------------------------------------
// Topological ordering.
// ---------------------------------------------------------------------------

/// A vector of `n` cleared flags.
fn falses(n: usize) -> (r: Vec<bool>)
    ensures
        r@.len() == n,
        forall|i: int| 0 <= i < n ==> !r@[i],
{
    let mut v: Vec<bool> = Vec::new();
    while v.len() < n
        invariant
            v@.len() <= n,
            forall|i: int| 0 <= i < v@.len() ==> !v@[i],
        decreases n - v@.len(),
    {
        v.push(false);
    }
    v
}

/// Whether every dependency of node `i` is already placed.
fn deps_placed(graph: &Graph, placed: &Vec<bool>, i: usize) -> (r: bool)
    requires
        wf(graph@),
        placed@.len() == graph@.nodes.len(),
    ensures
        r == (forall|k: int| 0 <= k < graph@.edges.len() && (#[trigger] graph@.edges[k]).from
            == i as int ==> placed@[graph@.edges[k].to]),
{
    let m = graph.edges.len();
    let mut k: usize = 0;
    while k < m
        invariant
            k <= m,
            m == graph@.edges.len(),
            wf(graph@),
            placed@.len() == graph@.nodes.len(),
            forall|j: int| 0 <= j < k && (#[trigger] graph@.edges[j]).from == i as int
                ==> placed@[graph@.edges[j].to],
        decreases m - k,
    {
        let ef = graph.edges[k].from;
        let et = graph.edges[k].to;
        proof {
            assert(graph@.edges[k as int].from == ef as int);
            assert(graph@.edges[k as int].to == et as int);
        }
        if ef == i && !placed[et] {
            return false;
        }
        k = k + 1;
    }
    true
}

/// Compute a dependency-first compilation order: a topological sort of the
/// graph with edge direction reversed, so that every dependency precedes
/// its dependents. Fails exactly when the graph holds a dependency cycle.
pub fn compilation_order(graph: &Graph) -> (r: Result<Vec<usize>, Error>)
    requires
        wf(graph@),
    ensures
        r matches Ok(o) ==> valid_compilation_order(graph@, ord_of(o@)),
        r is Ok <==> acyclic(graph@),
        r matches Err(e) ==> e matches Error::DependencyCycle,
{
    let n = graph.nodes.len();
    let mut placed = falses(n);
    let mut order: Vec<usize> = Vec::new();
    proof {
        lemma_count_true_zero(placed@);
    }
    while order.len() < n
        invariant
            wf(graph@),
            n == graph@.nodes.len(),
            placed@.len() == n,
            count_true(placed@) == order@.len(),
            order@.len() <= n,
            ord_of(order@).no_duplicates(),
            forall|q: int| 0 <= q < order@.len() ==> 0 <= #[trigger] ord_of(order@)[q] < n,
            forall|v: int| 0 <= v < n ==> (placed@[v] <==> ord_of(order@).contains(v)),
            forall|k: int| 0 <= k < graph@.edges.len()
                && placed@[(#[trigger] graph@.edges[k]).from] ==> placed@[graph@.edges[k].to]
                && ord_of(order@).index_of(graph@.edges[k].to) < ord_of(order@).index_of(
                graph@.edges[k].from,
            ),
        decreases n - order.len(),
    {
        let before = order.len();
        let mut i: usize = 0;
        while i < n
            invariant
                wf(graph@),
                n == graph@.nodes.len(),
                i <= n,
                placed@.len() == n,
                count_true(placed@) == order@.len(),
                order@.len() <= n,
                order@.len() >= before,
                ord_of(order@).no_duplicates(),
                forall|q: int| 0 <= q < order@.len() ==> 0 <= #[trigger] ord_of(order@)[q] < n,
                forall|v: int| 0 <= v < n ==> (placed@[v] <==> ord_of(order@).contains(v)),
                forall|k: int| 0 <= k < graph@.edges.len()
                    && placed@[(#[trigger] graph@.edges[k]).from] ==> placed@[graph@.edges[k].to]
                    && ord_of(order@).index_of(graph@.edges[k].to) < ord_of(order@).index_of(
                    graph@.edges[k].from,
                ),
                order@.len() == before ==> forall|v: int|
                    0 <= v < i && !(#[trigger] placed@[v]) ==> exists|k: int|
                        0 <= k < graph@.edges.len() && (#[trigger] graph@.edges[k]).from == v
                            && !placed@[graph@.edges[k].to],
            decreases n - i,
        {
            if !placed[i] && deps_placed(graph, &placed, i) {
                let ghost prev_ord = ord_of(order@);
                let ghost prev_placed = placed@;
                proof {
                    assert(!prev_ord.contains(i as int));
                    lemma_count_true_update(prev_placed, i as int);
                    lemma_count_true_lt(prev_placed, i as int);
                    lemma_index_of_push_self(prev_ord, i as int);
                }
                placed.set(i, true);
                order.push(i);
                proof {
                    let ordv = ord_of(order@);
                    assert(ordv =~= prev_ord.push(i as int));
                    assert forall|m: int| 0 <= m < prev_ord.len() implies ordv.index_of(
                        #[trigger] prev_ord[m],
                    ) == m && prev_ord.index_of(prev_ord[m]) == m by {
                        lemma_index_of_push(prev_ord, i as int, m);
                        lemma_index_of_unique(prev_ord, m);
                    }
                    assert forall|v: int| 0 <= v < n implies (placed@[v] <==> ordv.contains(
                        v,
                    )) by {
                        if v == i as int {
                            assert(ordv[ordv.len() - 1] == v);
                        } else {
                            if prev_placed[v] {
                                let q = choose|q: int|
                                    0 <= q < prev_ord.len() && prev_ord[q] == v;
                                assert(ordv[q] == v);
                            }
                            if ordv.contains(v) {
                                let q = choose|q: int| 0 <= q < ordv.len() && ordv[q] == v;
                                assert(q < ordv.len() - 1);
                                assert(prev_ord[q] == v);
                            }
                        }
                    }
                    assert forall|k: int|
                        0 <= k < graph@.edges.len()
                        && placed@[(#[trigger] graph@.edges[k]).from]
                        implies placed@[graph@.edges[k].to]
                        && ordv.index_of(graph@.edges[k].to)
                            < ordv.index_of(graph@.edges[k].from) by {
                        let e = graph@.edges[k];
                        if e.from == i as int {
                            assert(prev_placed[e.to]);
                            assert(e.to != i as int);
                            let qt = choose|q: int|
                                0 <= q < prev_ord.len() && prev_ord[q] == e.to;
                            assert(ordv.index_of(e.to) == qt);
                            assert(ordv.index_of(e.from) == prev_ord.len());
                        } else {
                            assert(prev_placed[e.from]);
                            assert(prev_placed[e.to]);
                            let qt = choose|q: int|
                                0 <= q < prev_ord.len() && prev_ord[q] == e.to;
                            let qf = choose|q: int|
                                0 <= q < prev_ord.len() && prev_ord[q] == e.from;
                            assert(prev_ord.index_of(e.to) == qt);
                            assert(prev_ord.index_of(e.from) == qf);
                            assert(ordv.index_of(e.to) == qt);
                            assert(ordv.index_of(e.from) == qf);
                        }
                    }
                }
            }
            i = i + 1;
        }
        if order.len() == before {
            proof {
                lemma_count_true_bounds(placed@);
                lemma_count_true_short(placed@);
                lemma_stuck_not_acyclic(graph@, placed@);
            }
            return Err(Error::DependencyCycle);
        }
        proof {
            assert(order@.len() > before as int);
        }
    }
    proof {
        lemma_count_true_bounds(placed@);
        lemma_count_true_all(placed@);
        assert forall|v: int| 0 <= v < n implies ord_of(order@).contains(v) by {
            assert(placed@[v]);
        }
        assert(is_permutation(ord_of(order@), n as int));
        assert(valid_compilation_order(graph@, ord_of(order@)));
    }
    Ok(order)
}

/// The fresh last element of a push sits at the final position.
proof fn lemma_index_of_push_self(ord: Seq<int>, x: int)
    requires
        ord.no_duplicates(),
        !ord.contains(x),
    ensures
        ord.push(x).index_of(x) == ord.len(),
        ord.push(x).no_duplicates(),
{
    let t = ord.push(x);
    assert forall|i: int, j: int|
        0 <= i < t.len() && 0 <= j < t.len() && i != j implies t[i] != t[j] by {
        if i < ord.len() && j < ord.len() {
            assert(ord[i] != ord[j]);
        } else if i < ord.len() {
            assert(ord.contains(ord[i]));
        } else if j < ord.len() {
            assert(ord.contains(ord[j]));
        }
    }
    lemma_index_of_unique(t, ord.len() as int);
}

// ---------------------------------------------------------------------------
// Reachability.
// ---------------------------------------------------------------------------

/// Every node reaches itself.
pub proof fn lemma_reaches_self(g: GraphView, a: int)
    requires
        0 <= a < g.nodes.len(),
    ensures
        reaches(g, a, a),
{
    let p = seq![a];
    assert(is_path(g, p));
    assert(p.first() == a && p.last() == a);
}

/// A reachable node's outgoing edge extends reachability one step.
pub proof fn lemma_reaches_step(g: GraphView, a: int, b: int, c: int)
    requires
        reaches(g, a, b),
        edge_exists(g, b, c),
        0 <= c < g.nodes.len(),
    ensures
        reaches(g, a, c),
{
    let p = choose|p: Seq<int>| is_path(g, p) && p.first() == a && p.last() == b;
    let q = p.push(c);
    assert(q.last() == c && q.first() == a);
    assert forall|i: int| 0 <= i < q.len() - 1 implies edge_exists(g, #[trigger] q[i], q[i + 1]) by {
        if i < p.len() - 1 {
            assert(edge_exists(g, p[i], p[i + 1]));
        } else {
            assert(q[i] == b && q[i + 1] == c);
        }
    }
    assert(is_path(g, q));
}

/// Walking a path inside an edge-closed set cannot leave the set.
proof fn lemma_path_in_closed(g: GraphView, vis: Seq<bool>, p: Seq<int>)
    requires
        wf(g),
        vis.len() == g.nodes.len(),
        is_path(g, p),
        vis[p.first()],
        forall|k: int| 0 <= k < g.edges.len() && vis[(#[trigger] g.edges[k]).from]
            ==> vis[g.edges[k].to],
    ensures
        vis[p.last()],
    decreases p.len(),
{
    if p.len() > 1 {
        assert(edge_exists(g, p[0], p[1]));
        let k = choose|k: int|
            0 <= k < g.edges.len() && (#[trigger] g.edges[k]).from == p[0] && g.edges[k].to
                == p[1];
        let q = p.drop_first();
        assert(vis[q.first()]);
        assert forall|i: int| 0 <= i < q.len() - 1 implies edge_exists(
            g,
            #[trigger] q[i],
            q[i + 1],
        ) by {
            assert(edge_exists(g, p[i + 1], p[i + 2]));
        }
        assert(is_path(g, q));
        lemma_path_in_closed(g, vis, q);
    }
}

/// Compute the dependency closure of `start`: the set of nodes reachable
/// from it by following edges forward, as a membership mask.
pub fn reachable_set(graph: &Graph, start: usize) -> (r: Vec<bool>)
    requires
        wf(graph@),
        start < graph@.nodes.len(),
    ensures
        r@.len() == graph@.nodes.len(),
        forall|j: int| 0 <= j < r@.len() ==> (r@[j] <==> reaches(graph@, start as int, j)),
{
    let n = graph.nodes.len();
    let m = graph.edges.len();
    let mut vis = falses(n);
    vis.set(start, true);
    proof {
        lemma_reaches_self(graph@, start as int);
        lemma_count_true_bounds(vis@);
    }
    let mut changed = true;
    while changed
        invariant
            wf(graph@),
            n == graph@.nodes.len(),
            m == graph@.edges.len(),
            vis@.len() == n,
            start < n,
            vis@[start as int],
            count_true(vis@) <= n,
            forall|j: int| 0 <= j < n && #[trigger] vis@[j] ==> reaches(graph@, start as int, j),
            !changed ==> forall|k: int| 0 <= k < m && vis@[(#[trigger] graph@.edges[k]).from]
                ==> vis@[graph@.edges[k].to],
        decreases n - count_true(vis@) + (if changed { 1int } else { 0int }),
    {
        let ghost vis0 = vis@;
        changed = false;
        let mut k: usize = 0;
        while k < m
            invariant
                wf(graph@),
                n == graph@.nodes.len(),
                m == graph@.edges.len(),
                k <= m,
                vis@.len() == n,
                start < n,
                vis@[start as int],
                count_true(vis@) <= n,
                forall|j: int| 0 <= j < n && #[trigger] vis@[j] ==> reaches(
                    graph@,
                    start as int,
                    j,
                ),
                changed ==> count_true(vis@) > count_true(vis0),
                count_true(vis@) >= count_true(vis0),
                !changed ==> vis@ == vis0,
                !changed ==> forall|j: int| 0 <= j < k
                    && vis@[(#[trigger] graph@.edges[j]).from] ==> vis@[graph@.edges[j].to],
            decreases m - k,
        {
            let ef = graph.edges[k].from;
            let et = graph.edges[k].to;
            proof {
                assert(graph@.edges[k as int].from == ef as int);
                assert(graph@.edges[k as int].to == et as int);
            }
            if vis[ef] && !vis[et] {
                proof {
                    lemma_count_true_update(vis@, et as int);
                    assert(edge_exists(graph@, ef as int, et as int));
                    lemma_reaches_step(graph@, start as int, ef as int, et as int);
                }
                vis.set(et, true);
                changed = true;
                proof {
                    lemma_count_true_bounds(vis@);
                }
            }
            k = k + 1;
        }
    }
    proof {
        assert forall|j: int| 0 <= j < n && reaches(graph@, start as int, j) implies vis@[j] by {
            let p = choose|p: Seq<int>|
                is_path(graph@, p) && p.first() == start as int && p.last() == j;
            lemma_path_in_closed(graph@, vis@, p);
        }
    }
    vis
}

// ---------------------------------------------------------------------------
// The root comes last.
// ---------------------------------------------------------------------------

/// Positions never increase along a path, and strictly decrease along a
/// path that takes at least one step.
proof fn lemma_path_position(g: GraphView, ord: Seq<int>, p: Seq<int>)
    requires
        wf(g),
        valid_compilation_order(g, ord),
        is_path(g, p),
    ensures
        ord.index_of(p.last()) <= ord.index_of(p.first()),
        p.len() >= 2 ==> ord.index_of(p.last()) < ord.index_of(p.first()),
    decreases p.len(),
{
    if p.len() >= 2 {
        assert(edge_exists(g, p[0], p[1]));
        let k = choose|k: int|
            0 <= k < g.edges.len() && (#[trigger] g.edges[k]).from == p[0] && g.edges[k].to
                == p[1];
        assert(ord.index_of(p[1]) < ord.index_of(p[0]));
        let q = p.drop_first();
        assert forall|i: int| 0 <= i < q.len() - 1 implies edge_exists(
            g,
            #[trigger] q[i],
            q[i + 1],
        ) by {
            assert(edge_exists(g, p[i + 1], p[i + 2]));
        }
        assert(is_path(g, q));
        lemma_path_position(g, ord, q);
    }
}

/// Node `j` has an incoming edge from a node of smaller index: the shape
/// every node but the first gets when a traversal adds it together with an
/// edge from the package that declared it.
pub open spec fn has_parent_edge(g: GraphView, j: int) -> bool {
    exists|k: int| 0 <= k < g.edges.len() && (#[trigger] g.edges[k]).to == j && g.edges[k].from
        < j
}

/// In a graph where every node but the first has an incoming edge from an
/// earlier node, the first node reaches every node.
pub proof fn lemma_root_reaches(g: GraphView, j: int)
    requires
        wf(g),
        g.nodes.len() >= 1,
        0 <= j < g.nodes.len(),
        forall|i: int| 1 <= i < g.nodes.len() ==> has_parent_edge(g, i),
    ensures
        reaches(g, 0, j),
    decreases j,
{
    if j == 0 {
        lemma_reaches_self(g, 0);
    } else {
        assert(has_parent_edge(g, j));
        let k = choose|k: int|
            0 <= k < g.edges.len() && (#[trigger] g.edges[k]).to == j && g.edges[k].from < j;
        assert(0 <= g.edges[k].from < g.nodes.len());
        lemma_root_reaches(g, g.edges[k].from);
        assert(edge_exists(g, g.edges[k].from, j));
        lemma_reaches_step(g, 0, g.edges[k].from, j);
    }
}

/// When every node lies in the root's dependency closure, the root stands
/// last in every dependency-first order.
pub proof fn lemma_root_last(g: GraphView, ord: Seq<int>, root: int)
    requires
        wf(g),
        valid_compilation_order(g, ord),
        0 <= root < g.nodes.len(),
        forall|j: int| 0 <= j < g.nodes.len() ==> reaches(g, root, j),
        g.nodes.len() >= 1,
    ensures
        ord.last() == root,
{
    let n = g.nodes.len() as int;
    let last = ord[n - 1];
    assert(0 <= last < n);
    if last != root {
        assert(reaches(g, root, last));
        let p = choose|p: Seq<int>| is_path(g, p) && p.first() == root && p.last() == last;
        if p.len() == 1 {
            assert(p.first() == p.last());
        } else {
            lemma_path_position(g, ord, p);
            lemma_index_of_unique(ord, n - 1);
            assert(ord.contains(root));
            let pr = ord.index_of(root);
            assert(0 <= pr < ord.len() && ord[pr] == root);
            assert(ord.index_of(last) < ord.index_of(root));
        }
    }
}

} // verus!
