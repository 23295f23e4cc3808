//! Cycle detection on the edges of a data transformation graph.
//!
//! The search is a depth-first traversal over the dependents relation from
//! every node of the graph, with a visited set and an on-stack set; an edge
//! back into the stack is a cycle. Its correctness argument gives every
//! finished vertex a finishing time: an edge out of a finished vertex always
//! leads to a vertex finished earlier, so no walk through finished vertices
//! can come back to where it was.
use std::collections::{HashMap, HashSet};
use vstd::prelude::*;
use crate::dtg::{
    edge_added, has_edge, lemma_adjacency_lists, lemma_edges_prefix, node_added, targets_from,
    DataTransformationGraph, DtgEdge, DtgError, DtgNode,
};

verus! {

broadcast use vstd::std_specs::hash::group_hash_axioms;

/// `p` is a walk along `edges`: one vertex or more, each joined to the next
/// by an edge.
pub open spec fn is_walk(edges: Seq<DtgEdge>, p: Seq<u128>) -> bool {
    &&& p.len() >= 1
    &&& forall|i: int| 0 <= i < p.len() - 1 ==> #[trigger] has_edge(edges, p[i], p[i + 1])
}

/// The walk ends at a vertex that it passed before, so it holds a cycle.
pub open spec fn closes_cycle(p: Seq<u128>) -> bool {
    exists|j: int| 0 <= j < p.len() - 1 && #[trigger] p[j] == p.last()
}

/// The edges hold a cycle.
pub open spec fn has_cycle(edges: Seq<DtgEdge>) -> bool {
    exists|p: Seq<u128>| #[trigger] is_walk(edges, p) && closes_cycle(p)
}

/// The edges hold a cycle that a walk from one of `starts` runs into.
pub open spec fn has_reachable_cycle(starts: Set<u128>, edges: Seq<DtgEdge>) -> bool {
    exists|p: Seq<u128>| #[trigger] is_walk(edges, p) && starts.contains(p[0]) && closes_cycle(p)
}

/// Every vertex at either end of an edge.
pub open spec fn endpoints(edges: Seq<DtgEdge>) -> Set<u128>
    decreases edges.len(),
{
    if edges.len() == 0 {
        Set::empty()
    } else {
        endpoints(edges.drop_last()).insert(edges.last().source).insert(edges.last().target)
    }
}

proof fn lemma_endpoints(edges: Seq<DtgEdge>)
    ensures
        endpoints(edges).finite(),
        forall|s: u128, t: u128| #[trigger] has_edge(edges, s, t) ==> endpoints(edges).contains(t) && endpoints(edges).contains(s),
    decreases edges.len(),
{
    if edges.len() > 0 {
        let init = edges.drop_last();
        lemma_endpoints(init);
        assert forall|s: u128, t: u128| #[trigger] has_edge(edges, s, t) implies endpoints(edges).contains(t) && endpoints(edges).contains(s) by {
            let i = choose|i: int| 0 <= i < edges.len() && edges[i].source == s && #[trigger] edges[i].target == t;
            if i < init.len() {
                assert(init[i] == edges[i]);
                assert(has_edge(init, s, t));
            }
        }
    }
}

/// Every vertex of `fin` has finished, at time `fin[v]`: an edge out of it
/// leads to a vertex that finished before it.
pub open spec fn finished_closed(edges: Seq<DtgEdge>, fin: Map<u128, nat>) -> bool {
    forall|u: u128, v: u128|
        #![trigger has_edge(edges, u, v), fin.contains_key(u)]
        fin.contains_key(u) && has_edge(edges, u, v) ==> fin.contains_key(v) && fin[v] < fin[u]
}

/// Along a walk that starts at a finished vertex, every vertex has finished,
/// each one before all that come earlier on the walk.
proof fn lemma_walk_descends(edges: Seq<DtgEdge>, fin: Map<u128, nat>, p: Seq<u128>)
    requires
        is_walk(edges, p),
        fin.contains_key(p[0]),
        finished_closed(edges, fin),
    ensures
        forall|i: int| 0 <= i < p.len() ==> #[trigger] fin.contains_key(p[i]),
        forall|i: int, k: int| 0 <= i < k < p.len() ==> fin[#[trigger] p[k]] < fin[#[trigger] p[i]],
    decreases p.len(),
{
    if p.len() > 1 {
        let q = p.drop_last();
        assert forall|i: int| 0 <= i < q.len() - 1 implies #[trigger] has_edge(edges, q[i], q[i + 1]) by {
            assert(has_edge(edges, p[i], p[i + 1]));
        }
        lemma_walk_descends(edges, fin, q);
        let last = p.len() - 1;
        let k = last - 1;
        assert(has_edge(edges, p[k], p[k + 1]));
        assert(has_edge(edges, p[last - 1], p[last]));
        assert(q[last - 1] == p[last - 1]);
        assert(fin.contains_key(q[last - 1]));
        assert(fin.contains_key(p[last]) && fin[p[last]] < fin[p[last - 1]]);
        assert forall|i: int| 0 <= i < p.len() implies #[trigger] fin.contains_key(p[i]) by {
            if i < last {
                assert(q[i] == p[i]);
            }
        }
        assert forall|i: int, k: int| 0 <= i < k < p.len() implies fin[#[trigger] p[k]] < fin[#[trigger] p[i]] by {
            assert(q[i] == p[i]);
            if k < last {
                assert(q[k] == p[k]);
            } else if i < last - 1 {
                assert(fin[q[last - 1]] < fin[q[i]]);
            }
        }
    }
}

/// A search that has finished every start vertex proves that no cycle can
/// be reached from them.
proof fn lemma_finished_starts_reach_no_cycle(starts: Set<u128>, edges: Seq<DtgEdge>, fin: Map<u128, nat>)
    requires
        finished_closed(edges, fin),
        forall|k: u128| starts.contains(k) ==> fin.contains_key(k),
    ensures
        !has_reachable_cycle(starts, edges),
{
    if has_reachable_cycle(starts, edges) {
        let p = choose|p: Seq<u128>| #[trigger] is_walk(edges, p) && starts.contains(p[0]) && closes_cycle(p);
        lemma_walk_descends(edges, fin, p);
        let j = choose|j: int| 0 <= j < p.len() - 1 && #[trigger] p[j] == p.last();
        assert(fin[p[p.len() - 1]] < fin[p[j]]);
    }
}

/// Some walk along `edges` leads from `a` to `b`.
pub open spec fn reaches(edges: Seq<DtgEdge>, a: u128, b: u128) -> bool {
    exists|p: Seq<u128>| #[trigger] is_walk(edges, p) && p[0] == a && p.last() == b
}

proof fn lemma_has_edge_push(edges: Seq<DtgEdge>, e: DtgEdge, u: u128, v: u128)
    ensures
        has_edge(edges.push(e), u, v) <==> (has_edge(edges, u, v) || (u == e.source && v == e.target)),
{
    let ext = edges.push(e);
    if has_edge(edges, u, v) {
        let i = choose|i: int| 0 <= i < edges.len() && edges[i].source == u && #[trigger] edges[i].target == v;
        assert(ext[i] == edges[i]);
    }
    if u == e.source && v == e.target {
        assert(ext[edges.len() as int] == e);
    }
    if has_edge(ext, u, v) {
        let i = choose|i: int| 0 <= i < ext.len() && ext[i].source == u && #[trigger] ext[i].target == v;
        if i < edges.len() {
            assert(ext[i] == edges[i]);
        }
    }
}

/// Appending an edge from `s` to `t` closes no cycle when the edge set had
/// none and no walk led from `t` back to `s`.
pub proof fn lemma_add_edge_keeps_acyclic(edges: Seq<DtgEdge>, e: DtgEdge)
    requires
        !has_cycle(edges),
        !reaches(edges, e.target, e.source),
    ensures
        !has_cycle(edges.push(e)),
{
    let ext = edges.push(e);
    if has_cycle(ext) {
        let p = choose|p: Seq<u128>| #[trigger] is_walk(ext, p) && closes_cycle(p);
        let j = choose|j: int| 0 <= j < p.len() - 1 && #[trigger] p[j] == p.last();
        let c = p.subrange(j, p.len() as int);
        let n = c.len();
        assert forall|i: int| 0 <= i < n - 1 implies #[trigger] has_edge(ext, c[i], c[i + 1]) by {
            assert(has_edge(ext, p[j + i], p[j + i + 1]));
        }
        assert(c[0] == c[n - 1]);
        if forall|i: int| 0 <= i < n - 1 ==> #[trigger] has_edge(edges, c[i], c[i + 1]) {
            assert(c[0] == c.last());
            assert(is_walk(edges, c) && closes_cycle(c));
        } else {
            let m0 = choose|i: int| 0 <= i < n - 1 && !#[trigger] has_edge(edges, c[i], c[i + 1]);
            let m = lemma_first_new_step(edges, c, m0);
            let big = lemma_last_new_step(edges, c, m0);
            lemma_has_edge_push(edges, e, c[m], c[m + 1]);
            lemma_has_edge_push(edges, e, c[big], c[big + 1]);
            let l1 = n - big - 1;
            let w = Seq::new((l1 + m) as nat, |k: int| if k < l1 { c[big + 1 + k] } else { c[1 + (k - l1)] });
            assert forall|k: int| 0 <= k < w.len() - 1 implies #[trigger] has_edge(edges, w[k], w[k + 1]) by {
                if k < l1 - 1 {
                    let i = big + 1 + k;
                    assert(has_edge(ext, c[i], c[i + 1]));
                    lemma_has_edge_push(edges, e, c[i], c[i + 1]);
                } else if k == l1 - 1 {
                    let z: int = 0;
                    assert(has_edge(ext, c[z], c[z + 1]));
                    lemma_has_edge_push(edges, e, c[0], c[1]);
                } else {
                    let i = 1 + (k - l1);
                    assert(has_edge(ext, c[i], c[i + 1]));
                    lemma_has_edge_push(edges, e, c[i], c[i + 1]);
                }
            }
            assert(w[0] == e.target);
            assert(w.last() == e.source);
            assert(is_walk(edges, w));
        }
    }
}

/// The first step of a walk that does not use an old edge.
proof fn lemma_first_new_step(edges: Seq<DtgEdge>, c: Seq<u128>, m0: int) -> (m: int)
    requires
        0 <= m0 < c.len() - 1,
        !has_edge(edges, c[m0], c[m0 + 1]),
    ensures
        0 <= m <= m0,
        !has_edge(edges, c[m], c[m + 1]),
        forall|i: int| 0 <= i < m ==> #[trigger] has_edge(edges, c[i], c[i + 1]),
    decreases m0,
{
    if forall|i: int| 0 <= i < m0 ==> #[trigger] has_edge(edges, c[i], c[i + 1]) {
        m0
    } else {
        let i = choose|i: int| 0 <= i < m0 && !#[trigger] has_edge(edges, c[i], c[i + 1]);
        lemma_first_new_step(edges, c, i)
    }
}

/// The last step of a walk that does not use an old edge.
proof fn lemma_last_new_step(edges: Seq<DtgEdge>, c: Seq<u128>, m0: int) -> (m: int)
    requires
        0 <= m0 < c.len() - 1,
        !has_edge(edges, c[m0], c[m0 + 1]),
    ensures
        m0 <= m < c.len() - 1,
        !has_edge(edges, c[m], c[m + 1]),
        forall|i: int| m < i < c.len() - 1 ==> #[trigger] has_edge(edges, c[i], c[i + 1]),
    decreases c.len() - m0,
{
    if forall|i: int| m0 < i < c.len() - 1 ==> #[trigger] has_edge(edges, c[i], c[i + 1]) {
        m0
    } else {
        let i = choose|i: int| m0 < i < c.len() - 1 && !#[trigger] has_edge(edges, c[i], c[i + 1]);
        lemma_last_new_step(edges, c, i)
    }
}

/// An edge back into a walk closes a cycle: if a walk from one of `starts`
/// runs through `e.target` and ends at `e.source` (as the search stack does),
/// appending `e` gives a cycle reachable from `starts`, so `is_acyclic`
/// returns false once `e` is added.
pub proof fn lemma_back_edge_closes_cycle(starts: Set<u128>, edges: Seq<DtgEdge>, stack: Seq<u128>, e: DtgEdge)
    requires
        is_walk(edges, stack),
        starts.contains(stack[0]),
        stack.last() == e.source,
        stack.contains(e.target),
    ensures
        has_reachable_cycle(starts, edges.push(e)),
{
    let ext = edges.push(e);
    let q = stack.push(e.target);
    let k = choose|k: int| 0 <= k < stack.len() && stack[k] == e.target;
    assert forall|i: int| 0 <= i < q.len() - 1 implies #[trigger] has_edge(ext, q[i], q[i + 1]) by {
        if i < stack.len() - 1 {
            assert(has_edge(edges, stack[i], stack[i + 1]));
            lemma_has_edge_push(edges, e, stack[i], stack[i + 1]);
        } else {
            lemma_has_edge_push(edges, e, e.source, e.target);
        }
    }
    assert(q[k] == q.last());
    assert(is_walk(ext, q) && starts.contains(q[0]) && closes_cycle(q));
}

/// Every vertex that some walk from `a` reaches, `a` included.
pub open spec fn reachable_from(edges: Seq<DtgEdge>, a: u128) -> Set<u128> {
    Set::new(|v: u128| reaches(edges, a, v))
}

proof fn lemma_walk_prepend(edges: Seq<DtgEdge>, a: u128, p: Seq<u128>)
    requires
        is_walk(edges, p),
        has_edge(edges, a, p[0]),
    ensures
        is_walk(edges, seq![a] + p),
        (seq![a] + p)[0] == a,
        (seq![a] + p).last() == p.last(),
        forall|i: int| 0 <= i < p.len() ==> (seq![a] + p)[i + 1] == #[trigger] p[i],
{
    let q = seq![a] + p;
    assert forall|i: int| 0 <= i < q.len() - 1 implies #[trigger] has_edge(edges, q[i], q[i + 1]) by {
        if i == 0 {
            assert(q[1] == p[0]);
        } else {
            let k = i - 1;
            assert(has_edge(edges, p[k], p[k + 1]));
            assert(q[i] == p[k]);
            assert(q[i + 1] == p[k + 1]);
        }
    }
}

proof fn lemma_reaches_prepend(edges: Seq<DtgEdge>, a: u128, b: u128, c: u128)
    requires
        has_edge(edges, a, b),
        reaches(edges, b, c),
    ensures
        reaches(edges, a, c),
{
    let p = choose|p: Seq<u128>| #[trigger] is_walk(edges, p) && p[0] == b && p.last() == c;
    lemma_walk_prepend(edges, a, p);
    assert(is_walk(edges, seq![a] + p));
}

proof fn lemma_reaches_append(edges: Seq<DtgEdge>, a: u128, b: u128, c: u128)
    requires
        reaches(edges, a, b),
        has_edge(edges, b, c),
    ensures
        reaches(edges, a, c),
{
    let p = choose|p: Seq<u128>| #[trigger] is_walk(edges, p) && p[0] == a && p.last() == b;
    let q = p.push(c);
    assert forall|i: int| 0 <= i < q.len() - 1 implies #[trigger] has_edge(edges, q[i], q[i + 1]) by {
        if i < p.len() - 1 {
            assert(has_edge(edges, p[i], p[i + 1]));
        }
    }
    assert(is_walk(edges, q));
}

proof fn lemma_reaches_self(edges: Seq<DtgEdge>, a: u128)
    ensures
        reaches(edges, a, a),
{
    assert(is_walk(edges, seq![a]));
}

/// A cycle reachable from `b` is reachable from any `a` with an edge to `b`.
proof fn lemma_cycle_prepend(edges: Seq<DtgEdge>, a: u128, b: u128)
    requires
        has_edge(edges, a, b),
        has_reachable_cycle(set![b], edges),
    ensures
        has_reachable_cycle(set![a], edges),
{
    let p = choose|p: Seq<u128>| #[trigger] is_walk(edges, p) && set![b].contains(p[0]) && closes_cycle(p);
    lemma_walk_prepend(edges, a, p);
    let q = seq![a] + p;
    let j = choose|j: int| 0 <= j < p.len() - 1 && #[trigger] p[j] == p.last();
    assert(q[j + 1] == p[j]);
    assert(q[j + 1] == q.last());
    assert(is_walk(edges, q) && set![a].contains(q[0]) && closes_cycle(q));
}

/// `adj` lists, for every vertex, the targets of its outgoing edges.
pub open spec fn targets_in(adj: Map<u128, Vec<u128>>, s: u128) -> Seq<u128> {
    if adj.contains_key(s) {
        adj[s]@
    } else {
        Seq::empty()
    }
}

pub open spec fn indexes_targets(adj: Map<u128, Vec<u128>>, edges: Seq<DtgEdge>) -> bool {
    forall|s: u128| #[trigger] targets_in(adj, s) == targets_from(edges, s)
}

/// The search's record of finished vertices: `fin` holds exactly the
/// visited vertices that have left the stack, with finishing times below
/// `clock`, and is closed under edges in the sense of `finished_closed`.
pub open spec fn search_sound(edges: Seq<DtgEdge>, visited: Set<u128>, on_stack: Set<u128>, fin: Map<u128, nat>, clock: nat) -> bool {
    &&& forall|x: u128| #[trigger] fin.contains_key(x) <==> (visited.contains(x) && !on_stack.contains(x))
    &&& finished_closed(edges, fin)
    &&& forall|x: u128| #[trigger] fin.contains_key(x) ==> fin[x] < clock
}


/// One step of building a graph without cycles: a node added, or an edge
/// between two existing nodes that no walk leads back over.
pub open spec fn acyclic_step(before: DataTransformationGraph, after: DataTransformationGraph) -> bool {
    ||| exists|node: DtgNode| #[trigger] node_added(before, after, node)
    ||| {
        &&& edge_added(before, after)
        &&& before.nodes@.dom().contains(after.edges@.last().source)
        &&& before.nodes@.dom().contains(after.edges@.last().target)
        &&& !reaches(before.edges@, after.edges@.last().target, after.edges@.last().source)
    }
}

/// A graph built from one without edges by adding nodes, and edges between
/// existing nodes that close no cycle, holds no cycle, so `is_acyclic`
/// returns true on it.
pub proof fn lemma_acyclic_construction(history: Seq<DataTransformationGraph>)
    requires
        history.len() >= 1,
        history[0].edges@.len() == 0,
        forall|i: int| 0 <= i < history.len() - 1 ==> #[trigger] acyclic_step(history[i], history[i + 1]),
    ensures
        !has_cycle(history.last().edges@),
        !has_reachable_cycle(history.last().nodes@.dom(), history.last().edges@),
    decreases history.len(),
{
    let last = history.len() - 1;
    if history.len() == 1 {
        if has_cycle(history[0].edges@) {
            let p = choose|p: Seq<u128>| #[trigger] is_walk(history[0].edges@, p) && closes_cycle(p);
            let z: int = 0;
            assert(has_edge(history[0].edges@, p[z], p[z + 1]));
        }
    } else {
        let init = history.drop_last();
        assert forall|i: int| 0 <= i < init.len() - 1 implies #[trigger] acyclic_step(init[i], init[i + 1]) by {
            assert(acyclic_step(history[i], history[i + 1]));
        }
        lemma_acyclic_construction(init);
        let j = last - 1;
        assert(acyclic_step(history[j], history[j + 1]));
        let before = history[j];
        let after = history[last];
        assert(init.last() == before);
        if edge_added(before, after) && !reaches(before.edges@, after.edges@.last().target, after.edges@.last().source) {
            assert(after.edges@ == before.edges@.push(after.edges@.last()));
            lemma_add_edge_keeps_acyclic(before.edges@, after.edges@.last());
        } else {
            let node = choose|node: DtgNode| #[trigger] node_added(before, after, node);
            assert(after.edges@ == before.edges@);
        }
    }
    if has_reachable_cycle(history.last().nodes@.dom(), history.last().edges@) {
        let p = choose|p: Seq<u128>| #[trigger] is_walk(history.last().edges@, p) && history.last().nodes@.dom().contains(p[0]) && closes_cycle(p);
        assert(is_walk(history.last().edges@, p) && closes_cycle(p));
    }
}

/// Where every edge joins two nodes of the graph, `is_acyclic` decides
/// exactly whether the edges hold a cycle.
pub proof fn lemma_acyclic_check_exact(g: DataTransformationGraph)
    requires
        forall|i: int| 0 <= i < g.edges@.len() ==> {
            &&& g.nodes@.dom().contains(#[trigger] g.edges@[i].source)
            &&& g.nodes@.dom().contains(g.edges@[i].target)
        },
    ensures
        has_reachable_cycle(g.nodes@.dom(), g.edges@) <==> has_cycle(g.edges@),
{
    let edges = g.edges@;
    if has_reachable_cycle(g.nodes@.dom(), edges) {
        let p = choose|p: Seq<u128>| #[trigger] is_walk(edges, p) && g.nodes@.dom().contains(p[0]) && closes_cycle(p);
        assert(is_walk(edges, p) && closes_cycle(p));
    }
    if has_cycle(edges) {
        let p = choose|p: Seq<u128>| #[trigger] is_walk(edges, p) && closes_cycle(p);
        let j = choose|j: int| 0 <= j < p.len() - 1 && #[trigger] p[j] == p.last();
        let c = p.subrange(j, p.len() as int);
        assert forall|i: int| 0 <= i < c.len() - 1 implies #[trigger] has_edge(edges, c[i], c[i + 1]) by {
            assert(has_edge(edges, p[j + i], p[j + i + 1]));
        }
        let z: int = 0;
        assert(has_edge(edges, c[z], c[z + 1]));
        let i = choose|i: int| 0 <= i < edges.len() && edges[i].source == c[0] && #[trigger] edges[i].target == c[1];
        assert(g.nodes@.dom().contains(edges[i].source));
        assert(c[0] == c[c.len() - 1]);
        assert(is_walk(edges, c) && g.nodes@.dom().contains(c[0]) && closes_cycle(c));
    }
}

/// Appending an edge from `s` to `t` to `edges` would give a cycle that a
/// walk from `starts` runs into. Only the endpoints of the edge matter.
pub open spec fn would_close_cycle(starts: Set<u128>, edges: Seq<DtgEdge>, s: u128, t: u128) -> bool {
    exists|e: DtgEdge| e.source == s && e.target == t && #[trigger] has_reachable_cycle(starts, edges.push(e))
}

proof fn lemma_cycle_depends_on_endpoints(starts: Set<u128>, edges: Seq<DtgEdge>, e1: DtgEdge, e2: DtgEdge)
    requires
        e1.source == e2.source,
        e1.target == e2.target,
        has_reachable_cycle(starts, edges.push(e1)),
    ensures
        has_reachable_cycle(starts, edges.push(e2)),
{
    let p = choose|p: Seq<u128>| #[trigger] is_walk(edges.push(e1), p) && starts.contains(p[0]) && closes_cycle(p);
    assert forall|i: int| 0 <= i < p.len() - 1 implies #[trigger] has_edge(edges.push(e2), p[i], p[i + 1]) by {
        assert(has_edge(edges.push(e1), p[i], p[i + 1]));
        lemma_has_edge_push(edges, e1, p[i], p[i + 1]);
        lemma_has_edge_push(edges, e2, p[i], p[i + 1]);
    }
    assert(is_walk(edges.push(e2), p));
}


impl DataTransformationGraph {
    /// The vertices a search can meet: the nodes and every edge endpoint.
    pub open spec fn vertices(self) -> Set<u128> {
        self.nodes@.dom() + endpoints(self.edges@)
    }

    proof fn lemma_vertices_finite(self)
        ensures
            self.vertices().finite(),
    {
        lemma_endpoints(self.edges@);
        assert(self.nodes@.dom().finite());
    }

    /// Whether no cycle of the edge relation can be reached from a node of
    /// the graph. Cycles among ids that are not nodes, and that no node
    /// leads to, are not looked for.
    pub fn is_acyclic(&self) -> (r: bool)
        ensures
            r == !has_reachable_cycle(self.nodes@.dom(), self.edges@),
    {
        let adj = self.targets_index();
        let mut visited: HashSet<u128> = HashSet::new();
        let mut on_stack: HashSet<u128> = HashSet::new();
        let mut fin: Ghost<Map<u128, nat>> = Ghost(Map::empty());
        let mut clock: Ghost<nat> = Ghost(0);
        for node_id in it: self.nodes.keys()
            invariant
                indexes_targets(adj@, self.edges@),
                it.seq().unref().to_set() == self.nodes@.dom(),
                forall|j: int| 0 <= j < it.index() ==> visited@.contains(*it.seq()[j]),
                on_stack@ == Set::<u128>::empty(),
                search_sound(self.edges@, visited@, on_stack@, fin@, clock@),
                it.index() == it.seq().len() ==> forall|k: u128| #[trigger] self.nodes@.dom().contains(k) ==> fin@.contains_key(k),
        {
            assert(it.seq().unref().to_set().contains(it.seq().unref()[it.index() as int]));
            if !visited.contains(node_id) {
                if self.has_cycle_dfs(&adj, *node_id, &mut visited, &mut on_stack, &mut fin, &mut clock) {
                    proof {
                        let k = *node_id;
                        let p = choose|p: Seq<u128>| #[trigger] is_walk(self.edges@, p) && set![k].contains(p[0]) && closes_cycle(p);
                        assert(is_walk(self.edges@, p) && self.nodes@.dom().contains(p[0]) && closes_cycle(p));
                    }
                    return false;
                }
            }
            assert forall|k: u128| #[trigger] self.nodes@.dom().contains(k) && it.index() + 1 == it.seq().len() implies fin@.contains_key(k) by {
                assert(it.seq().unref().to_set().contains(k));
                let j = choose|j: int| 0 <= j < it.seq().unref().len() && it.seq().unref()[j] == k;
                assert(visited@.contains(*it.seq()[j]));
            }
        }
        proof {
            lemma_finished_starts_reach_no_cycle(self.nodes@.dom(), self.edges@, fin@);
        }
        true
    }

    /// The targets of every vertex's outgoing edges, built in one pass over
    /// the edges so that the search reads each edge once.
    fn targets_index(&self) -> (adj: HashMap<u128, Vec<u128>>)
        ensures
            indexes_targets(adj@, self.edges@),
    {
        let mut adj: HashMap<u128, Vec<u128>> = HashMap::new();
        let n = self.edges.len();
        for i in 0..n
            invariant
                n == self.edges@.len(),
                indexes_targets(adj@, self.edges@.subrange(0, i as int)),
        {
            proof { lemma_edges_prefix(self.edges@, i as int); }
            let s = self.edges[i].source;
            let t = self.edges[i].target;
            let ghost before = adj@;
            let mut list: Vec<u128> = match adj.remove(&s) {
                Some(v) => v,
                None => Vec::new(),
            };
            assert(list@ == targets_in(before, s));
            list.push(t);
            adj.insert(s, list);
            proof {
                let pre = self.edges@.subrange(0, i as int);
                let cur = self.edges@.subrange(0, i as int + 1);
                assert forall|x: u128| #[trigger] targets_in(adj@, x) == targets_from(cur, x) by {
                    assert(targets_in(before, x) == targets_from(pre, x));
                    if x != s {
                        assert(targets_in(adj@, x) == targets_in(before, x));
                    }
                }
            }
        }
        assert(self.edges@.subrange(0, n as int) == self.edges@);
        adj
    }

    /// Adds an edge only between existing nodes, and only if the graph stays
    /// free of cycles reachable from its nodes; otherwise changes nothing and
    /// says why. The source is checked before the target.
    pub fn add_edge_checked(&mut self, source: u128, target: u128, data_ref: u128, edge_type: String) -> (r: Result<(), DtgError>)
        ensures
            !old(self).nodes@.dom().contains(source) ==> r == Err::<(), DtgError>(DtgError::UnknownNodeReference(source)),
            old(self).nodes@.dom().contains(source) && !old(self).nodes@.dom().contains(target)
                ==> r == Err::<(), DtgError>(DtgError::UnknownNodeReference(target)),
            old(self).nodes@.dom().contains(source) && old(self).nodes@.dom().contains(target) ==> {
                ||| r == Err::<(), DtgError>(DtgError::CycleIntroduced)
                    && would_close_cycle(old(self).nodes@.dom(), old(self).edges@, source, target)
                ||| r is Ok && !would_close_cycle(old(self).nodes@.dom(), old(self).edges@, source, target)
            },
            r is Ok ==> {
                &&& !has_reachable_cycle(final(self).nodes@.dom(), final(self).edges@)
                &&& edge_added(*old(self), *final(self))
                &&& final(self).edges@.last().source == source
                &&& final(self).edges@.last().target == target
                &&& final(self).edges@.last().data_ref == data_ref
                &&& final(self).edges@.last().edge_type == edge_type
                &&& *final(self) == (DataTransformationGraph { edges: final(self).edges, ..*old(self) })
            },
            r is Err ==> final(self).edges@ == old(self).edges@
                && *final(self) == (DataTransformationGraph { edges: final(self).edges, ..*old(self) }),
    {
        if !self.nodes.contains_key(&source) {
            return Err(DtgError::UnknownNodeReference(source));
        }
        if !self.nodes.contains_key(&target) {
            return Err(DtgError::UnknownNodeReference(target));
        }
        self.add_edge(source, target, data_ref, edge_type);
        let ghost added = self.edges@.last();
        proof {
            assert(self.edges@ == old(self).edges@.push(added));
        }
        if self.is_acyclic() {
            proof {
                if would_close_cycle(old(self).nodes@.dom(), old(self).edges@, source, target) {
                    let e = choose|e: DtgEdge| e.source == source && e.target == target
                        && #[trigger] has_reachable_cycle(old(self).nodes@.dom(), old(self).edges@.push(e));
                    lemma_cycle_depends_on_endpoints(old(self).nodes@.dom(), old(self).edges@, e, added);
                }
            }
            Ok(())
        } else {
            self.edges.pop();
            proof {
                assert(self.edges@ =~= old(self).edges@);
                assert(has_reachable_cycle(old(self).nodes@.dom(), old(self).edges@.push(added)));
            }
            Err(DtgError::CycleIntroduced)
        }
    }

    /// Searches depth-first from `node_id`, which has not been visited;
    /// `on_stack` holds the vertices of the enclosing searches, each of which
    /// reaches `node_id`. Returns true when an edge back into the stack is
    /// found: a cycle is then reachable from `node_id`. Otherwise leaves the
    /// stack as it was, and adds to `visited` `node_id` and only vertices
    /// reachable from it. The ghost `fin` and `clock` record finishing times:
    /// if they were sound before the call, they are sound after it, with
    /// `node_id` finished.
    fn has_cycle_dfs(
        &self,
        adj: &HashMap<u128, Vec<u128>>,
        node_id: u128,
        visited: &mut HashSet<u128>,
        on_stack: &mut HashSet<u128>,
        fin: &mut Ghost<Map<u128, nat>>,
        clock: &mut Ghost<nat>,
    ) -> (r: bool)
        requires
            indexes_targets(adj@, self.edges@),
            !old(visited)@.contains(node_id),
            old(on_stack)@ <= old(visited)@,
            forall|x: u128| #[trigger] old(on_stack)@.contains(x) ==> reaches(self.edges@, x, node_id),
        ensures
            r ==> has_reachable_cycle(set![node_id], self.edges@),
            !r ==> {
                &&& final(on_stack)@ == old(on_stack)@
                &&& old(visited)@.insert(node_id) <= final(visited)@
                &&& final(visited)@ <= old(visited)@ + reachable_from(self.edges@, node_id)
                &&& search_sound(self.edges@, old(visited)@, old(on_stack)@, old(fin)@, old(clock)@) ==> {
                    &&& search_sound(self.edges@, final(visited)@, final(on_stack)@, final(fin)@, final(clock)@)
                    &&& forall|x: u128| #[trigger] old(fin)@.contains_key(x) ==> final(fin)@.contains_key(x) && final(fin)@[x] == old(fin)@[x]
                    &&& final(fin)@.contains_key(node_id)
                }
            },
        decreases (self.vertices() - old(visited)@).len(),
    {
        let ghost vs0 = visited@;
        let ghost st0 = on_stack@;
        let ghost fin0 = fin@;
        let ghost sound0 = search_sound(self.edges@, visited@, on_stack@, fin@, clock@);
        proof {
            self.lemma_vertices_finite();
            lemma_reaches_self(self.edges@, node_id);
        }
        visited.insert(node_id);
        on_stack.insert(node_id);
        let empty: Vec<u128> = Vec::new();
        let deps: &Vec<u128> = match adj.get(&node_id) {
            Some(v) => v,
            None => &empty,
        };
        assert(deps@ == targets_from(self.edges@, node_id)) by {
            assert(targets_in(adj@, node_id) == targets_from(self.edges@, node_id));
        }
        let mut i: usize = 0;
        while i < deps.len()
            invariant
                0 <= i <= deps@.len(),
                deps@ == targets_from(self.edges@, node_id),
                indexes_targets(adj@, self.edges@),
                self.vertices().finite(),
                vs0 == old(visited)@,
                !vs0.contains(node_id),
                st0 <= vs0,
                forall|x: u128| #[trigger] st0.contains(x) ==> reaches(self.edges@, x, node_id),
                on_stack@ == st0.insert(node_id),
                vs0.insert(node_id) <= visited@,
                visited@ <= vs0 + reachable_from(self.edges@, node_id),
                on_stack@ <= visited@,
                sound0 == search_sound(self.edges@, vs0, st0, fin0, old(clock)@),
                sound0 ==> {
                    &&& forall|x: u128| #[trigger] fin@.contains_key(x) <==> (visited@.contains(x) && !on_stack@.contains(x))
                    &&& finished_closed(self.edges@, fin@)
                    &&& forall|x: u128| #[trigger] fin@.contains_key(x) ==> fin@[x] < clock@
                    &&& forall|x: u128| #[trigger] fin0.contains_key(x) ==> fin@.contains_key(x) && fin@[x] == fin0[x]
                    &&& forall|j: int| 0 <= j < i ==> fin@.contains_key(#[trigger] deps@[j])
                },
            decreases deps@.len() - i,
        {
            let d = deps[i];
            proof {
                assert(targets_from(self.edges@, node_id).contains(d));
                lemma_adjacency_lists(self.edges@, node_id, d);
                lemma_endpoints(self.edges@);
            }
            if !visited.contains(&d) {
                proof {
                    let vv = self.vertices();
                    assert(vv.contains(node_id));
                    assert((vv - visited@) <= (vv - vs0).remove(node_id));
                    vstd::set_lib::lemma_len_subset(vv - visited@, (vv - vs0).remove(node_id));
                    assert forall|x: u128| #[trigger] on_stack@.contains(x) implies reaches(self.edges@, x, d) by {
                        if x == node_id {
                            lemma_reaches_self(self.edges@, node_id);
                        }
                        lemma_reaches_append(self.edges@, x, node_id, d);
                    }
                }
                let ghost vs1 = visited@;
                if self.has_cycle_dfs(adj, d, visited, on_stack, fin, clock) {
                    proof { lemma_cycle_prepend(self.edges@, node_id, d); }
                    return true;
                }
                proof {
                    assert forall|x: u128| #[trigger] visited@.contains(x) implies (vs0 + reachable_from(self.edges@, node_id)).contains(x) by {
                        if !vs1.contains(x) {
                            assert(reachable_from(self.edges@, d).contains(x));
                            lemma_reaches_prepend(self.edges@, node_id, d, x);
                        }
                    }
                }
            } else if on_stack.contains(&d) {
                proof {
                    if d != node_id {
                        assert(st0.contains(d));
                    }
                    assert(reaches(self.edges@, d, node_id));
                    let p = choose|p: Seq<u128>| #[trigger] is_walk(self.edges@, p) && p[0] == d && p.last() == node_id;
                    lemma_walk_prepend(self.edges@, node_id, p);
                    let q = seq![node_id] + p;
                    assert(q[0] == q.last());
                    assert(is_walk(self.edges@, q) && set![node_id].contains(q[0]) && closes_cycle(q));
                }
                return true;
            }
            i = i + 1;
        }
        on_stack.remove(&node_id);
        proof {
            if sound0 {
                assert forall|v: u128| #[trigger] has_edge(self.edges@, node_id, v) implies fin@.contains_key(v) && fin@[v] < clock@ by {
                    lemma_adjacency_lists(self.edges@, node_id, v);
                    let j = choose|j: int| 0 <= j < deps@.len() && deps@[j] == v;
                    assert(fin@.contains_key(deps@[j]));
                }
            }
        }
        *fin = Ghost(fin@.insert(node_id, clock@));
        *clock = Ghost(clock@ + 1);
        proof {
            assert(on_stack@ =~= st0);
        }
        false
    }
}

} // verus!
