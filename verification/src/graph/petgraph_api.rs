//! The workspace graph is a `petgraph` directed graph. This module declares
//! that type to Verus, names what it holds, and gives each graph operation
//! that the library uses a contract over those names.

use petgraph::graph::{DiGraph, EdgeIndex, NodeIndex};
use petgraph::visit::EdgeRef;
use vstd::prelude::*;

use crate::graph::types::{DependencyEdge, WorkspaceNode};

verus! {

#[verifier::external_type_specification]
#[verifier::external_body]
#[verifier::reject_recursive_types(N)]
#[verifier::reject_recursive_types(E)]
#[verifier::reject_recursive_types(Ty)]
#[verifier::reject_recursive_types(Ix)]
pub struct ExGraph<N, E, Ty, Ix>(petgraph::graph::Graph<N, E, Ty, Ix>);

#[verifier::external_type_specification]
#[verifier::external_body]
pub struct ExDirected(petgraph::Directed);

/// The node weights of a workspace graph, in node-index order.
pub uninterp spec fn graph_nodes(g: DiGraph<WorkspaceNode, DependencyEdge>) -> Seq<WorkspaceNode>;

/// The edges of a workspace graph in edge-index order: source index, target
/// index and weight.
pub uninterp spec fn graph_edges(g: DiGraph<WorkspaceNode, DependencyEdge>) -> Seq<(int, int, DependencyEdge)>;

/// For each node of a workspace graph, in node-index order, the indices of
/// its outgoing edges in the order in which `Graph::edges` and
/// `Graph::neighbors` list them (each node's linked list of edges).
pub uninterp spec fn out_edge_lists(g: DiGraph<WorkspaceNode, DependencyEdge>) -> Seq<Seq<int>>;

/// The strongly connected components that `tarjan_scc` returns for a graph
/// with `n` nodes whose successors `Graph::neighbors` lists as `succ`, in
/// the order it returns them.
pub uninterp spec fn tarjan_components(n: nat, succ: Seq<Seq<int>>) -> Seq<Seq<int>>;

/// Each node's successors in the order `Graph::neighbors` lists them.
pub open spec fn successor_lists(g: DiGraph<WorkspaceNode, DependencyEdge>) -> Seq<Seq<int>> {
    out_edge_lists(g).map_values(|l: Seq<int>| l.map_values(|k: int| graph_edges(g)[k].1))
}

/// Every edge joins two nodes of the graph.
pub open spec fn edges_within_nodes(g: DiGraph<WorkspaceNode, DependencyEdge>) -> bool {
    forall|k: int| 0 <= k < graph_edges(g).len() ==>
        0 <= (#[trigger] graph_edges(g)[k]).0 < graph_nodes(g).len()
        && 0 <= graph_edges(g)[k].1 < graph_nodes(g).len()
}

/// Every edge is in the list of outgoing edges of its source.
pub open spec fn out_lists_complete(g: DiGraph<WorkspaceNode, DependencyEdge>) -> bool {
    forall|k: int| 0 <= k < graph_edges(g).len() ==> out_edge_lists(g)[(#[trigger] graph_edges(g)[k]).0].contains(k)
}

/// The largest node or edge count of a graph indexed by `u32`: `add_node` and
/// `add_edge` refuse to hand out the index `u32::MAX`.
pub open spec fn index_limit() -> nat {
    0xFFFF_FFFFnat
}

/// The arcs (source, target) of a graph, in edge-index order.
pub open spec fn arcs_of(g: DiGraph<WorkspaceNode, DependencyEdge>) -> Seq<(int, int)> {
    graph_edges(g).map_values(|e: (int, int, DependencyEdge)| (e.0, e.1))
}

/// An arc joins entries `i` and `i + 1` of `p`.
pub open spec fn walk_step(arcs: Seq<(int, int)>, p: Seq<int>, i: int) -> bool {
    arcs.contains((p[i], p[i + 1]))
}

/// `p` is a walk: consecutive entries are joined by arcs.
pub open spec fn is_walk(arcs: Seq<(int, int)>, p: Seq<int>) -> bool {
    &&& p.len() >= 1
    &&& forall|i: int| 0 <= i < p.len() - 1 ==> #[trigger] walk_step(arcs, p, i)
}

/// `v` can be reached from `u` by following arcs (possibly none).
pub open spec fn reaches(arcs: Seq<(int, int)>, u: int, v: int) -> bool {
    exists|p: Seq<int>| #[trigger] is_walk(arcs, p) && p[0] == u && p.last() == v
}

/// Some component holds `v`.
pub open spec fn in_some_component(comps: Seq<Seq<int>>, v: int) -> bool {
    exists|c: int| 0 <= c < comps.len() && (#[trigger] comps[c]).contains(v)
}

/// `comps` splits the nodes `0..n` into the strongly connected components of
/// the arcs: each node lies in exactly one component, and two nodes share a
/// component exactly when each reaches the other.
#[verifier::opaque]
pub open spec fn scc_partition(n: nat, arcs: Seq<(int, int)>, comps: Seq<Seq<int>>) -> bool {
    &&& forall|c: int| 0 <= c < comps.len() ==> (#[trigger] comps[c]).len() > 0 && comps[c].no_duplicates()
    &&& forall|c: int, j: int| 0 <= c < comps.len() && 0 <= j < comps[c].len() ==>
            0 <= #[trigger] comps[c][j] < n
    &&& forall|v: int| 0 <= v < n ==> #[trigger] in_some_component(comps, v)
    &&& forall|c1: int, c2: int, v: int| 0 <= c1 < comps.len() && 0 <= c2 < comps.len()
            && #[trigger] comps[c1].contains(v) && #[trigger] comps[c2].contains(v) ==> c1 == c2
    &&& forall|c: int, u: int, v: int| 0 <= c < comps.len() && #[trigger] comps[c].contains(u)
            && #[trigger] comps[c].contains(v) ==> reaches(arcs, u, v)
    &&& forall|c: int, u: int, v: int| 0 <= c < comps.len() && #[trigger] comps[c].contains(u)
            && 0 <= v < n && #[trigger] reaches(arcs, u, v) && reaches(arcs, v, u) ==> comps[c].contains(v)
}

/// The integer view of a list of node indices.
pub open spec fn index_view(c: Seq<usize>) -> Seq<int> {
    c.map_values(|x: usize| x as int)
}

/// Calls `Graph::node_count`: the number of nodes, which `add_node` keeps
/// within `u32` indices.
#[verifier::external_body]
pub(crate) fn node_count(g: &DiGraph<WorkspaceNode, DependencyEdge>) -> (r: usize)
    ensures
        r == graph_nodes(*g).len(),
        r <= index_limit(),
{
    g.node_count()
}

/// Calls `Graph::edge_count`: the number of edges, which `add_edge` keeps
/// within `u32` indices. Each edge joins two existing nodes (`add_edge`
/// refuses others, `remove_node` removes a node's edges) and is linked into
/// the list of outgoing edges of its source.
#[verifier::external_body]
pub(crate) fn edge_count(g: &DiGraph<WorkspaceNode, DependencyEdge>) -> (r: usize)
    ensures
        r == graph_edges(*g).len(),
        r <= index_limit(),
        forall|k: int| 0 <= k < r ==> 0 <= (#[trigger] graph_edges(*g)[k]).0 < graph_nodes(*g).len()
            && 0 <= graph_edges(*g)[k].1 < graph_nodes(*g).len()
            && out_edge_lists(*g)[graph_edges(*g)[k].0].contains(k),
{
    g.edge_count()
}

/// Calls `Graph::new`: a graph with no nodes and no edges.
#[verifier::external_body]
pub(crate) fn new_graph() -> (g: DiGraph<WorkspaceNode, DependencyEdge>)
    ensures
        graph_nodes(g) == Seq::<WorkspaceNode>::empty(),
        graph_edges(g) == Seq::<(int, int, DependencyEdge)>::empty(),
        out_edge_lists(g) == Seq::<Seq<int>>::empty(),
{
    DiGraph::new()
}

/// Calls `Graph::add_node`: appends a node and returns its index. It panics
/// at the index limit, which `requires` leaves out.
#[verifier::external_body]
pub(crate) fn add_node(g: &mut DiGraph<WorkspaceNode, DependencyEdge>, w: WorkspaceNode) -> (r: usize)
    requires
        graph_nodes(*old(g)).len() < index_limit(),
    ensures
        r == graph_nodes(*old(g)).len(),
        graph_nodes(*final(g)) == graph_nodes(*old(g)).push(w),
        graph_edges(*final(g)) == graph_edges(*old(g)),
        out_edge_lists(*final(g)) == out_edge_lists(*old(g)).push(Seq::<int>::empty()),
{
    g.add_node(w).index()
}

/// Calls `Graph::add_edge`: appends an edge from `a` to `b`, which goes
/// first in the list of `a`'s outgoing edges. It panics on a missing node or
/// at the index limit, which `requires` leaves out.
#[verifier::external_body]
pub(crate) fn add_edge(g: &mut DiGraph<WorkspaceNode, DependencyEdge>, a: usize, b: usize, w: DependencyEdge)
    requires
        a < graph_nodes(*old(g)).len(),
        b < graph_nodes(*old(g)).len(),
        graph_edges(*old(g)).len() < index_limit(),
    ensures
        graph_nodes(*final(g)) == graph_nodes(*old(g)),
        graph_edges(*final(g)) == graph_edges(*old(g)).push((a as int, b as int, w)),
        out_edge_lists(*final(g)) == out_edge_lists(*old(g)).update(a as int,
            seq![graph_edges(*old(g)).len() as int] + out_edge_lists(*old(g))[a as int]),
{
    g.add_edge(NodeIndex::new(a), NodeIndex::new(b), w);
}

/// Calls `Graph::node_weight` on an existing node: its weight.
#[verifier::external_body]
pub(crate) fn node_weight(g: &DiGraph<WorkspaceNode, DependencyEdge>, i: usize) -> (r: &WorkspaceNode)
    requires
        i < graph_nodes(*g).len(),
    ensures
        *r == graph_nodes(*g)[i as int],
{
    g.node_weight(NodeIndex::new(i)).unwrap()
}

/// Calls `Graph::edge_endpoints` on an existing edge: its source and target,
/// both existing nodes since `add_edge` accepts no other.
#[verifier::external_body]
pub(crate) fn edge_endpoints(g: &DiGraph<WorkspaceNode, DependencyEdge>, k: usize) -> (r: (usize, usize))
    requires
        k < graph_edges(*g).len(),
    ensures
        r.0 as int == graph_edges(*g)[k as int].0,
        r.1 as int == graph_edges(*g)[k as int].1,
        r.0 < graph_nodes(*g).len(),
        r.1 < graph_nodes(*g).len(),
{
    let (a, b) = g.edge_endpoints(EdgeIndex::new(k)).unwrap();
    (a.index(), b.index())
}

/// Calls `Graph::edge_weight` on an existing edge: its weight.
#[verifier::external_body]
pub(crate) fn edge_weight(g: &DiGraph<WorkspaceNode, DependencyEdge>, k: usize) -> (r: &DependencyEdge)
    requires
        k < graph_edges(*g).len(),
    ensures
        *r == graph_edges(*g)[k as int].2,
{
    g.edge_weight(EdgeIndex::new(k)).unwrap()
}

/// Calls `Graph::edges` on an existing node: the indices of its outgoing
/// edges, in the order of its list. Each of them leaves that node.
#[verifier::external_body]
pub(crate) fn out_edges(g: &DiGraph<WorkspaceNode, DependencyEdge>, a: usize) -> (r: Vec<usize>)
    requires
        a < graph_nodes(*g).len(),
    ensures
        index_view(r@) == out_edge_lists(*g)[a as int],
        forall|i: int| 0 <= i < r@.len() ==> (#[trigger] r@[i]) < graph_edges(*g).len()
            && graph_edges(*g)[r@[i] as int].0 == a,
{
    g.edges(NodeIndex::new(a)).map(|e| e.id().index()).collect()
}

/// Calls `petgraph::algo::tarjan_scc`: the strongly connected components,
/// each as a list of node indices. The documentation promises that each
/// element is a strongly connected component. The algorithm visits the
/// nodes in index order and each node's successors in `neighbors` order,
/// so which order the components come in is a function of those, left to
/// the name `tarjan_components`.
#[verifier::external_body]
pub(crate) fn tarjan_scc(g: &DiGraph<WorkspaceNode, DependencyEdge>) -> (r: Vec<Vec<usize>>)
    ensures
        r@.map_values(|c: Vec<usize>| index_view(c@))
            == tarjan_components(graph_nodes(*g).len(), successor_lists(*g)),
        scc_partition(graph_nodes(*g).len(), arcs_of(*g),
            r@.map_values(|c: Vec<usize>| index_view(c@))),
{
    petgraph::algo::tarjan_scc(g).into_iter().map(|c| c.into_iter().map(|n| n.index()).collect()).collect()
}

} // verus!
