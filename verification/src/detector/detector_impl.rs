//! Finds the dependency cycles of a workspace graph: each strongly connected
//! component with more than one workspace becomes a cycle that holds every
//! edge between distinct workspaces of the component.

use petgraph::graph::DiGraph;
use vstd::prelude::*;

use crate::detector::cycle::{
    edge_views, CycleEdge, CycleView, EdgeView, WorkspaceCycle, WorkspaceCycleBuilder,
};
use crate::error::FerrisWheelError;
use crate::graph::petgraph_api::{
    arcs_of, edge_count, edge_endpoints, edge_weight, graph_edges, graph_nodes, index_view,
    node_count, node_weight, out_edge_lists, out_edges, scc_partition, successor_lists, tarjan_components, tarjan_scc,
    edges_within_nodes, out_lists_complete,
};
use crate::graph::types::{dep_type_name, DependencyEdge, WorkspaceNode};
use crate::text::{dup, sorted_insert, sorted_set, str_eq, views};

verus! {

/// The name of node `i`.
pub open spec fn node_name(g: DiGraph<WorkspaceNode, DependencyEdge>, i: int) -> Seq<char> {
    graph_nodes(g)[i].name@
}

/// Edge `k` of the graph as a cycle edge.
pub open spec fn graph_edge_view(g: DiGraph<WorkspaceNode, DependencyEdge>, k: int) -> EdgeView {
    let e = graph_edges(g)[k];
    (node_name(g, e.0), node_name(g, e.1), e.2.from_crate@, e.2.to_crate@, dep_type_name(e.2.dependency_type))
}

/// Among the first `j` edges of the list `outs` of `from`'s outgoing edges,
/// those that lead to another node of `comp`, in the order of the list.
pub open spec fn scc_out_edges(g: DiGraph<WorkspaceNode, DependencyEdge>, comp: Seq<int>, from: int, outs: Seq<int>, j: nat)
    -> Seq<EdgeView>
    decreases j,
{
    if j == 0 {
        Seq::empty()
    } else {
        let prev = scc_out_edges(g, comp, from, outs, (j - 1) as nat);
        let e = graph_edges(g)[outs[j - 1]];
        if e.0 == from && comp.contains(e.1) && e.0 != e.1 {
            prev.push(graph_edge_view(g, outs[j - 1]))
        } else {
            prev
        }
    }
}

/// The edges from `from` to another node of `comp`, in the order in which
/// `Graph::edges` lists `from`'s outgoing edges.
pub open spec fn scc_node_edges(g: DiGraph<WorkspaceNode, DependencyEdge>, comp: Seq<int>, from: int) -> Seq<EdgeView> {
    scc_out_edges(g, comp, from, out_edge_lists(g)[from], out_edge_lists(g)[from].len())
}

/// The edges between distinct nodes of `comp` that leave its first `k`
/// nodes: node by node, and for each node in the order of its edge list.
pub open spec fn scc_edges(g: DiGraph<WorkspaceNode, DependencyEdge>, comp: Seq<int>, k: nat) -> Seq<EdgeView>
    decreases k,
{
    if k == 0 {
        Seq::empty()
    } else {
        scc_edges(g, comp, (k - 1) as nat) + scc_node_edges(g, comp, comp[k - 1])
    }
}

/// The names of the nodes of `comp`.
pub open spec fn scc_names(g: DiGraph<WorkspaceNode, DependencyEdge>, comp: Seq<int>) -> Seq<Seq<char>> {
    comp.map_values(|i: int| node_name(g, i))
}

/// The workspaces of each edge, source then target.
pub open spec fn endpoint_names(edges: Seq<EdgeView>) -> Seq<Seq<char>>
    decreases edges.len(),
{
    if edges.len() == 0 {
        Seq::empty()
    } else {
        endpoint_names(edges.drop_last()) + seq![edges.last().0, edges.last().1]
    }
}

/// Some edge goes from workspace `a` to workspace `b`.
pub open spec fn has_direction(edges: Seq<EdgeView>, a: Seq<char>, b: Seq<char>) -> bool {
    exists|k: int| 0 <= k < edges.len() && (#[trigger] edges[k]).0 == a && edges[k].1 == b
}

/// The cycle that a strongly connected component yields: none for a single
/// node or a component without edges, none for two workspaces unless each
/// depends on the other, and otherwise its workspaces with all its edges.
pub open spec fn scc_cycle(g: DiGraph<WorkspaceNode, DependencyEdge>, comp: Seq<int>) -> Option<CycleView> {
    let edges = scc_edges(g, comp, comp.len());
    if comp.len() < 2 || edges.len() == 0 {
        None
    } else if comp.len() == 2 && !(has_direction(edges, node_name(g, comp[0]), node_name(g, comp[1]))
        && has_direction(edges, node_name(g, comp[1]), node_name(g, comp[0]))) {
        None
    } else {
        Some((sorted_set(scc_names(g, comp) + endpoint_names(edges)), edges))
    }
}

/// The strongly connected components of the graph, as `tarjan_scc` returns them.
pub open spec fn graph_components(g: DiGraph<WorkspaceNode, DependencyEdge>) -> Seq<Seq<int>> {
    tarjan_components(graph_nodes(g).len(), successor_lists(g))
}

/// The cycles of a graph, one per component that yields one, in component order.
pub open spec fn detected_cycles(g: DiGraph<WorkspaceNode, DependencyEdge>) -> Seq<CycleView> {
    graph_components(g).filter_map(|c: Seq<int>| scc_cycle(g, c))
}

/// Detector for finding dependency cycles in workspace graphs.
pub struct CycleDetector {
    cycles: Vec<WorkspaceCycle>,
}

impl View for CycleDetector {
    type V = Seq<CycleView>;

    closed spec fn view(&self) -> Seq<CycleView> {
        self.cycles@.map_values(|c: WorkspaceCycle| c@)
    }
}

impl CycleDetector {
    /// The detected cycles themselves.
    pub closed spec fn cycles_spec(&self) -> Seq<WorkspaceCycle> {
        self.cycles@
    }
}

/// Whether some edge goes from `a` to `b`.
fn any_direction(edges: &[CycleEdge], a: &str, b: &str) -> (r: bool)
    ensures
        r == has_direction(edge_views(edges@), a@, b@),
{
    let ghost ev = edge_views(edges@);
    for i in 0..edges.len()
        invariant
            ev == edge_views(edges@),
            forall|k: int| 0 <= k < i ==> !((#[trigger] ev[k]).0 == a@ && ev[k].1 == b@),
    {
        assert(ev[i as int] == edges@[i as int]@);
        if str_eq(edges[i].from_workspace.as_str(), a) && str_eq(edges[i].to_workspace.as_str(), b) {
            return true;
        }
    }
    false
}

/// Whether `c` holds `x`.
fn contains_index(c: &[usize], x: usize) -> (r: bool)
    ensures
        r == index_view(c@).contains(x as int),
{
    for i in 0..c.len()
        invariant
            forall|k: int| 0 <= k < i ==> c@[k] != x,
    {
        if c[i] == x {
            assert(index_view(c@)[i as int] == x as int);
            return true;
        }
    }
    assert forall|k: int| 0 <= k < index_view(c@).len() implies index_view(c@)[k] != x as int by {
        assert(c@[k] != x);
    }
    false
}

impl CycleDetector {
    /// Create a new cycle detector.
    pub fn new() -> (r: Self)
        ensures
            r@ == Seq::<CycleView>::empty(),
            r.cycles_spec() == Seq::<WorkspaceCycle>::empty(),
    {
        let r = CycleDetector { cycles: Vec::new() };
        assert(r@ =~= Seq::<CycleView>::empty());
        r
    }

    /// Detect all cycles in the dependency graph and add them to the ones
    /// already found.
    ///
    /// Uses Tarjan's algorithm to find strongly connected components; each
    /// component of two or more workspaces that depend on each other becomes
    /// one cycle.
    pub fn detect_cycles(&mut self, graph: &DiGraph<WorkspaceNode, DependencyEdge>) -> (r: Result<(), FerrisWheelError>)
        ensures
            r is Ok,
            final(self)@ == old(self)@ + detected_cycles(*graph),
            edges_within_nodes(*graph),
            out_lists_complete(*graph),
            scc_partition(graph_nodes(*graph).len(), arcs_of(*graph), graph_components(*graph)),
    {
        let m = edge_count(graph);
        assert(edges_within_nodes(*graph));
        assert(out_lists_complete(*graph));
        let sccs = tarjan_scc(graph);
        let ghost comps = sccs@.map_values(|c: Vec<usize>| index_view(c@));
        let ghost f = |c: Seq<int>| scc_cycle(*graph, c);
        let ghost start = self@;
        for i in 0..sccs.len()
            invariant
                comps == sccs@.map_values(|c: Vec<usize>| index_view(c@)),
                comps == graph_components(*graph),
                scc_partition(graph_nodes(*graph).len(), arcs_of(*graph), comps),
                f == (|c: Seq<int>| scc_cycle(*graph, c)),
                self@ == start + comps.take(i as int).filter_map(f),
        {
            proof {
                comps.lemma_filter_map_take_succ(f, i as int);
            }
            let ghost before = self@;
            assert(comps[i as int] == index_view(sccs@[i as int]@));
            if sccs[i].len() > 1 {
                assert forall|j: int| 0 <= j < sccs@[i as int]@.len() implies
                    (#[trigger] sccs@[i as int]@[j]) < graph_nodes(*graph).len() by {
                    reveal(scc_partition);
                    assert(comps[i as int][j] == sccs@[i as int]@[j] as int);
                }
                self.find_all_cycles_in_scc(graph, sccs[i].as_slice());
            } else {
                assert(scc_cycle(*graph, comps[i as int]) is None);
            }
            assert(self@ =~= start + comps.take(i + 1).filter_map(f));
        }
        assert(comps.take(sccs.len() as int) =~= comps);
        Ok(())
    }

    fn find_all_cycles_in_scc(&mut self, graph: &DiGraph<WorkspaceNode, DependencyEdge>, scc: &[usize])
        requires
            forall|j: int| 0 <= j < scc@.len() ==> (#[trigger] scc@[j]) < graph_nodes(*graph).len(),
        ensures
            final(self)@ == old(self)@ + match scc_cycle(*graph, index_view(scc@)) {
                Some(c) => seq![c],
                None => Seq::<CycleView>::empty(),
            },
    {
        let ghost comp = index_view(scc@);
        if scc.len() < 2 {
            assert(self@ =~= old(self)@ + Seq::<CycleView>::empty());
            return;
        }
        // The workspace names of the component.
        let mut names: Vec<String> = Vec::new();
        for k in 0..scc.len()
            invariant
                comp == index_view(scc@),
                forall|j: int| 0 <= j < scc@.len() ==> (#[trigger] scc@[j]) < graph_nodes(*graph).len(),
                names@.len() == k,
                views(names@) == scc_names(*graph, comp).take(k as int),
        {
            let node = node_weight(graph, scc[k]);
            let name = dup(&node.name);
            assert(name@ == node_name(*graph, comp[k as int]));
            let ghost before = names@;
            names.push(name);
            assert(views(names@) =~= scc_names(*graph, comp).take(k + 1)) by {
                assert(names@ == before.push(name));
            }
        }
        assert(scc_names(*graph, comp).take(scc.len() as int) =~= scc_names(*graph, comp));
        let mut builder = WorkspaceCycleBuilder::new().with_workspace_names(names);
        let ghost base = scc_names(*graph, comp);
        proof {
            assert(base + endpoint_names(Seq::<EdgeView>::empty()) =~= base);
        }
        for k in 0..scc.len()
            invariant
                comp == index_view(scc@),
                base == scc_names(*graph, comp),
                forall|j: int| 0 <= j < scc@.len() ==> (#[trigger] scc@[j]) < graph_nodes(*graph).len(),
                builder@.1 == scc_edges(*graph, comp, k as nat),
                builder@.0 == sorted_set(base + endpoint_names(builder@.1)),
        {
            let from = scc[k];
            assert(comp[k as int] == from as int);
            let outs = out_edges(graph, from);
            let ghost ov = index_view(outs@);
            for j in 0..outs.len()
                invariant
                    comp == index_view(scc@),
                    base == scc_names(*graph, comp),
                    ov == index_view(outs@),
                    ov == out_edge_lists(*graph)[from as int],
                    forall|q: int| 0 <= q < outs@.len() ==> (#[trigger] outs@[q]) < graph_edges(*graph).len()
                        && graph_edges(*graph)[outs@[q] as int].0 == from,
                    forall|j: int| 0 <= j < scc@.len() ==> (#[trigger] scc@[j]) < graph_nodes(*graph).len(),
                    comp[k as int] == from as int,
                    k < scc@.len(),
                    builder@.1 == scc_edges(*graph, comp, k as nat) + scc_out_edges(*graph, comp, from as int, ov, j as nat),
                    builder@.0 == sorted_set(base + endpoint_names(builder@.1)),
            {
                let e = outs[j];
                assert(ov[j as int] == e as int);
                let (s, t) = edge_endpoints(graph, e);
                if s == from && contains_index(scc, t) && s != t {
                    let w = edge_weight(graph, e);
                    let edge = CycleEdge {
                        from_workspace: dup(&node_weight(graph, s).name),
                        to_workspace: dup(&node_weight(graph, t).name),
                        from_crate: dup(&w.from_crate),
                        to_crate: dup(&w.to_crate),
                        dependency_type: w.dependency_type.name(),
                    };
                    let ghost ev = edge@;
                    let ghost old_b = builder@;
                    assert(ev == graph_edge_view(*graph, e as int));
                    builder.add_edge_internal(edge);
                    proof {
                        let edges = builder@.1;
                        assert(edges =~= old_b.1.push(ev));
                        assert(edges.drop_last() =~= old_b.1);
                        assert(endpoint_names(edges) == endpoint_names(old_b.1) + seq![ev.0, ev.1]);
                        let a = base + endpoint_names(old_b.1);
                        assert(base + endpoint_names(edges) =~= a.push(ev.0).push(ev.1));
                        assert(a.push(ev.0).push(ev.1).drop_last() =~= a.push(ev.0));
                        assert(a.push(ev.0).drop_last() =~= a);
                        assert(sorted_set(a.push(ev.0)) == sorted_insert(sorted_set(a), ev.0));
                        assert(sorted_set(a.push(ev.0).push(ev.1)) == sorted_insert(sorted_set(a.push(ev.0)), ev.1));
                        assert(scc_edges(*graph, comp, k as nat) + scc_out_edges(*graph, comp, from as int, ov, (j + 1) as nat)
                            =~= (scc_edges(*graph, comp, k as nat) + scc_out_edges(*graph, comp, from as int, ov, j as nat)).push(ev));
                    }
                }
            }
            assert(scc_edges(*graph, comp, (k + 1) as nat)
                == scc_edges(*graph, comp, k as nat) + scc_out_edges(*graph, comp, from as int, ov, ov.len()));
        }
        let ghost edges = builder@.1;
        assert(edges == scc_edges(*graph, comp, comp.len()));
        if builder.edges().len() > 0 {
            if scc.len() == 2 {
                let ws1 = dup(&node_weight(graph, scc[0]).name);
                let ws2 = dup(&node_weight(graph, scc[1]).name);
                let has_forward = any_direction(builder.edges(), ws1.as_str(), ws2.as_str());
                let has_backward = any_direction(builder.edges(), ws2.as_str(), ws1.as_str());
                if has_forward && has_backward {
                    let cycle = builder.build();
                    self.cycles.push(cycle);
                    assert(self@ =~= old(self)@ + seq![cycle@]);
                } else {
                    assert(self@ =~= old(self)@ + Seq::<CycleView>::empty());
                }
            } else {
                let cycle = builder.build();
                self.cycles.push(cycle);
                assert(self@ =~= old(self)@ + seq![cycle@]);
            }
        } else {
            assert(self@ =~= old(self)@ + Seq::<CycleView>::empty());
        }
    }

    /// Get all detected cycles.
    pub fn cycles(&self) -> (r: &[WorkspaceCycle])
        ensures
            r@.map_values(|c: WorkspaceCycle| c@) == self@,
            r@ == self.cycles_spec(),
    {
        self.cycles.as_slice()
    }

    /// Check if any cycles were detected.
    pub fn has_cycles(&self) -> (r: bool)
        ensures
            r == (self@.len() > 0),
    {
        self.cycles.len() > 0
    }

    /// Get the number of detected cycles.
    pub fn cycle_count(&self) -> (r: usize)
        ensures
            r == self@.len(),
    {
        self.cycles.len()
    }

    /// Add a cycle to the detector (used for filtered results).
    pub fn add_cycle(&mut self, cycle: WorkspaceCycle)
        ensures
            final(self)@ == old(self)@.push(cycle@),
            final(self).cycles_spec() == old(self).cycles_spec().push(cycle),
    {
        self.cycles.push(cycle);
        assert(self@ =~= old(self)@.push(cycle@));
    }
}


/// A detector that starts empty and has cycles added one at a time holds
/// them in the order they were added, each once, unchanged: where
/// `states[0]` is a detector as `CycleDetector::new` returns it and each next
/// state is what `add_cycle` of the next cycle leaves, `cycles()` of the last
/// state gives exactly the added cycles.
pub proof fn law_cycles_in_insertion_order(states: Seq<CycleDetector>, added: Seq<WorkspaceCycle>)
    requires
        states.len() == added.len() + 1,
        states[0].cycles_spec() == Seq::<WorkspaceCycle>::empty(),
        forall|i: int| 0 <= i < added.len() ==>
            #[trigger] states[i + 1].cycles_spec() == states[i].cycles_spec().push(added[i]),
    ensures
        states[added.len() as int].cycles_spec() == added,
{
    let n = added.len() as int;
    assert forall|i: int| 0 <= i <= n implies #[trigger] states[i].cycles_spec() == added.take(i) by {
        lemma_states_prefix(states, added, i);
    }
    assert(added.take(n) =~= added);
}

proof fn lemma_states_prefix(states: Seq<CycleDetector>, added: Seq<WorkspaceCycle>, i: int)
    requires
        states.len() == added.len() + 1,
        states[0].cycles_spec() == Seq::<WorkspaceCycle>::empty(),
        forall|i: int| 0 <= i < added.len() ==>
            #[trigger] states[i + 1].cycles_spec() == states[i].cycles_spec().push(added[i]),
        0 <= i <= added.len(),
    ensures
        states[i].cycles_spec() == added.take(i),
    decreases i,
{
    if i == 0 {
        assert(added.take(0) =~= Seq::<WorkspaceCycle>::empty());
    } else {
        lemma_states_prefix(states, added, i - 1);
        assert(states[(i - 1) + 1].cycles_spec() == states[i - 1].cycles_spec().push(added[i - 1]));
        assert(added.take(i) =~= added.take(i - 1).push(added[i - 1]));
    }
}

} // verus!
