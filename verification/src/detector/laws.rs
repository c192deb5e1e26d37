//! What cycle detection promises of every graph: a strongly connected
//! component of two or more workspaces is always reported as a cycle, and a
//! reported cycle names exactly the workspaces of its component.

use petgraph::graph::DiGraph;
use vstd::prelude::*;

use crate::detector::cycle::{add_to_groups, group_by_direction, group_index, lemma_group_index_bounds, DirectionGroup, EdgeView};
use crate::detector::detector_impl::{
    detected_cycles, endpoint_names, graph_components, graph_edge_view, has_direction, node_name, scc_cycle, scc_edges, scc_names, scc_node_edges,
    scc_out_edges,
};
use crate::graph::petgraph_api::{
    arcs_of, edges_within_nodes, graph_edges, graph_nodes, is_walk, out_edge_lists, out_lists_complete, reaches,
    scc_partition, walk_step,
};
use crate::graph::types::{DependencyEdge, WorkspaceNode};
use crate::text::{lemma_sorted_set_props, sorted_set, strictly_sorted};

verus! {

proof fn lemma_walk_concat(arcs: Seq<(int, int)>, p: Seq<int>, q: Seq<int>)
    requires
        is_walk(arcs, p),
        is_walk(arcs, q),
        p.last() == q[0],
    ensures
        is_walk(arcs, p + q.drop_first()),
        (p + q.drop_first())[0] == p[0],
        (p + q.drop_first()).last() == q.last(),
{
    let qd = q.drop_first();
    let r = p + qd;
    assert(r.len() == p.len() + q.len() - 1);
    assert forall|i: int| 0 <= i < r.len() - 1 implies #[trigger] walk_step(arcs, r, i) by {
        if i < p.len() - 1 {
            assert(r[i] == p[i]);
            assert(r[i + 1] == p[i + 1]);
            assert(walk_step(arcs, p, i));
        } else {
            let j = i - (p.len() - 1);
            if j == 0 {
                assert(r[i] == p[p.len() - 1]);
            } else {
                assert(r[i] == qd[j - 1]);
                assert(qd[j - 1] == q[j]);
            }
            assert(r[i + 1] == qd[j]);
            assert(qd[j] == q[j + 1]);
            assert(walk_step(arcs, q, j));
        }
    }
    assert(r.last() == qd[qd.len() - 1] || q.len() == 1);
}

proof fn lemma_reaches_trans(arcs: Seq<(int, int)>, u: int, v: int, w: int)
    requires
        reaches(arcs, u, v),
        reaches(arcs, v, w),
    ensures
        reaches(arcs, u, w),
{
    let p = choose|p: Seq<int>| #[trigger] is_walk(arcs, p) && p[0] == u && p.last() == v;
    let q = choose|q: Seq<int>| #[trigger] is_walk(arcs, q) && q[0] == v && q.last() == w;
    lemma_walk_concat(arcs, p, q);
    let r = p + q.drop_first();
    assert(is_walk(arcs, r) && r[0] == u && r.last() == w);
}

/// A walk from `u` that ends elsewhere leaves `u` along some arc `(u, w)`
/// with `w != u`, and `u` reaches `w` while `w` reaches the end.
proof fn lemma_first_step(arcs: Seq<(int, int)>, p: Seq<int>, u: int) -> (w: int)
    requires
        is_walk(arcs, p),
        p[0] == u,
        p.last() != u,
    ensures
        w != u,
        arcs.contains((u, w)),
        reaches(arcs, u, w),
        reaches(arcs, w, p.last()),
    decreases p.len(),
{
    assert(walk_step(arcs, p, 0));
    let rest = p.drop_first();
    assert(is_walk(arcs, rest)) by {
        assert forall|i: int| 0 <= i < rest.len() - 1 implies #[trigger] walk_step(arcs, rest, i) by {
            assert(walk_step(arcs, p, i + 1));
            assert(rest[i] == p[i + 1] && rest[i + 1] == p[i + 2]);
        }
    }
    if p[1] != u {
        assert(arcs.contains((p[0], p[1])));
        let step = seq![u, p[1]];
        assert(is_walk(arcs, step)) by {
            assert forall|i: int| 0 <= i < step.len() - 1 implies #[trigger] walk_step(arcs, step, i) by {
                assert(step[0] == p[0] && step[1] == p[1]);
            }
        }
        assert(rest[0] == p[1] && rest.last() == p.last());
        p[1]
    } else {
        assert(rest.last() == p.last());
        lemma_first_step(arcs, rest, u)
    }
}

proof fn lemma_out_edges_has(g: DiGraph<WorkspaceNode, DependencyEdge>, comp: Seq<int>, from: int, outs: Seq<int>, j: nat,
    i: int)
    requires
        0 <= i < j <= outs.len(),
        graph_edges(g)[outs[i]].0 == from,
        comp.contains(graph_edges(g)[outs[i]].1),
        graph_edges(g)[outs[i]].1 != from,
    ensures
        scc_out_edges(g, comp, from, outs, j).contains(graph_edge_view(g, outs[i])),
    decreases j,
{
    let r = scc_out_edges(g, comp, from, outs, j);
    if i < j - 1 {
        lemma_out_edges_has(g, comp, from, outs, (j - 1) as nat, i);
        let prev = scc_out_edges(g, comp, from, outs, (j - 1) as nat);
        let q = choose|q: int| 0 <= q < prev.len() && prev[q] == graph_edge_view(g, outs[i]);
        assert(r[q] == prev[q]);
    } else {
        assert(r.last() == graph_edge_view(g, outs[i]));
    }
}

proof fn lemma_out_edges_within(g: DiGraph<WorkspaceNode, DependencyEdge>, comp: Seq<int>, from: int, outs: Seq<int>, j: nat)
    requires
        j <= outs.len(),
        comp.contains(from),
    ensures
        forall|i: int| 0 <= i < scc_out_edges(g, comp, from, outs, j).len() ==> {
            let ev = #[trigger] scc_out_edges(g, comp, from, outs, j)[i];
            scc_names(g, comp).contains(ev.0) && scc_names(g, comp).contains(ev.1)
        },
    decreases j,
{
    if j > 0 {
        lemma_out_edges_within(g, comp, from, outs, (j - 1) as nat);
        let e = graph_edges(g)[outs[j - 1]];
        if e.0 == from && comp.contains(e.1) && e.0 != e.1 {
            let a = comp.index_of(from);
            let b = comp.index_of(e.1);
            assert(scc_names(g, comp)[a] == node_name(g, from));
            assert(scc_names(g, comp)[b] == node_name(g, e.1));
            let prev = scc_out_edges(g, comp, from, outs, (j - 1) as nat);
            let cur = scc_out_edges(g, comp, from, outs, j);
            assert(cur == prev.push(graph_edge_view(g, outs[j - 1])));
            assert forall|i: int| 0 <= i < cur.len() implies {
                let ev = #[trigger] cur[i];
                scc_names(g, comp).contains(ev.0) && scc_names(g, comp).contains(ev.1)
            } by {
                if i < prev.len() {
                    assert(cur[i] == prev[i]);
                } else {
                    assert(cur[i] == graph_edge_view(g, outs[j - 1]));
                    assert(scc_names(g, comp).contains(node_name(g, from)));
                    assert(scc_names(g, comp).contains(node_name(g, e.1)));
                }
            }
        } else {
            assert(scc_out_edges(g, comp, from, outs, j) == scc_out_edges(g, comp, from, outs, (j - 1) as nat));
        }
    }
}

proof fn lemma_scc_edges_within(g: DiGraph<WorkspaceNode, DependencyEdge>, comp: Seq<int>, k: nat)
    requires
        k <= comp.len(),
    ensures
        forall|i: int| 0 <= i < scc_edges(g, comp, k).len() ==> {
            let ev = #[trigger] scc_edges(g, comp, k)[i];
            scc_names(g, comp).contains(ev.0) && scc_names(g, comp).contains(ev.1)
        },
    decreases k,
{
    if k > 0 {
        lemma_scc_edges_within(g, comp, (k - 1) as nat);
        let from = comp[k - 1];
        let outs = out_edge_lists(g)[from];
        lemma_out_edges_within(g, comp, from, outs, outs.len());
        let prev = scc_edges(g, comp, (k - 1) as nat);
        let out = scc_node_edges(g, comp, from);
        assert forall|i: int| 0 <= i < scc_edges(g, comp, k).len() implies {
            let ev = #[trigger] scc_edges(g, comp, k)[i];
            scc_names(g, comp).contains(ev.0) && scc_names(g, comp).contains(ev.1)
        } by {
            if i < prev.len() {
                assert(scc_edges(g, comp, k)[i] == prev[i]);
            } else {
                assert(scc_edges(g, comp, k)[i] == out[i - prev.len()]);
            }
        }
    }
}

proof fn lemma_scc_edges_has(g: DiGraph<WorkspaceNode, DependencyEdge>, comp: Seq<int>, j: int, k: nat, ev: EdgeView)
    requires
        0 <= j < k <= comp.len(),
        scc_node_edges(g, comp, comp[j]).contains(ev),
    ensures
        scc_edges(g, comp, k).contains(ev),
    decreases k,
{
    let prev = scc_edges(g, comp, (k - 1) as nat);
    let out = scc_node_edges(g, comp, comp[k - 1]);
    if j < k - 1 {
        lemma_scc_edges_has(g, comp, j, (k - 1) as nat, ev);
        let i = choose|i: int| 0 <= i < prev.len() && prev[i] == ev;
        assert(scc_edges(g, comp, k)[i] == ev);
    } else {
        let i = choose|i: int| 0 <= i < out.len() && out[i] == ev;
        assert(scc_edges(g, comp, k)[prev.len() + i] == ev);
    }
}

/// An edge from `from` to another node of `comp` is among the edges the
/// cycle takes from `from`, when every edge is in its source's list.
proof fn lemma_node_edges_has(g: DiGraph<WorkspaceNode, DependencyEdge>, comp: Seq<int>, from: int, k: int)
    requires
        out_lists_complete(g),
        0 <= k < graph_edges(g).len(),
        graph_edges(g)[k].0 == from,
        comp.contains(graph_edges(g)[k].1),
        graph_edges(g)[k].1 != from,
    ensures
        scc_node_edges(g, comp, from).contains(graph_edge_view(g, k)),
{
    let outs = out_edge_lists(g)[from];
    assert(out_edge_lists(g)[graph_edges(g)[k].0].contains(k));
    let i = choose|i: int| 0 <= i < outs.len() && outs[i] == k;
    lemma_out_edges_has(g, comp, from, outs, outs.len(), i);
}

proof fn lemma_endpoint_names_within(edges: Seq<EdgeView>, names: Seq<Seq<char>>)
    requires
        forall|i: int| 0 <= i < edges.len() ==> names.contains((#[trigger] edges[i]).0) && names.contains(edges[i].1),
    ensures
        forall|i: int| 0 <= i < endpoint_names(edges).len() ==> names.contains(#[trigger] endpoint_names(edges)[i]),
    decreases edges.len(),
{
    if edges.len() > 0 {
        let prev = edges.drop_last();
        assert forall|i: int| 0 <= i < prev.len() implies names.contains((#[trigger] prev[i]).0) && names.contains(prev[i].1) by {
            assert(prev[i] == edges[i]);
        }
        lemma_endpoint_names_within(prev, names);
        let pe = endpoint_names(prev);
        assert(edges.last() == edges[edges.len() - 1]);
        assert forall|i: int| 0 <= i < endpoint_names(edges).len() implies names.contains(#[trigger] endpoint_names(edges)[i]) by {
            if i < pe.len() {
                assert(endpoint_names(edges)[i] == pe[i]);
            }
        }
    }
}

/// From a node of a component that has another node, some edge leaves for
/// another node of the same component.
proof fn lemma_edge_within_component(
    g: DiGraph<WorkspaceNode, DependencyEdge>,
    comps: Seq<Seq<int>>,
    c: int,
    u: int,
    v: int,
) -> (k: int)
    requires
        edges_within_nodes(g),
        scc_partition(graph_nodes(g).len(), arcs_of(g), comps),
        0 <= c < comps.len(),
        comps[c].contains(u),
        comps[c].contains(v),
        u != v,
    ensures
        0 <= k < graph_edges(g).len(),
        graph_edges(g)[k].0 == u,
        comps[c].contains(graph_edges(g)[k].1),
        graph_edges(g)[k].1 != u,
{
    let arcs = arcs_of(g);
    reveal(scc_partition);
    assert(reaches(arcs, u, v));
    assert(reaches(arcs, v, u));
    let p = choose|p: Seq<int>| #[trigger] is_walk(arcs, p) && p[0] == u && p.last() == v;
    let w = lemma_first_step(arcs, p, u);
    lemma_reaches_trans(arcs, w, v, u);
    let k = choose|k: int| 0 <= k < arcs.len() && arcs[k] == (u, w);
    assert(arcs[k] == (graph_edges(g)[k].0, graph_edges(g)[k].1));
    assert(0 <= graph_edges(g)[k].1 < graph_nodes(g).len());
    k
}

proof fn lemma_cycle_names(g: DiGraph<WorkspaceNode, DependencyEdge>, comp: Seq<int>)
    ensures
        strictly_sorted(sorted_set(scc_names(g, comp) + endpoint_names(scc_edges(g, comp, comp.len())))),
        sorted_set(scc_names(g, comp) + endpoint_names(scc_edges(g, comp, comp.len()))).to_set()
            == scc_names(g, comp).to_set(),
{
    let edges = scc_edges(g, comp, comp.len());
    let names = scc_names(g, comp);
    lemma_scc_edges_within(g, comp, comp.len());
    lemma_endpoint_names_within(edges, names);
    let all = names + endpoint_names(edges);
    lemma_sorted_set_props(all);
    assert(all.to_set() =~= names.to_set()) by {
        assert forall|x| all.to_set().contains(x) implies names.to_set().contains(x) by {
            let i = choose|i: int| 0 <= i < all.len() && all[i] == x;
            if i >= names.len() {
                assert(endpoint_names(edges)[i - names.len()] == x);
            }
        }
        assert forall|x| names.to_set().contains(x) implies all.to_set().contains(x) by {
            let i = choose|i: int| 0 <= i < names.len() && names[i] == x;
            assert(all[i] == x);
        }
    }
}

/// A strongly connected component of two or more workspaces always yields
/// a cycle, and the cycle's workspaces are exactly those of the component,
/// in increasing order. For every graph that `CycleDetector::detect_cycles`
/// is given, its `ensures` states the conditions: every edge joins existing
/// nodes and sits in its source's list of outgoing edges, and the components
/// it works through (`graph_components`, from which `detected_cycles` takes
/// one cycle per component that yields one) partition the nodes.
#[verifier::rlimit(50)]
pub proof fn lemma_component_yields_cycle(g: DiGraph<WorkspaceNode, DependencyEdge>, comps: Seq<Seq<int>>, c: int)
    requires
        edges_within_nodes(g),
        out_lists_complete(g),
        scc_partition(graph_nodes(g).len(), arcs_of(g), comps),
        0 <= c < comps.len(),
        comps[c].len() >= 2,
    ensures
        scc_cycle(g, comps[c]) is Some,
        strictly_sorted(scc_cycle(g, comps[c]).unwrap().0),
        scc_cycle(g, comps[c]).unwrap().0.to_set() == scc_names(g, comps[c]).to_set(),
{
    let comp = comps[c];
    let u = comp[0];
    let v = comp[1];
    assert(comp.contains(u) && comp.contains(v));
    assert(u != v) by {
        reveal(scc_partition);
    }
    let edges = scc_edges(g, comp, comp.len());
    // An edge leaves the first node within the component.
    let k1 = lemma_edge_within_component(g, comps, c, u, v);
    lemma_node_edges_has(g, comp, u, k1);
    lemma_scc_edges_has(g, comp, 0, comp.len(), graph_edge_view(g, k1));
    assert(edges.len() > 0);
    if comp.len() == 2 {
        // With two nodes, the edges found go from each node to the other.
        let t1 = graph_edges(g)[k1].1;
        let i1 = comp.index_of(t1);
        assert(t1 == v);
        let k2 = lemma_edge_within_component(g, comps, c, v, u);
        let t2 = graph_edges(g)[k2].1;
        let i2 = comp.index_of(t2);
        assert(t2 == u);
        lemma_node_edges_has(g, comp, v, k2);
        lemma_scc_edges_has(g, comp, 1, comp.len(), graph_edge_view(g, k2));
        let a = choose|i: int| 0 <= i < edges.len() && edges[i] == graph_edge_view(g, k1);
        let b = choose|i: int| 0 <= i < edges.len() && edges[i] == graph_edge_view(g, k2);
        assert(edges[a].0 == node_name(g, comp[0]) && edges[a].1 == node_name(g, comp[1]));
        assert(edges[b].0 == node_name(g, comp[1]) && edges[b].1 == node_name(g, comp[0]));
        assert(has_direction(edges, node_name(g, comp[0]), node_name(g, comp[1])));
        assert(has_direction(edges, node_name(g, comp[1]), node_name(g, comp[0])));
    }
    lemma_cycle_names(g, comp);
}


/// An element that `f` maps to a value is kept in every longer prefix's
/// `filter_map`.
proof fn lemma_filter_map_keeps<A, B>(s: Seq<A>, f: spec_fn(A) -> Option<B>, c: int, j: int)
    requires
        0 <= c < j <= s.len(),
        f(s[c]) is Some,
    ensures
        s.take(j).filter_map(f).contains(f(s[c]).unwrap()),
    decreases j,
{
    let x = f(s[c]).unwrap();
    s.lemma_filter_map_take_succ(f, j - 1);
    if j == c + 1 {
        let fm = s.take(j).filter_map(f);
        assert(fm[fm.len() - 1] == x);
    } else {
        lemma_filter_map_keeps(s, f, c, j - 1);
        let prev = s.take(j - 1).filter_map(f);
        let idx = choose|i: int| 0 <= i < prev.len() && prev[i] == x;
        assert(s.take(j).filter_map(f)[idx] == x);
    }
}

/// Every strongly connected component of two or more workspaces is
/// reported: among the cycles that `detect_cycles` adds for the graph there
/// is one whose workspaces are exactly those of the component, in strictly
/// increasing order. `detect_cycles` states the conditions for every graph
/// it is given.
pub proof fn law_every_component_reported(g: DiGraph<WorkspaceNode, DependencyEdge>, c: int)
    requires
        edges_within_nodes(g),
        out_lists_complete(g),
        scc_partition(graph_nodes(g).len(), arcs_of(g), graph_components(g)),
        0 <= c < graph_components(g).len(),
        graph_components(g)[c].len() >= 2,
    ensures
        exists|i: int| 0 <= i < detected_cycles(g).len()
            && strictly_sorted(#[trigger] detected_cycles(g)[i].0)
            && detected_cycles(g)[i].0.to_set() == scc_names(g, graph_components(g)[c]).to_set(),
{
    let comps = graph_components(g);
    lemma_component_yields_cycle(g, comps, c);
    let f = |x: Seq<int>| scc_cycle(g, x);
    assert(f(comps[c]) == scc_cycle(g, comps[c]));
    lemma_filter_map_keeps(comps, f, c, comps.len() as int);
    assert(comps.take(comps.len() as int) =~= comps);
    assert(detected_cycles(g) == comps.filter_map(f));
    let cyc = scc_cycle(g, comps[c]).unwrap();
    assert(detected_cycles(g).contains(cyc));
    let i = choose|i: int| 0 <= i < detected_cycles(g).len() && detected_cycles(g)[i] == cyc;
    assert(strictly_sorted(detected_cycles(g)[i].0));
}

/// Both workspaces of each edge are among the edges' endpoint names.
pub proof fn lemma_endpoint_names_has(edges: Seq<EdgeView>, k: int)
    requires
        0 <= k < edges.len(),
    ensures
        endpoint_names(edges).contains(edges[k].0),
        endpoint_names(edges).contains(edges[k].1),
    decreases edges.len(),
{
    let prev = edges.drop_last();
    let pe = endpoint_names(prev);
    let all = endpoint_names(edges);
    assert(all == pe + seq![edges.last().0, edges.last().1]);
    if k == edges.len() - 1 {
        assert(all[pe.len() as int] == edges[k].0);
        assert(all[pe.len() as int + 1] == edges[k].1);
    } else {
        lemma_endpoint_names_has(prev, k);
        assert(prev[k] == edges[k]);
        let i = choose|i: int| 0 <= i < pe.len() && pe[i] == edges[k].0;
        let j = choose|j: int| 0 <= j < pe.len() && pe[j] == edges[k].1;
        assert(all[i] == pe[i]);
        assert(all[j] == pe[j]);
    }
}

/// Every cycle that a strongly connected component yields (and so every
/// detected cycle) lists its workspaces in strictly increasing order, and
/// they include both workspaces of each of its edges.
pub proof fn law_cycle_names_cover_edges(g: DiGraph<WorkspaceNode, DependencyEdge>, comp: Seq<int>)
    requires
        scc_cycle(g, comp) is Some,
    ensures
        strictly_sorted(scc_cycle(g, comp).unwrap().0),
        forall|k: int| 0 <= k < scc_cycle(g, comp).unwrap().1.len() ==>
            scc_cycle(g, comp).unwrap().0.contains((#[trigger] scc_cycle(g, comp).unwrap().1[k]).0)
            && scc_cycle(g, comp).unwrap().0.contains(scc_cycle(g, comp).unwrap().1[k].1),
{
    let c = scc_cycle(g, comp).unwrap();
    let edges = scc_edges(g, comp, comp.len());
    let items = scc_names(g, comp) + endpoint_names(edges);
    assert(c == (sorted_set(items), edges));
    lemma_sorted_set_props(items);
    assert forall|k: int| 0 <= k < c.1.len() implies c.0.contains((#[trigger] c.1[k]).0) && c.0.contains(c.1[k].1) by {
        lemma_endpoint_names_has(edges, k);
        let en = endpoint_names(edges);
        let i = choose|i: int| 0 <= i < en.len() && en[i] == edges[k].0;
        let j = choose|j: int| 0 <= j < en.len() && en[j] == edges[k].1;
        let b = scc_names(g, comp).len() as int;
        assert(items[b + i] == edges[k].0);
        assert(items[b + j] == edges[k].1);
        assert(items.to_set().contains(edges[k].0));
        assert(items.to_set().contains(edges[k].1));
        assert(sorted_set(items).to_set().contains(edges[k].0));
        assert(sorted_set(items).to_set().contains(edges[k].1));
    }
}


/// The edges in direction `a` → `b`, in order.
pub open spec fn edges_in_direction(edges: Seq<EdgeView>, a: Seq<char>, b: Seq<char>) -> Seq<EdgeView>
    decreases edges.len(),
{
    if edges.len() == 0 {
        Seq::empty()
    } else if edges.last().0 == a && edges.last().1 == b {
        edges_in_direction(edges.drop_last(), a, b).push(edges.last())
    } else {
        edges_in_direction(edges.drop_last(), a, b)
    }
}

/// No two groups share a direction.
pub open spec fn distinct_directions(groups: Seq<DirectionGroup>) -> bool {
    forall|j: int, k: int| 0 <= j < groups.len() && 0 <= k < groups.len() && j != k ==>
        !((#[trigger] groups[j]).0 == (#[trigger] groups[k]).0 && groups[j].1 == groups[k].1)
}

proof fn lemma_grouping(edges: Seq<EdgeView>)
    ensures
        forall|k: int| 0 <= k < group_by_direction(edges).len() ==> {
            let grp = #[trigger] group_by_direction(edges)[k];
            grp.2 == edges_in_direction(edges, grp.0, grp.1) && grp.2.len() > 0
        },
        forall|a: Seq<char>, b: Seq<char>| group_index(group_by_direction(edges), a, b, group_by_direction(edges).len()) < 0
            ==> #[trigger] edges_in_direction(edges, a, b).len() == 0,
        distinct_directions(group_by_direction(edges)),
    decreases edges.len(),
{
    if edges.len() > 0 {
        let prev = edges.drop_last();
        let e = edges.last();
        lemma_grouping(prev);
        let g0 = group_by_direction(prev);
        let g = group_by_direction(edges);
        assert(g == add_to_groups(g0, e));
        let i = group_index(g0, e.0, e.1, g0.len());
        lemma_group_index_bounds(g0, e.0, e.1, g0.len());
        assert forall|a: Seq<char>, b: Seq<char>| !(a == e.0 && b == e.1) implies
            #[trigger] edges_in_direction(edges, a, b) == edges_in_direction(prev, a, b) by {}
        if i >= 0 {
            assert forall|k: int| 0 <= k < g.len() implies {
                let grp = #[trigger] g[k];
                grp.2 == edges_in_direction(edges, grp.0, grp.1) && grp.2.len() > 0
            } by {
                if k == i {
                    assert(g[k] == (g0[i].0, g0[i].1, g0[i].2.push(e)));
                } else {
                    assert(g[k] == g0[k]);
                    assert(!(g0[k].0 == g0[i].0 && g0[k].1 == g0[i].1));
                }
            }
            assert forall|a: Seq<char>, b: Seq<char>| group_index(g, a, b, g.len()) < 0
                implies #[trigger] edges_in_direction(edges, a, b).len() == 0 by {
                lemma_group_index_bounds(g, a, b, g.len());
                lemma_group_index_bounds(g0, a, b, g0.len());
                if group_index(g0, a, b, g0.len()) >= 0 {
                    let q = group_index(g0, a, b, g0.len());
                    if q == i {
                        assert(g[q].0 == a && g[q].1 == b);
                    } else {
                        assert(g[q] == g0[q]);
                    }
                }
                assert(g[i].0 == e.0 && g[i].1 == e.1);
                assert(!(a == e.0 && b == e.1));
            }
            assert forall|j: int, k: int| 0 <= j < g.len() && 0 <= k < g.len() && j != k implies
                !((#[trigger] g[j]).0 == (#[trigger] g[k]).0 && g[j].1 == g[k].1) by {
                assert(g[j].0 == g0[j].0 && g[j].1 == g0[j].1);
                assert(g[k].0 == g0[k].0 && g[k].1 == g0[k].1);
                assert(!((g0[j]).0 == (g0[k]).0 && g0[j].1 == g0[k].1));
            }
        } else {
            assert(g == g0.push((e.0, e.1, seq![e])));
            assert(edges_in_direction(prev, e.0, e.1).len() == 0);
            assert(edges_in_direction(edges, e.0, e.1) =~= seq![e]);
            assert forall|k: int| 0 <= k < g.len() implies {
                let grp = #[trigger] g[k];
                grp.2 == edges_in_direction(edges, grp.0, grp.1) && grp.2.len() > 0
            } by {
                if k < g0.len() {
                    assert(g[k] == g0[k]);
                    assert(!(g0[k].0 == e.0 && g0[k].1 == e.1));
                }
            }
            assert forall|a: Seq<char>, b: Seq<char>| group_index(g, a, b, g.len()) < 0
                implies #[trigger] edges_in_direction(edges, a, b).len() == 0 by {
                lemma_group_index_bounds(g, a, b, g.len());
                lemma_group_index_bounds(g0, a, b, g0.len());
                if group_index(g0, a, b, g0.len()) >= 0 {
                    let q = group_index(g0, a, b, g0.len());
                    assert(g[q] == g0[q]);
                }
                assert(g[g0.len() as int].0 == e.0 && g[g0.len() as int].1 == e.1);
            }
            assert forall|j: int, k: int| 0 <= j < g.len() && 0 <= k < g.len() && j != k implies
                !((#[trigger] g[j]).0 == (#[trigger] g[k]).0 && g[j].1 == g[k].1) by {
                if j < g0.len() && k < g0.len() {
                    assert(g[j] == g0[j] && g[k] == g0[k]);
                    assert(!((g0[j]).0 == (g0[k]).0 && g0[j].1 == g0[k].1));
                } else if j < g0.len() {
                    assert(g[j] == g0[j]);
                } else if k < g0.len() {
                    assert(g[k] == g0[k]);
                }
            }
        }
    }
}

proof fn lemma_direction_has_edge(edges: Seq<EdgeView>, i: int)
    requires
        0 <= i < edges.len(),
    ensures
        edges_in_direction(edges, edges[i].0, edges[i].1).len() > 0,
    decreases edges.len(),
{
    if i < edges.len() - 1 {
        lemma_direction_has_edge(edges.drop_last(), i);
        assert(edges.drop_last()[i] == edges[i]);
    }
}

/// How a cycle's edges are grouped by direction (what
/// `WorkspaceCycle::edges_by_direction` gives for the cycle's edges): each
/// group holds exactly the edges of its direction, in their order, and is
/// not empty; every edge's direction has a group; no direction has two.
pub proof fn law_edges_grouped_by_direction(edges: Seq<EdgeView>)
    ensures
        forall|k: int| 0 <= k < group_by_direction(edges).len() ==> {
            let grp = #[trigger] group_by_direction(edges)[k];
            grp.2 == edges_in_direction(edges, grp.0, grp.1) && grp.2.len() > 0
        },
        forall|i: int| 0 <= i < edges.len() ==> group_index(group_by_direction(edges), (#[trigger] edges[i]).0, edges[i].1,
            group_by_direction(edges).len()) >= 0,
        distinct_directions(group_by_direction(edges)),
{
    lemma_grouping(edges);
    assert forall|i: int| 0 <= i < edges.len() implies group_index(group_by_direction(edges), (#[trigger] edges[i]).0,
        edges[i].1, group_by_direction(edges).len()) >= 0 by {
        lemma_direction_has_edge(edges, i);
    }
}

} // verus!
