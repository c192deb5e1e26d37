//! The ASCII rendering of the workspace graph: the workspaces in order of
//! name, each with its outgoing edges grouped by target and dependency type.

use petgraph::graph::DiGraph;
use vstd::prelude::*;

use crate::graph::petgraph_api::{
    edge_count, edge_endpoints, edge_weight, graph_edges, graph_nodes, index_view, node_count, node_weight, out_edge_lists,
    out_edges,
};
use crate::graph::types::{DependencyEdge, DependencyType, WorkspaceNode};
use crate::text::{seq_lt, str_eq, str_lt};

verus! {

/// The rank of a dependency type in its declared order.
pub open spec fn type_rank(t: DependencyType) -> int {
    match t {
        DependencyType::Normal => 0,
        DependencyType::Dev => 1,
        DependencyType::Build => 2,
    }
}

fn rank(t: DependencyType) -> (r: u8)
    ensures
        r as int == type_rank(t),
{
    match t {
        DependencyType::Normal => 0,
        DependencyType::Dev => 1,
        DependencyType::Build => 2,
    }
}

/// `order` with index `i` inserted before the first entry whose name is
/// greater than the name of `i`.
pub open spec fn order_insert(order: Seq<int>, names: Seq<Seq<char>>, i: int) -> Seq<int>
    decreases order.len(),
{
    if order.len() == 0 {
        seq![i]
    } else if seq_lt(names[i], names[order[0]]) {
        seq![i] + order
    } else {
        seq![order[0]] + order_insert(order.drop_first(), names, i)
    }
}

/// The indices `0..n` stably sorted by name.
pub open spec fn name_order(names: Seq<Seq<char>>, n: nat) -> Seq<int>
    decreases n,
{
    if n == 0 {
        Seq::empty()
    } else {
        order_insert(name_order(names, (n - 1) as nat), names, n - 1)
    }
}

proof fn lemma_order_insert_at(order: Seq<int>, names: Seq<Seq<char>>, i: int, p: int)
    requires
        0 <= p <= order.len(),
        forall|q: int| 0 <= q < p ==> !seq_lt(names[i], names[#[trigger] order[q]]),
        p < order.len() ==> seq_lt(names[i], names[order[p]]),
    ensures
        order_insert(order, names, i) == order.take(p) + seq![i] + order.skip(p),
    decreases p,
{
    if p == 0 {
        assert(order.skip(0) =~= order);
        if order.len() > 0 {
            assert(order_insert(order, names, i) == seq![i] + order);
        }
        assert(order.take(0) + seq![i] + order.skip(0) =~= seq![i] + order);
    } else {
        let rest = order.drop_first();
        assert forall|q: int| 0 <= q < p - 1 implies !seq_lt(names[i], names[#[trigger] rest[q]]) by {
            assert(rest[q] == order[q + 1]);
        }
        if p - 1 < rest.len() {
            assert(rest[p - 1] == order[p]);
        }
        lemma_order_insert_at(rest, names, i, p - 1);
        assert(order.take(p) + seq![i] + order.skip(p) =~= seq![order[0]] + (rest.take(p - 1) + seq![i] + rest.skip(p - 1)));
    }
}

/// The node indices of a graph sorted by name; equal names keep index order.
pub fn sorted_node_order(graph: &DiGraph<WorkspaceNode, DependencyEdge>) -> (r: Vec<usize>)
    ensures
        r@.map_values(|i: usize| i as int) == name_order(node_names_of(*graph), graph_nodes(*graph).len()),
        forall|j: int| 0 <= j < r@.len() ==> #[trigger] r@[j] < graph_nodes(*graph).len(),
{
    let n = node_count(graph);
    let ghost names = node_names_of(*graph);
    let mut order: Vec<usize> = Vec::new();
    for i in 0..n
        invariant
            n == graph_nodes(*graph).len(),
            names == node_names_of(*graph),
            order@.map_values(|i: usize| i as int) == name_order(names, i as nat),
            forall|j: int| 0 <= j < order@.len() ==> #[trigger] order@[j] < i,
    {
        let ghost ov = order@.map_values(|i: usize| i as int);
        let name = node_weight(graph, i).name.as_str();
        let mut p: usize = 0;
        while p < order.len() && !str_lt(name, node_weight(graph, order[p]).name.as_str())
            invariant
                ov == order@.map_values(|i: usize| i as int),
                forall|j: int| 0 <= j < order@.len() ==> #[trigger] order@[j] < i,
                i < n,
                n == graph_nodes(*graph).len(),
                names == node_names_of(*graph),
                name@ == names[i as int],
                p <= order.len(),
                forall|q: int| 0 <= q < p ==> !seq_lt(names[i as int], names[#[trigger] ov[q]]),
            decreases order.len() - p,
        {
            assert(ov[p as int] == order@[p as int] as int);
            p = p + 1;
        }
        proof {
            if p < order.len() {
                assert(ov[p as int] == order@[p as int] as int);
            }
            lemma_order_insert_at(ov, names, i as int, p as int);
        }
        order.insert(p, i);
        assert(order@.map_values(|i: usize| i as int) =~= ov.take(p as int) + seq![i as int] + ov.skip(p as int));
    }
    order
}

/// The names of the nodes of a graph.
pub open spec fn node_names_of(g: DiGraph<WorkspaceNode, DependencyEdge>) -> Seq<Seq<char>> {
    graph_nodes(g).map_values(|ws: WorkspaceNode| ws.name@)
}

/// A group key of the edges leaving a node: target index and type.
pub type AsciiKey = (int, DependencyType);

/// The order of group keys: by target name, then type, then target index.
pub open spec fn key_lt(g: DiGraph<WorkspaceNode, DependencyEdge>, a: AsciiKey, b: AsciiKey) -> bool {
    let na = graph_nodes(g)[a.0].name@;
    let nb = graph_nodes(g)[b.0].name@;
    seq_lt(na, nb) || (na == nb && (type_rank(a.1) < type_rank(b.1)
        || (type_rank(a.1) == type_rank(b.1) && a.0 < b.0)))
}

/// `ks` with `x` inserted before the first greater key, unless met first.
pub open spec fn key_insert(g: DiGraph<WorkspaceNode, DependencyEdge>, ks: Seq<AsciiKey>, x: AsciiKey) -> Seq<AsciiKey>
    decreases ks.len(),
{
    if ks.len() == 0 {
        seq![x]
    } else if ks[0] == x {
        ks
    } else if key_lt(g, x, ks[0]) {
        seq![x] + ks
    } else {
        seq![ks[0]] + key_insert(g, ks.drop_first(), x)
    }
}

/// The sorted keys of the edges leaving `u` among the first `n` edges.
pub open spec fn out_keys_upto(g: DiGraph<WorkspaceNode, DependencyEdge>, u: int, n: nat) -> Seq<AsciiKey>
    decreases n,
{
    if n == 0 {
        Seq::empty()
    } else {
        let prev = out_keys_upto(g, u, (n - 1) as nat);
        let e = graph_edges(g)[n - 1];
        if e.0 == u { key_insert(g, prev, (e.1, e.2.dependency_type)) } else { prev }
    }
}

/// The keys of the edges leaving `u`, sorted by target name, type and
/// target index, each once.
pub open spec fn out_keys(g: DiGraph<WorkspaceNode, DependencyEdge>, u: int) -> Seq<AsciiKey> {
    out_keys_upto(g, u, graph_edges(g).len())
}

/// The entries below `n` of the edge list `l` whose edge has key `x`, in
/// their order in `l`.
pub open spec fn key_edges_in(g: DiGraph<WorkspaceNode, DependencyEdge>, l: Seq<int>, x: AsciiKey, n: nat) -> Seq<int>
    decreases n,
{
    if n == 0 {
        Seq::empty()
    } else {
        let k = l[n - 1];
        let rest = key_edges_in(g, l, x, (n - 1) as nat);
        if graph_edges(g)[k].1 == x.0 && graph_edges(g)[k].2.dependency_type == x.1 { rest.push(k) } else { rest }
    }
}

/// The edges from `u` with key `x`, in the order in which `Graph::edges`
/// lists the edges leaving `u`.
pub open spec fn key_edges(g: DiGraph<WorkspaceNode, DependencyEdge>, u: int, x: AsciiKey) -> Seq<int> {
    key_edges_in(g, out_edge_lists(g)[u], x, out_edge_lists(g)[u].len())
}

proof fn lemma_key_insert_at(g: DiGraph<WorkspaceNode, DependencyEdge>, ks: Seq<AsciiKey>, x: AsciiKey, p: int)
    requires
        0 <= p <= ks.len(),
        forall|q: int| 0 <= q < p ==> #[trigger] ks[q] != x && !key_lt(g, x, ks[q]),
    ensures
        key_insert(g, ks, x) == ks.take(p) + key_insert(g, ks.skip(p), x),
    decreases p,
{
    if p == 0 {
        assert(ks.skip(0) =~= ks);
        assert(ks.take(0) + key_insert(g, ks, x) =~= key_insert(g, ks, x));
    } else {
        let rest = ks.drop_first();
        assert forall|q: int| 0 <= q < p - 1 implies #[trigger] rest[q] != x && !key_lt(g, x, rest[q]) by {
            assert(rest[q] == ks[q + 1]);
        }
        lemma_key_insert_at(g, rest, x, p - 1);
        assert(rest.skip(p - 1) =~= ks.skip(p));
        assert(ks.take(p) + key_insert(g, ks.skip(p), x) =~= seq![ks[0]] + (rest.take(p - 1) + key_insert(g, rest.skip(p - 1), x)));
    }
}

fn key_less(graph: &DiGraph<WorkspaceNode, DependencyEdge>, a: (usize, DependencyType), b: (usize, DependencyType)) -> (r: bool)
    requires
        a.0 < graph_nodes(*graph).len(),
        b.0 < graph_nodes(*graph).len(),
    ensures
        r == key_lt(*graph, (a.0 as int, a.1), (b.0 as int, b.1)),
{
    let na = node_weight(graph, a.0).name.as_str();
    let nb = node_weight(graph, b.0).name.as_str();
    if str_lt(na, nb) {
        true
    } else if str_eq(na, nb) {
        let ra = rank(a.1);
        let rb = rank(b.1);
        ra < rb || (ra == rb && a.0 < b.0)
    } else {
        false
    }
}

/// The views of a list of exec keys.
pub open spec fn key_views(v: Seq<(usize, DependencyType)>) -> Seq<AsciiKey> {
    v.map_values(|k: (usize, DependencyType)| (k.0 as int, k.1))
}

/// The sorted keys of the edges leaving node `u`.
pub fn outgoing_keys(graph: &DiGraph<WorkspaceNode, DependencyEdge>, u: usize) -> (r: Vec<(usize, DependencyType)>)
    ensures
        key_views(r@) == out_keys(*graph, u as int),
        forall|j: int| 0 <= j < r@.len() ==> (#[trigger] r@[j]).0 < graph_nodes(*graph).len(),
{
    let ne = edge_count(graph);
    let mut keys: Vec<(usize, DependencyType)> = Vec::new();
    for k in 0..ne
        invariant
            ne == graph_edges(*graph).len(),
            key_views(keys@) == out_keys_upto(*graph, u as int, k as nat),
            forall|j: int| 0 <= j < keys@.len() ==> (#[trigger] keys@[j]).0 < graph_nodes(*graph).len(),
    {
        let (s, t) = edge_endpoints(graph, k);
        if s == u {
            let x = (t, edge_weight(graph, k).dependency_type);
            let ghost kv = key_views(keys@);
            let ghost xv = (t as int, x.1);
            let mut p: usize = 0;
            while p < keys.len() && !(keys[p].0 == x.0 && keys[p].1 == x.1) && !key_less(graph, x, keys[p])
                invariant
                    kv == key_views(keys@),
                    forall|j: int| 0 <= j < keys@.len() ==> (#[trigger] keys@[j]).0 < graph_nodes(*graph).len(),
                    x.0 < graph_nodes(*graph).len(),
                    xv == (x.0 as int, x.1),
                    p <= keys.len(),
                    forall|q: int| 0 <= q < p ==> #[trigger] kv[q] != xv && !key_lt(*graph, xv, kv[q]),
                decreases keys.len() - p,
            {
                assert(kv[p as int] == (keys@[p as int].0 as int, keys@[p as int].1));
                p = p + 1;
            }
            proof {
                lemma_key_insert_at(*graph, kv, xv, p as int);
                if p < keys.len() {
                    assert(kv[p as int] == (keys@[p as int].0 as int, keys@[p as int].1));
                    assert(kv.skip(p as int)[0] == kv[p as int]);
                    assert(kv.skip(p as int).drop_first() =~= kv.skip(p + 1));
                } else {
                    assert(kv.skip(p as int) =~= Seq::<AsciiKey>::empty());
                }
            }
            if p < keys.len() && keys[p].0 == x.0 && keys[p].1 == x.1 {
                assert(kv.take(p as int) + kv.skip(p as int) =~= kv);
            } else {
                keys.insert(p, x);
                assert(key_views(keys@) =~= kv.take(p as int) + seq![xv] + kv.skip(p as int));
                proof {
                    if p < kv.len() {
                        assert(seq![xv] + kv.skip(p as int) == key_insert(*graph, kv.skip(p as int), xv));
                    }
                }
            }
        }
    }
    keys
}

/// The edges from `u` with key `x`, in the order in which `Graph::edges`
/// lists the edges leaving `u`.
pub fn edges_with_key(graph: &DiGraph<WorkspaceNode, DependencyEdge>, u: usize, x: (usize, DependencyType)) -> (r: Vec<usize>)
    requires
        u < graph_nodes(*graph).len(),
    ensures
        r@.map_values(|k: usize| k as int) == key_edges(*graph, u as int, (x.0 as int, x.1)),
        forall|j: int| 0 <= j < r@.len() ==> #[trigger] r@[j] < graph_edges(*graph).len(),
{
    let outs = out_edges(graph, u);
    let ghost l = index_view(outs@);
    let ghost xv = (x.0 as int, x.1);
    let mut r: Vec<usize> = Vec::new();
    for j in 0..outs.len()
        invariant
            l == index_view(outs@),
            l == out_edge_lists(*graph)[u as int],
            xv == (x.0 as int, x.1),
            forall|q: int| 0 <= q < outs@.len() ==> (#[trigger] outs@[q]) < graph_edges(*graph).len(),
            r@.map_values(|k: usize| k as int) == key_edges_in(*graph, l, xv, j as nat),
            forall|q: int| 0 <= q < r@.len() ==> #[trigger] r@[q] < graph_edges(*graph).len(),
    {
        let k = outs[j];
        assert(l[j as int] == k as int);
        let (_s, t) = edge_endpoints(graph, k);
        let ty = edge_weight(graph, k).dependency_type;
        let ghost before = r@.map_values(|k: usize| k as int);
        if t == x.0 && ty == x.1 {
            r.push(k);
            assert(r@.map_values(|k: usize| k as int) =~= before.push(k as int));
        }
    }
    r
}

} // verus!
