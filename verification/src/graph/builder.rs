//! Building the dependency graph: one node per workspace (or, within
//! workspaces, one per crate) and one edge per crate-level dependency.

use petgraph::graph::DiGraph;
use vstd::prelude::*;

use crate::analyzer::analyzer_impl::{CrateMember, Dependency, DependencyView, WorkspaceInfo};
use crate::dependency_filter::DependencyFilter;
use crate::error::FerrisWheelError;
use crate::graph::petgraph_api::{add_edge, add_node, edge_count, graph_edges, graph_nodes, index_limit, new_graph, node_count};
use crate::graph::types::{DependencyEdge, DependencyType, WorkspaceNode};
use crate::assoc::{list_views, str_pairs};
use crate::analyzer::dependency_classifier::{assoc_get, assoc_lookup};
use crate::paths::{absolute_path, joined_path, path_has_prefix, path_is_absolute, path_join, path_starts_with};
use crate::text::{dup, dup_all, insert_sorted_unique, lemma_sorted_insert_props, sorted_insert, push_char, push_str, str_eq, strictly_sorted, views};

verus! {

/// The view of a graph edge: source, target, and the edge's crates, type
/// and target.
pub type GraphEdgeView = (int, int, (Seq<char>, Seq<char>, DependencyType, Option<Seq<char>>));

/// The view of a dependency edge.
pub open spec fn dep_edge_view(e: DependencyEdge) -> (Seq<char>, Seq<char>, DependencyType, Option<Seq<char>>) {
    (e.from_crate@, e.to_crate@, e.dependency_type, match e.target { Some(t) => Some(t@), None => None })
}

/// The views of the edges of a graph.
pub open spec fn edge_list(g: DiGraph<WorkspaceNode, DependencyEdge>) -> Seq<GraphEdgeView> {
    graph_edges(g).map_values(|e: (int, int, DependencyEdge)| (e.0, e.1, dep_edge_view(e.2)))
}

/// The view of a node: its name and crates.
pub open spec fn node_view(n: WorkspaceNode) -> (Seq<char>, Seq<Seq<char>>) {
    (n.name@, views(n.crates@))
}

/// The views of the nodes of a graph.
pub open spec fn node_list(g: DiGraph<WorkspaceNode, DependencyEdge>) -> Seq<(Seq<char>, Seq<Seq<char>>)> {
    graph_nodes(g).map_values(|n: WorkspaceNode| node_view(n))
}

/// The members of the workspaces in order, each with its workspace's
/// position.
pub open spec fn flat_members(ws: Seq<(String, WorkspaceInfo)>) -> Seq<(int, CrateMember)>
    decreases ws.len(),
{
    if ws.len() == 0 {
        Seq::empty()
    } else {
        flat_members(ws.drop_last()) + ws.last().1.members@.map_values(|m: CrateMember| ((ws.len() - 1) as int, m))
    }
}

/// The position of the last crate named `name` among the first `n`
/// flattened members, or -1.
pub open spec fn crate_index(flat: Seq<(int, CrateMember)>, name: Seq<char>, n: nat) -> int
    decreases n,
{
    if n == 0 {
        -1
    } else if flat[n - 1].1.name@ == name {
        n - 1
    } else {
        crate_index(flat, name, (n - 1) as nat)
    }
}

/// The position of the first workspace with a member named `name`, or -1.
pub open spec fn member_workspace(ws: Seq<(String, WorkspaceInfo)>, name: Seq<char>) -> int {
    let flat = flat_members(ws);
    let k = first_named(flat, name, flat.len());
    if k >= 0 { flat[k].0 } else { -1 }
}

/// The position of the first crate named `name` among the first `n`
/// flattened members, or -1.
pub open spec fn first_named(flat: Seq<(int, CrateMember)>, name: Seq<char>, n: nat) -> int
    decreases n,
{
    if n == 0 {
        -1
    } else {
        let k = first_named(flat, name, (n - 1) as nat);
        if k >= 0 { k } else if flat[n - 1].1.name@ == name { n - 1 } else { -1 }
    }
}

/// The intra-workspace edges of the first `n` dependencies of `deps`, from
/// the node `from` of crate `crate_name` in workspace `wi`.
pub open spec fn intra_dep_edges(ws: Seq<(String, WorkspaceInfo)>, wi: int, from: int, crate_name: Seq<char>,
    deps: Seq<Dependency>, ty: DependencyType, target: Option<Seq<char>>, filter: DependencyFilter, n: nat) -> Seq<GraphEdgeView>
    decreases n,
{
    if n == 0 {
        Seq::empty()
    } else {
        let prev = intra_dep_edges(ws, wi, from, crate_name, deps, ty, target, filter, (n - 1) as nat);
        let d = deps[n - 1];
        let flat = flat_members(ws);
        let to = crate_index(flat, d.name@, flat.len());
        if !(d.target_view() is Some && filter.excludes_target()) && to >= 0 && member_workspace(ws, d.name@) == wi {
            prev.push((from, to, (crate_name, d.name@, ty, match target { Some(t) => Some(t), None => d.target_view() })))
        } else {
            prev
        }
    }
}

/// The intra-workspace edges of the first `n` target groups of a crate.
pub open spec fn intra_target_edges(ws: Seq<(String, WorkspaceInfo)>, wi: int, from: int, crate_name: Seq<char>,
    groups: Seq<(String, Vec<Dependency>)>, filter: DependencyFilter, n: nat) -> Seq<GraphEdgeView>
    decreases n,
{
    if n == 0 {
        Seq::empty()
    } else {
        let g = groups[n - 1];
        intra_target_edges(ws, wi, from, crate_name, groups, filter, (n - 1) as nat)
            + intra_dep_edges(ws, wi, from, crate_name, g.1@, DependencyType::Normal, Some(g.0@), filter, g.1@.len())
    }
}

/// The intra-workspace edges of one crate: normal, dev and build ones (the
/// last two unless excluded), then the target ones unless excluded.
pub open spec fn intra_member_edges(ws: Seq<(String, WorkspaceInfo)>, wi: int, m: CrateMember, filter: DependencyFilter) -> Seq<GraphEdgeView> {
    let flat = flat_members(ws);
    let from = crate_index(flat, m.name@, flat.len());
    intra_dep_edges(ws, wi, from, m.name@, m.dependencies@, DependencyType::Normal, None, filter, m.dependencies@.len())
        + (if filter.excludes_dev() { Seq::empty() } else {
            intra_dep_edges(ws, wi, from, m.name@, m.dev_dependencies@, DependencyType::Dev, None, filter, m.dev_dependencies@.len())
        })
        + (if filter.excludes_build() { Seq::empty() } else {
            intra_dep_edges(ws, wi, from, m.name@, m.build_dependencies@, DependencyType::Build, None, filter, m.build_dependencies@.len())
        })
        + (if filter.excludes_target() { Seq::empty() } else {
            intra_target_edges(ws, wi, from, m.name@, m.target_dependencies@, filter, m.target_dependencies@.len())
        })
}

/// The intra-workspace edges of the first `n` flattened members.
pub open spec fn intra_edges_upto(ws: Seq<(String, WorkspaceInfo)>, filter: DependencyFilter, n: nat) -> Seq<GraphEdgeView>
    decreases n,
{
    if n == 0 {
        Seq::empty()
    } else {
        let fm = flat_members(ws)[n - 1];
        intra_edges_upto(ws, filter, (n - 1) as nat) + intra_member_edges(ws, fm.0, fm.1, filter)
    }
}

/// The number of dependencies in the first `n` target groups.
pub open spec fn target_total(groups: Seq<(String, Vec<Dependency>)>, n: nat) -> nat
    decreases n,
{
    if n == 0 { 0 } else { target_total(groups, (n - 1) as nat) + groups[n - 1].1@.len() }
}

/// The number of dependencies a crate declares, of every kind.
pub open spec fn member_total(m: CrateMember) -> nat {
    m.dependencies@.len() + m.dev_dependencies@.len() + m.build_dependencies@.len()
        + target_total(m.target_dependencies@, m.target_dependencies@.len())
}

/// The number of dependencies the first `n` flattened members declare.
pub open spec fn members_total(ws: Seq<(String, WorkspaceInfo)>, n: nat) -> nat
    decreases n,
{
    if n == 0 { 0 } else { members_total(ws, (n - 1) as nat) + member_total(flat_members(ws)[n - 1].1) }
}

proof fn lemma_intra_dep_bound(ws: Seq<(String, WorkspaceInfo)>, wi: int, from: int, crate_name: Seq<char>,
    deps: Seq<Dependency>, ty: DependencyType, target: Option<Seq<char>>, filter: DependencyFilter, n: nat)
    ensures
        intra_dep_edges(ws, wi, from, crate_name, deps, ty, target, filter, n).len() <= n,
    decreases n,
{
    if n > 0 {
        lemma_intra_dep_bound(ws, wi, from, crate_name, deps, ty, target, filter, (n - 1) as nat);
    }
}

proof fn lemma_intra_target_bound(ws: Seq<(String, WorkspaceInfo)>, wi: int, from: int, crate_name: Seq<char>,
    groups: Seq<(String, Vec<Dependency>)>, filter: DependencyFilter, n: nat)
    ensures
        intra_target_edges(ws, wi, from, crate_name, groups, filter, n).len() <= target_total(groups, n),
    decreases n,
{
    if n > 0 {
        lemma_intra_target_bound(ws, wi, from, crate_name, groups, filter, (n - 1) as nat);
        let g = groups[n - 1];
        lemma_intra_dep_bound(ws, wi, from, crate_name, g.1@, DependencyType::Normal, Some(g.0@), filter, g.1@.len());
    }
}

/// The intra-workspace edges number at most the dependencies declared.
pub proof fn lemma_intra_total_bound(ws: Seq<(String, WorkspaceInfo)>, filter: DependencyFilter, n: nat)
    requires
        n <= flat_members(ws).len(),
    ensures
        intra_edges_upto(ws, filter, n).len() <= members_total(ws, n),
    decreases n,
{
    if n > 0 {
        lemma_intra_total_bound(ws, filter, (n - 1) as nat);
        let fm = flat_members(ws)[n - 1];
        let m = fm.1;
        let flat = flat_members(ws);
        let from = crate_index(flat, m.name@, flat.len());
        lemma_intra_dep_bound(ws, fm.0, from, m.name@, m.dependencies@, DependencyType::Normal, None, filter, m.dependencies@.len());
        lemma_intra_dep_bound(ws, fm.0, from, m.name@, m.dev_dependencies@, DependencyType::Dev, None, filter, m.dev_dependencies@.len());
        lemma_intra_dep_bound(ws, fm.0, from, m.name@, m.build_dependencies@, DependencyType::Build, None, filter,
            m.build_dependencies@.len());
        lemma_intra_target_bound(ws, fm.0, from, m.name@, m.target_dependencies@, filter, m.target_dependencies@.len());
    }
}

/// The number of dependencies the crates of the workspaces declare, when it
/// stays below `limit`.
pub fn dependency_total(workspaces: &[(String, WorkspaceInfo)], limit: u64) -> (r: Option<u64>)
    ensures
        match r {
            Some(t) => t == members_total(workspaces@, flat_members(workspaces@).len()) && t < limit,
            None => members_total(workspaces@, flat_members(workspaces@).len()) >= limit,
        },
{
    if limit == 0 {
        return None;
    }
    let fl = flatten_members(workspaces);
    let ghost flat = flat_members(workspaces@);
    let mut total: u64 = 0;
    for k in 0..fl.len()
        invariant
            fl@.len() == flat.len(),
            flat == flat_members(workspaces@),
            forall|q: int| #![trigger fl@[q]] 0 <= q < fl@.len() ==> fl@[q].0 < workspaces@.len()
                && fl@[q].1 < workspaces@[fl@[q].0 as int].1.members@.len()
                && flat[q] == (fl@[q].0 as int, workspaces@[fl@[q].0 as int].1.members@[fl@[q].1 as int]),
            total == members_total(workspaces@, k as nat),
            total < limit,
    {
        let (i, j) = fl[k];
        let m = &workspaces[i].1.members[j];
        assert(*m == flat[k as int].1);
        assert(members_total(workspaces@, (k + 1) as nat) == total + member_total(*m));
        let ghost before = total;
        let mut groups: u64 = 0;
        for g in 0..m.target_dependencies.len()
            invariant
                groups == target_total(m.target_dependencies@, g as nat),
                total == before,
                total + groups < limit,
                k < flat.len(),
                flat == flat_members(workspaces@),
                *m == flat[k as int].1,
                members_total(workspaces@, (k + 1) as nat) == total + member_total(*m),
        {
            let add = m.target_dependencies[g].1.len() as u64;
            if add >= limit - total - groups {
                proof {
                    lemma_target_total_mono(m.target_dependencies@, (g + 1) as nat, m.target_dependencies@.len());
                    lemma_members_total_mono(workspaces@, (k + 1) as nat, flat.len());
                }
                return None;
            }
            groups = groups + add;
        }
        let a = m.dependencies.len() as u64;
        let b = m.dev_dependencies.len() as u64;
        let c = m.build_dependencies.len() as u64;
        if a >= limit - total - groups || b >= limit - total - groups - a || c >= limit - total - groups - a - b {
            proof { lemma_members_total_mono(workspaces@, (k + 1) as nat, flat.len()); }
            return None;
        }
        total = total + groups + a + b + c;
    }
    Some(total)
}

proof fn lemma_target_total_mono(groups: Seq<(String, Vec<Dependency>)>, a: nat, b: nat)
    requires
        a <= b,
    ensures
        target_total(groups, a) <= target_total(groups, b),
    decreases b - a,
{
    if a < b {
        lemma_target_total_mono(groups, a, (b - 1) as nat);
    }
}

proof fn lemma_members_total_mono(ws: Seq<(String, WorkspaceInfo)>, a: nat, b: nat)
    requires
        a <= b,
    ensures
        members_total(ws, a) <= members_total(ws, b),
    decreases b - a,
{
    if a < b {
        lemma_members_total_mono(ws, a, (b - 1) as nat);
    }
}

/// The crate-level nodes: `workspace/crate` with the crate alone.
pub open spec fn intra_nodes(ws: Seq<(String, WorkspaceInfo)>) -> Seq<(Seq<char>, Seq<Seq<char>>)> {
    flat_members(ws).map_values(|fm: (int, CrateMember)|
        (ws[fm.0].1.name@ + seq!['/'] + fm.1.name@, seq![fm.1.name@]))
}

/// The edges of `s` with both ends moved up by `off`.
pub open spec fn shifted(s: Seq<GraphEdgeView>, off: int) -> Seq<GraphEdgeView> {
    s.map_values(|e: GraphEdgeView| (e.0 + off, e.1 + off, e.2))
}

proof fn lemma_flat_take(ws: Seq<(String, WorkspaceInfo)>, i: int)
    requires
        0 <= i < ws.len(),
    ensures
        flat_members(ws.take(i + 1)) == flat_members(ws.take(i)) + ws[i].1.members@.map_values(|m: CrateMember| (i, m)),
{
    assert(ws.take(i + 1).drop_last() =~= ws.take(i));
    assert(ws.take(i + 1).last() == ws[i]);
}

proof fn lemma_crate_index_at_least(flat: Seq<(int, CrateMember)>, name: Seq<char>, j: int, n: nat)
    requires
        0 <= j < n <= flat.len(),
        flat[j].1.name@ == name,
    ensures
        j <= crate_index(flat, name, n) < n,
    decreases n,
{
    if n - 1 != j {
        lemma_crate_index_at_least(flat, name, j, (n - 1) as nat);
    }
}

proof fn lemma_crate_index_bounds(flat: Seq<(int, CrateMember)>, name: Seq<char>, n: nat)
    requires
        n <= flat.len(),
    ensures
        -1 <= crate_index(flat, name, n) < n,
    decreases n,
{
    if n > 0 {
        lemma_crate_index_bounds(flat, name, (n - 1) as nat);
    }
}

proof fn lemma_first_named_stable(flat: Seq<(int, CrateMember)>, name: Seq<char>, a: nat, b: nat)
    requires
        a <= b,
        first_named(flat, name, a) >= 0,
    ensures
        first_named(flat, name, b) == first_named(flat, name, a),
    decreases b - a,
{
    if a < b {
        lemma_first_named_stable(flat, name, a, (b - 1) as nat);
    }
}

proof fn lemma_dep_edges_mono(ws: Seq<(String, WorkspaceInfo)>, wi: int, from: int, crate_name: Seq<char>,
    deps: Seq<Dependency>, ty: DependencyType, target: Option<Seq<char>>, filter: DependencyFilter, a: nat, b: nat)
    requires
        a <= b,
    ensures
        intra_dep_edges(ws, wi, from, crate_name, deps, ty, target, filter, a).len()
            <= intra_dep_edges(ws, wi, from, crate_name, deps, ty, target, filter, b).len(),
    decreases b - a,
{
    if a < b {
        lemma_dep_edges_mono(ws, wi, from, crate_name, deps, ty, target, filter, a, (b - 1) as nat);
    }
}

proof fn lemma_target_edges_mono(ws: Seq<(String, WorkspaceInfo)>, wi: int, from: int, crate_name: Seq<char>,
    groups: Seq<(String, Vec<Dependency>)>, filter: DependencyFilter, a: nat, b: nat)
    requires
        a <= b,
    ensures
        intra_target_edges(ws, wi, from, crate_name, groups, filter, a).len()
            <= intra_target_edges(ws, wi, from, crate_name, groups, filter, b).len(),
    decreases b - a,
{
    if a < b {
        lemma_target_edges_mono(ws, wi, from, crate_name, groups, filter, a, (b - 1) as nat);
    }
}

proof fn lemma_intra_mono(ws: Seq<(String, WorkspaceInfo)>, filter: DependencyFilter, a: nat, b: nat)
    requires
        a <= b,
    ensures
        intra_edges_upto(ws, filter, a).len() <= intra_edges_upto(ws, filter, b).len(),
    decreases b - a,
{
    if a < b {
        lemma_intra_mono(ws, filter, a, (b - 1) as nat);
    }
}

/// The members of the workspaces as (workspace, member) positions.
pub fn flatten_members(workspaces: &[(String, WorkspaceInfo)]) -> (r: Vec<(usize, usize)>)
    ensures
        r@.len() == flat_members(workspaces@).len(),
        forall|k: int| #![trigger r@[k]] 0 <= k < r@.len() ==> r@[k].0 < workspaces@.len()
            && r@[k].1 < workspaces@[r@[k].0 as int].1.members@.len()
            && flat_members(workspaces@)[k] == (r@[k].0 as int, workspaces@[r@[k].0 as int].1.members@[r@[k].1 as int]),
{
    let ghost ws = workspaces@;
    let mut fl: Vec<(usize, usize)> = Vec::new();
    for i in 0..workspaces.len()
        invariant
            ws == workspaces@,
            fl@.len() == flat_members(ws.take(i as int)).len(),
            forall|k: int| #![trigger fl@[k]] 0 <= k < fl@.len() ==> fl@[k].0 < i
                && fl@[k].1 < ws[fl@[k].0 as int].1.members@.len()
                && flat_members(ws.take(i as int))[k] == (fl@[k].0 as int, ws[fl@[k].0 as int].1.members@[fl@[k].1 as int]),
    {
        proof { lemma_flat_take(ws, i as int); }
        let ghost base = fl@.len();
        let ghost prev = flat_members(ws.take(i as int));
        let members = workspaces[i].1.members();
        for j in 0..members.len()
            invariant
                ws == workspaces@,
                i < ws.len(),
                members@ == ws[i as int].1.members@,
                prev == flat_members(ws.take(i as int)),
                base == prev.len(),
                fl@.len() == base + j,
                forall|k: int| #![trigger fl@[k]] 0 <= k < fl@.len() ==> fl@[k].0 <= i
                    && fl@[k].1 < ws[fl@[k].0 as int].1.members@.len()
                    && (prev + ws[i as int].1.members@.map_values(|m: CrateMember| (i as int, m)))[k]
                        == (fl@[k].0 as int, ws[fl@[k].0 as int].1.members@[fl@[k].1 as int]),
        {
            let ghost before = fl@;
            fl.push((i, j));
            assert(fl@ == before.push((i, j)));
        }
    }
    assert(ws.take(workspaces.len() as int) =~= ws);
    fl
}

/// The position of the last crate named `name`.
fn last_named(workspaces: &[(String, WorkspaceInfo)], fl: &Vec<(usize, usize)>, name: &str) -> (r: Option<usize>)
    requires
        fl@.len() == flat_members(workspaces@).len(),
        forall|k: int| #![trigger fl@[k]] 0 <= k < fl@.len() ==> fl@[k].0 < workspaces@.len()
            && fl@[k].1 < workspaces@[fl@[k].0 as int].1.members@.len()
            && flat_members(workspaces@)[k] == (fl@[k].0 as int, workspaces@[fl@[k].0 as int].1.members@[fl@[k].1 as int]),
    ensures
        match r {
            Some(i) => i as int == crate_index(flat_members(workspaces@), name@, fl@.len()),
            None => crate_index(flat_members(workspaces@), name@, fl@.len()) < 0,
        },
{
    let ghost flat = flat_members(workspaces@);
    let mut k: usize = fl.len();
    while k > 0
        invariant
            k <= fl@.len(),
            flat == flat_members(workspaces@),
            fl@.len() == flat.len(),
            forall|q: int| #![trigger fl@[q]] 0 <= q < fl@.len() ==> fl@[q].0 < workspaces@.len()
                && fl@[q].1 < workspaces@[fl@[q].0 as int].1.members@.len()
                && flat[q] == (fl@[q].0 as int, workspaces@[fl@[q].0 as int].1.members@[fl@[q].1 as int]),
            crate_index(flat, name@, fl@.len() as nat) == crate_index(flat, name@, k as nat),
        decreases k,
    {
        let (wi, mi) = fl[k - 1];
        assert(flat[k - 1].1 == workspaces@[wi as int].1.members@[mi as int]);
        if str_eq(workspaces[wi].1.members[mi].name.as_str(), name) {
            return Some(k - 1);
        }
        k = k - 1;
    }
    None
}

/// The workspace position of the first crate named `name`.
fn workspace_of_name(workspaces: &[(String, WorkspaceInfo)], fl: &Vec<(usize, usize)>, name: &str) -> (r: Option<usize>)
    requires
        fl@.len() == flat_members(workspaces@).len(),
        forall|k: int| #![trigger fl@[k]] 0 <= k < fl@.len() ==> fl@[k].0 < workspaces@.len()
            && fl@[k].1 < workspaces@[fl@[k].0 as int].1.members@.len()
            && flat_members(workspaces@)[k] == (fl@[k].0 as int, workspaces@[fl@[k].0 as int].1.members@[fl@[k].1 as int]),
    ensures
        match r {
            Some(w) => w as int == member_workspace(workspaces@, name@),
            None => member_workspace(workspaces@, name@) < 0,
        },
{
    let ghost flat = flat_members(workspaces@);
    let mut k: usize = 0;
    while k < fl.len()
        invariant
            k <= fl@.len(),
            flat == flat_members(workspaces@),
            fl@.len() == flat.len(),
            forall|q: int| #![trigger fl@[q]] 0 <= q < fl@.len() ==> fl@[q].0 < workspaces@.len()
                && fl@[q].1 < workspaces@[fl@[q].0 as int].1.members@.len()
                && flat[q] == (fl@[q].0 as int, workspaces@[fl@[q].0 as int].1.members@[fl@[q].1 as int]),
            first_named(flat, name@, k as nat) < 0,
        decreases fl@.len() - k,
    {
        let (wi, mi) = fl[k];
        assert(flat[k as int].1 == workspaces@[wi as int].1.members@[mi as int]);
        if str_eq(workspaces[wi].1.members[mi].name.as_str(), name) {
            proof { lemma_first_named_stable(flat, name@, (k + 1) as nat, flat.len()); }
            return Some(wi);
        }
        k = k + 1;
    }
    None
}

/// The given target, or else the dependency's own.
fn target_or(target: Option<&String>, d: &Dependency) -> (r: Option<String>)
    ensures
        match r { Some(t) => Some(t@), None => None }
            == match target { Some(t) => Some(t@), None => d.target_view() },
{
    match target {
        Some(t) => Some(dup(t)),
        None => match &d.target {
            Some(t) => Some(dup(t)),
            None => None,
        },
    }
}

/// Builds dependency graphs between workspaces, or between the crates of
/// each workspace, leaving out the dependency kinds the filter excludes.
pub struct DependencyGraphBuilder {
    graph: DiGraph<WorkspaceNode, DependencyEdge>,
    workspace_indices: Vec<(String, usize)>,
    filter: DependencyFilter,
}

impl DependencyGraphBuilder {
    /// The graph built so far.
    pub closed spec fn graph_spec(&self) -> DiGraph<WorkspaceNode, DependencyEdge> {
        self.graph
    }

    /// The dependency filter.
    pub closed spec fn filter_spec(&self) -> DependencyFilter {
        self.filter
    }

    /// An empty graph and the filter of the given exclusions.
    pub fn new(exclude_dev: bool, exclude_build: bool, exclude_target: bool) -> (r: Self)
        ensures
            graph_nodes(r.graph_spec()).len() == 0,
            graph_edges(r.graph_spec()).len() == 0,
            r.filter_spec().excludes_dev() == exclude_dev,
            r.filter_spec().excludes_build() == exclude_build,
            r.filter_spec().excludes_target() == exclude_target,
    {
        DependencyGraphBuilder {
            graph: new_graph(),
            workspace_indices: Vec::new(),
            filter: DependencyFilter::new(exclude_dev, exclude_build, exclude_target),
        }
    }

    /// The graph built so far.
    pub fn graph(&self) -> (r: &DiGraph<WorkspaceNode, DependencyEdge>)
        ensures
            *r == self.graph_spec(),
    {
        &self.graph
    }

    /// Whether edges of the given type are included: normal ones always.
    pub fn should_include_dependency_type(&self, dep_type: &DependencyType) -> (r: bool)
        ensures
            r == match *dep_type {
                DependencyType::Normal => true,
                DependencyType::Dev => !self.filter_spec().excludes_dev(),
                DependencyType::Build => !self.filter_spec().excludes_build(),
            },
    {
        match dep_type {
            DependencyType::Normal => true,
            DependencyType::Dev => self.filter.include_dev(),
            DependencyType::Build => self.filter.include_build(),
        }
    }

    fn push_intra_dep_edges(&mut self, workspaces: &[(String, WorkspaceInfo)], fl: &Vec<(usize, usize)>, wi: usize,
        from: usize, off: usize, crate_name: &String, deps: &[Dependency], ty: DependencyType, target: Option<&String>)
        requires
            fl@.len() == flat_members(workspaces@).len(),
            forall|k: int| #![trigger fl@[k]] 0 <= k < fl@.len() ==> fl@[k].0 < workspaces@.len()
                && fl@[k].1 < workspaces@[fl@[k].0 as int].1.members@.len()
                && flat_members(workspaces@)[k] == (fl@[k].0 as int, workspaces@[fl@[k].0 as int].1.members@[fl@[k].1 as int]),
            from < fl@.len(),
            off + fl@.len() == graph_nodes(old(self).graph_spec()).len(),
            off + fl@.len() <= index_limit(),
            graph_edges(old(self).graph_spec()).len() + intra_dep_edges(workspaces@, wi as int, from as int, crate_name@, deps@, ty,
                match target { Some(t) => Some(t@), None => None }, old(self).filter_spec(), deps@.len()).len() < index_limit(),
        ensures
            graph_nodes(final(self).graph_spec()) == graph_nodes(old(self).graph_spec()),
            edge_list(final(self).graph_spec()) == edge_list(old(self).graph_spec()) + shifted(intra_dep_edges(workspaces@,
                wi as int, from as int, crate_name@, deps@, ty, match target { Some(t) => Some(t@), None => None },
                old(self).filter_spec(), deps@.len()), off as int),
            final(self).filter_spec() == old(self).filter_spec(),
    {
        let ghost tv = match target { Some(t) => Some(t@), None => None };
        let ghost flat = flat_members(workspaces@);
        for j in 0..deps.len()
            invariant
                tv == match target { Some(t) => Some(t@), None => None },
                fl@.len() == flat.len(),
                flat == flat_members(workspaces@),
                forall|k: int| #![trigger fl@[k]] 0 <= k < fl@.len() ==> fl@[k].0 < workspaces@.len()
                    && fl@[k].1 < workspaces@[fl@[k].0 as int].1.members@.len()
                    && flat[k] == (fl@[k].0 as int, workspaces@[fl@[k].0 as int].1.members@[fl@[k].1 as int]),
                from < fl@.len(),
                off + fl@.len() == graph_nodes(self.graph).len(),
                off + fl@.len() <= index_limit(),
                graph_nodes(self.graph) == graph_nodes(old(self).graph_spec()),
                self.filter == old(self).filter_spec(),
                graph_edges(old(self).graph_spec()).len() + intra_dep_edges(workspaces@, wi as int, from as int, crate_name@,
                    deps@, ty, tv, self.filter, deps@.len()).len() < index_limit(),
                edge_list(self.graph) == edge_list(old(self).graph_spec()) + shifted(intra_dep_edges(workspaces@, wi as int,
                    from as int, crate_name@, deps@, ty, tv, self.filter, j as nat), off as int),
        {
            let d = &deps[j];
            proof {
                lemma_dep_edges_mono(workspaces@, wi as int, from as int, crate_name@, deps@, ty, tv, self.filter, (j + 1) as nat, deps@.len());
                lemma_crate_index_bounds(flat, d.name@, flat.len());
            }
            if self.filter.should_include_dependency(d) {
                match last_named(workspaces, fl, d.name.as_str()) {
                    Some(to) => {
                        match workspace_of_name(workspaces, fl, d.name.as_str()) {
                            Some(dw) => {
                                if dw == wi {
                                    let edge_target = target_or(target, d);
                                    let edge = DependencyEdge {
                                        from_crate: dup(crate_name),
                                        to_crate: dup(&d.name),
                                        dependency_type: ty,
                                        target: edge_target,
                                    };
                                    let ghost before = edge_list(self.graph);
                                    let ghost tail = (from as int, to as int, (crate_name@, d.name@, ty,
                                        match tv { Some(t) => Some(t), None => d.target_view() }));
                                    assert(d == deps@[j as int]);
                                    assert(intra_dep_edges(workspaces@, wi as int, from as int, crate_name@, deps@, ty, tv, self.filter, (j + 1) as nat)
                                        == intra_dep_edges(workspaces@, wi as int, from as int, crate_name@, deps@, ty, tv, self.filter, j as nat).push(tail));
                                    proof {
                                        match target {
                                            Some(t) => { assert(tv == Some(t@)); },
                                            None => { assert(tv is None); },
                                        }
                                    }
                                    assert(dep_edge_view(edge) == tail.2);
                                    assert(graph_edges(self.graph).len() == before.len());
                                    assert(edge_list(old(self).graph_spec()).len() == graph_edges(old(self).graph_spec()).len());
                                    add_edge(&mut self.graph, off + from, off + to, edge);
                                    assert(edge_list(self.graph) =~= before.push(((off + from) as int, (off + to) as int, dep_edge_view(edge))));
                                    assert(shifted(intra_dep_edges(workspaces@, wi as int, from as int, crate_name@, deps@, ty, tv, self.filter, (j + 1) as nat), off as int)
                                        =~= shifted(intra_dep_edges(workspaces@, wi as int, from as int, crate_name@, deps@, ty, tv, self.filter, j as nat), off as int)
                                            .push(((off + from) as int, (off + to) as int, dep_edge_view(edge))));
                                }
                            },
                            None => {},
                        }
                    },
                    None => {},
                }
            }
        }
    }

    /// Builds a graph of the crates of each workspace: one node per crate
    /// (named `workspace/crate`), and an edge for each dependency on a crate
    /// of the same workspace. New nodes and edges come after existing ones.
    pub fn build_intra_workspace_graph(&mut self, workspaces: &[(String, WorkspaceInfo)]) -> (r: Result<(), FerrisWheelError>)
        requires
            graph_nodes(old(self).graph_spec()).len() + flat_members(workspaces@).len() < index_limit(),
            graph_edges(old(self).graph_spec()).len()
                + intra_edges_upto(workspaces@, old(self).filter_spec(), flat_members(workspaces@).len()).len() < index_limit(),
        ensures
            r is Ok,
            final(self).filter_spec() == old(self).filter_spec(),
            node_list(final(self).graph_spec()) == node_list(old(self).graph_spec()) + intra_nodes(workspaces@),
            edge_list(final(self).graph_spec()) == edge_list(old(self).graph_spec()) + shifted(intra_edges_upto(workspaces@,
                old(self).filter_spec(), flat_members(workspaces@).len()), graph_nodes(old(self).graph_spec()).len() as int),
    {
        let off = node_count(&self.graph);
        let fl = flatten_members(workspaces);
        let ghost flat = flat_members(workspaces@);
        let ghost nodes0 = node_list(self.graph);
        for k in 0..fl.len()
            invariant
                fl@.len() == flat.len(),
                flat == flat_members(workspaces@),
                forall|q: int| #![trigger fl@[q]] 0 <= q < fl@.len() ==> fl@[q].0 < workspaces@.len()
                    && fl@[q].1 < workspaces@[fl@[q].0 as int].1.members@.len()
                    && flat[q] == (fl@[q].0 as int, workspaces@[fl@[q].0 as int].1.members@[fl@[q].1 as int]),
                off == nodes0.len(),
                nodes0 == node_list(old(self).graph_spec()),
                graph_nodes(old(self).graph_spec()).len() + flat.len() < index_limit(),
                node_list(self.graph) == nodes0 + intra_nodes(workspaces@).take(k as int),
                graph_edges(self.graph) == graph_edges(old(self).graph_spec()),
                self.filter == old(self).filter_spec(),
        {
            let (wi, mi) = fl[k];
            let info = &workspaces[wi].1;
            let m = &info.members[mi];
            let mut name = dup(&info.name);
            push_char(&mut name, '/');
            push_str(&mut name, m.name.as_str());
            let mut crates: Vec<String> = Vec::new();
            crates.push(dup(&m.name));
            let node = WorkspaceNode { name, crates };
            assert(views(node.crates@) =~= seq![m.name@]);
            assert(node.name@ =~= workspaces@[wi as int].1.name@ + seq!['/'] + m.name@);
            assert(flat[k as int] == (wi as int, *m));
            assert(intra_nodes(workspaces@)[k as int] == node_view(node));
            let ghost before = node_list(self.graph);
            assert(intra_nodes(workspaces@).take(k as int).len() == k);
            assert(graph_nodes(self.graph).len() == before.len());
            add_node(&mut self.graph, node);
            assert(node_list(self.graph) =~= before.push(node_view(node)));
            assert(intra_nodes(workspaces@).take(k + 1) =~= intra_nodes(workspaces@).take(k as int).push(node_view(node)));
        }
        assert(intra_nodes(workspaces@).take(fl.len() as int) =~= intra_nodes(workspaces@));
        assert(graph_nodes(self.graph).len() == node_list(self.graph).len());
        let ghost edges0 = edge_list(self.graph);
        for k in 0..fl.len()
            invariant
                fl@.len() == flat.len(),
                flat == flat_members(workspaces@),
                forall|q: int| #![trigger fl@[q]] 0 <= q < fl@.len() ==> fl@[q].0 < workspaces@.len()
                    && fl@[q].1 < workspaces@[fl@[q].0 as int].1.members@.len()
                    && flat[q] == (fl@[q].0 as int, workspaces@[fl@[q].0 as int].1.members@[fl@[q].1 as int]),
                off + fl@.len() == graph_nodes(self.graph).len(),
                off + fl@.len() <= index_limit(),
                node_list(self.graph) == nodes0 + intra_nodes(workspaces@),
                edges0 == edge_list(old(self).graph_spec()),
                self.filter == old(self).filter_spec(),
                graph_edges(old(self).graph_spec()).len() + intra_edges_upto(workspaces@, self.filter, flat.len()).len() < index_limit(),
                edge_list(self.graph) == edges0 + shifted(intra_edges_upto(workspaces@, self.filter, k as nat), off as int),
        {
            proof { lemma_intra_mono(workspaces@, self.filter, (k + 1) as nat, flat.len()); }
            assert(intra_edges_upto(workspaces@, self.filter, (k + 1) as nat) == intra_edges_upto(workspaces@, self.filter, k as nat)
                + intra_member_edges(workspaces@, flat[k as int].0, flat[k as int].1, self.filter));
            assert(graph_edges(self.graph).len() == edge_list(self.graph).len());
            assert(graph_edges(old(self).graph_spec()).len() == edges0.len());
            self.push_member_edges(workspaces, &fl, k, off);
            assert(shifted(intra_edges_upto(workspaces@, self.filter, (k + 1) as nat), off as int) =~=
                shifted(intra_edges_upto(workspaces@, self.filter, k as nat), off as int)
                + shifted(intra_member_edges(workspaces@, flat[k as int].0, flat[k as int].1, self.filter), off as int));
        }
        Ok(())
    }

    fn push_member_edges(&mut self, workspaces: &[(String, WorkspaceInfo)], fl: &Vec<(usize, usize)>, k: usize, off: usize)
        requires
            fl@.len() == flat_members(workspaces@).len(),
            forall|q: int| #![trigger fl@[q]] 0 <= q < fl@.len() ==> fl@[q].0 < workspaces@.len()
                && fl@[q].1 < workspaces@[fl@[q].0 as int].1.members@.len()
                && flat_members(workspaces@)[q] == (fl@[q].0 as int, workspaces@[fl@[q].0 as int].1.members@[fl@[q].1 as int]),
            k < fl@.len(),
            off + fl@.len() == graph_nodes(old(self).graph_spec()).len(),
            off + fl@.len() <= index_limit(),
            graph_edges(old(self).graph_spec()).len() + intra_member_edges(workspaces@, flat_members(workspaces@)[k as int].0,
                flat_members(workspaces@)[k as int].1, old(self).filter_spec()).len() < index_limit(),
        ensures
            graph_nodes(final(self).graph_spec()) == graph_nodes(old(self).graph_spec()),
            final(self).filter_spec() == old(self).filter_spec(),
            edge_list(final(self).graph_spec()) == edge_list(old(self).graph_spec()) + shifted(intra_member_edges(workspaces@,
                flat_members(workspaces@)[k as int].0, flat_members(workspaces@)[k as int].1, old(self).filter_spec()), off as int),
    {
        let ghost flat = flat_members(workspaces@);
        let (wi, mi) = fl[k];
        let m = &workspaces[wi].1.members[mi];
        proof { lemma_crate_index_at_least(flat, m.name@, k as int, flat.len()); }
        let from = match last_named(workspaces, fl, m.name.as_str()) {
            Some(f) => f,
            None => { return; },
        };
        let ghost f = self.filter;
        let ghost e0 = edge_list(self.graph);
        let ghost p1 = intra_dep_edges(workspaces@, wi as int, from as int, m.name@, m.dependencies@, DependencyType::Normal, None, f, m.dependencies@.len());
        let ghost p2 = if f.excludes_dev() { Seq::<GraphEdgeView>::empty() } else {
            intra_dep_edges(workspaces@, wi as int, from as int, m.name@, m.dev_dependencies@, DependencyType::Dev, None, f, m.dev_dependencies@.len()) };
        let ghost p3 = if f.excludes_build() { Seq::<GraphEdgeView>::empty() } else {
            intra_dep_edges(workspaces@, wi as int, from as int, m.name@, m.build_dependencies@, DependencyType::Build, None, f, m.build_dependencies@.len()) };
        let ghost p4 = if f.excludes_target() { Seq::<GraphEdgeView>::empty() } else {
            intra_target_edges(workspaces@, wi as int, from as int, m.name@, m.target_dependencies@, f, m.target_dependencies@.len()) };
        assert(intra_member_edges(workspaces@, flat[k as int].0, flat[k as int].1, f) == p1 + p2 + p3 + p4);
        self.push_intra_dep_edges(workspaces, fl, wi, from, off, &m.name, m.dependencies.as_slice(), DependencyType::Normal, None);
        assert(edge_list(self.graph) =~= e0 + shifted(p1, off as int));
        if self.filter.include_dev() {
            self.push_intra_dep_edges(workspaces, fl, wi, from, off, &m.name, m.dev_dependencies.as_slice(), DependencyType::Dev, None);
        }
        assert(edge_list(self.graph) =~= e0 + shifted(p1, off as int) + shifted(p2, off as int));
        if self.filter.include_build() {
            self.push_intra_dep_edges(workspaces, fl, wi, from, off, &m.name, m.build_dependencies.as_slice(), DependencyType::Build, None);
        }
        assert(edge_list(self.graph) =~= e0 + shifted(p1, off as int) + shifted(p2, off as int) + shifted(p3, off as int));
        if self.filter.include_target() {
            let groups = m.target_dependencies.as_slice();
            let ghost mid = edge_list(self.graph);
            for g in 0..groups.len()
                invariant
                    fl@.len() == flat.len(),
                    flat == flat_members(workspaces@),
                    forall|q: int| #![trigger fl@[q]] 0 <= q < fl@.len() ==> fl@[q].0 < workspaces@.len()
                        && fl@[q].1 < workspaces@[fl@[q].0 as int].1.members@.len()
                        && flat[q] == (fl@[q].0 as int, workspaces@[fl@[q].0 as int].1.members@[fl@[q].1 as int]),
                    from < fl@.len(),
                    off + fl@.len() == graph_nodes(self.graph).len(),
                    off + fl@.len() <= index_limit(),
                    graph_nodes(self.graph) == graph_nodes(old(self).graph_spec()),
                    self.filter == f,
                    !f.excludes_target(),
                    groups@ == m.target_dependencies@,
                    mid.len() + intra_target_edges(workspaces@, wi as int, from as int, m.name@, groups@, f, groups@.len()).len() < index_limit(),
                    edge_list(self.graph) == mid + shifted(intra_target_edges(workspaces@, wi as int, from as int, m.name@, groups@, f, g as nat), off as int),
            {
                proof { lemma_target_edges_mono(workspaces@, wi as int, from as int, m.name@, groups@, f, (g + 1) as nat, groups@.len()); }
                let ghost before = edge_list(self.graph);
                assert(intra_target_edges(workspaces@, wi as int, from as int, m.name@, groups@, f, (g + 1) as nat)
                    == intra_target_edges(workspaces@, wi as int, from as int, m.name@, groups@, f, g as nat)
                        + intra_dep_edges(workspaces@, wi as int, from as int, m.name@, groups@[g as int].1@,
                            DependencyType::Normal, Some(groups@[g as int].0@), f, groups@[g as int].1@.len()));
                assert(graph_edges(self.graph).len() == edge_list(self.graph).len());
                self.push_intra_dep_edges(workspaces, fl, wi, from, off, &m.name, groups[g].1.as_slice(), DependencyType::Normal, Some(&groups[g].0));
                assert(shifted(intra_target_edges(workspaces@, wi as int, from as int, m.name@, groups@, f, (g + 1) as nat), off as int)
                    =~= shifted(intra_target_edges(workspaces@, wi as int, from as int, m.name@, groups@, f, g as nat), off as int)
                        + shifted(intra_dep_edges(workspaces@, wi as int, from as int, m.name@, groups@[g as int].1@,
                            DependencyType::Normal, Some(groups@[g as int].0@), f, groups@[g as int].1@.len()), off as int));
            }
        }
        assert(edge_list(self.graph) =~= e0 + shifted(p1 + p2 + p3 + p4, off as int));
    }
}

/// A dependency to resolve while building the workspace graph: the
/// workspace position, the crate, the dependency (with the target of its
/// group for target dependencies), the edge type, the workspace path and
/// the crate path.
pub type Job = (int, Seq<char>, DependencyView, DependencyType, Seq<char>, Seq<char>);

/// A dependency with its target replaced by `target` when given.
pub open spec fn with_target_view(d: DependencyView, target: Option<Seq<char>>) -> DependencyView {
    match target { Some(t) => (d.0, d.1, d.2, Some(t)), None => d }
}

/// The jobs of the first `n` dependencies of `deps`, leaving out the
/// target-specific ones when targets are excluded.
pub open spec fn dep_jobs(i: int, m: CrateMember, ws_path: Seq<char>, deps: Seq<Dependency>, ty: DependencyType,
    target: Option<Seq<char>>, filter: DependencyFilter, n: nat) -> Seq<Job>
    decreases n,
{
    if n == 0 {
        Seq::empty()
    } else {
        let prev = dep_jobs(i, m, ws_path, deps, ty, target, filter, (n - 1) as nat);
        let d = with_target_view(deps[n - 1]@, target);
        if d.3 is Some && filter.excludes_target() { prev } else { prev.push((i, m.name@, d, ty, ws_path, m.path@)) }
    }
}

/// The jobs of the first `n` target groups of a crate.
pub open spec fn target_jobs(i: int, m: CrateMember, ws_path: Seq<char>, filter: DependencyFilter, n: nat) -> Seq<Job>
    decreases n,
{
    if n == 0 {
        Seq::empty()
    } else {
        let g = m.target_dependencies@[n - 1];
        target_jobs(i, m, ws_path, filter, (n - 1) as nat)
            + dep_jobs(i, m, ws_path, g.1@, DependencyType::Normal, Some(g.0@), filter, g.1@.len())
    }
}

/// The jobs of one crate: normal dependencies, dev and build ones unless
/// excluded, then target ones (as normal edges) unless excluded.
pub open spec fn member_jobs(i: int, m: CrateMember, ws_path: Seq<char>, filter: DependencyFilter) -> Seq<Job> {
    dep_jobs(i, m, ws_path, m.dependencies@, DependencyType::Normal, None, filter, m.dependencies@.len())
        + (if filter.excludes_dev() { Seq::empty() } else {
            dep_jobs(i, m, ws_path, m.dev_dependencies@, DependencyType::Dev, None, filter, m.dev_dependencies@.len())
        })
        + (if filter.excludes_build() { Seq::empty() } else {
            dep_jobs(i, m, ws_path, m.build_dependencies@, DependencyType::Build, None, filter, m.build_dependencies@.len())
        })
        + (if filter.excludes_target() { Seq::empty() } else {
            target_jobs(i, m, ws_path, filter, m.target_dependencies@.len())
        })
}

/// The jobs of the first `n` flattened members.
pub open spec fn cross_jobs(ws: Seq<(String, WorkspaceInfo)>, filter: DependencyFilter, n: nat) -> Seq<Job>
    decreases n,
{
    if n == 0 {
        Seq::empty()
    } else {
        let fm = flat_members(ws)[n - 1];
        cross_jobs(ws, filter, (n - 1) as nat) + member_jobs(fm.0, fm.1, ws[fm.0].0@, filter)
    }
}

/// The position of the last workspace at `path`, or -1.
pub open spec fn ws_index(ws: Seq<(String, WorkspaceInfo)>, path: Seq<char>, n: nat) -> int
    decreases n,
{
    if n == 0 {
        -1
    } else if ws[n - 1].0@ == path {
        n - 1
    } else {
        ws_index(ws, path, (n - 1) as nat)
    }
}

/// The edges of one job given the workspaces it resolved to: one to each
/// known workspace other than its own.
pub open spec fn job_edges(ws: Seq<(String, WorkspaceInfo)>, job: Job, targets: Seq<Seq<char>>, n: nat) -> Seq<GraphEdgeView>
    decreases n,
{
    if n == 0 {
        Seq::empty()
    } else {
        let prev = job_edges(ws, job, targets, (n - 1) as nat);
        let from = ws_index(ws, ws[job.0].0@, ws.len());
        let to = ws_index(ws, targets[n - 1], ws.len());
        if to >= 0 && to != from { prev.push((from, to, (job.1, job.2.0, job.3, job.2.3))) } else { prev }
    }
}

/// The edges of the first `n` jobs given their resolutions.
pub open spec fn cross_edges(ws: Seq<(String, WorkspaceInfo)>, jobs: Seq<Job>, res: Seq<Seq<Seq<char>>>, n: nat) -> Seq<GraphEdgeView>
    decreases n,
{
    if n == 0 {
        Seq::empty()
    } else {
        cross_edges(ws, jobs, res, (n - 1) as nat) + job_edges(ws, jobs[n - 1], res[n - 1], res[n - 1].len())
    }
}

/// The lookup tables for resolving a dependency: crate name → workspaces,
/// crate path → workspace, crate name → paths, path → canonical path.
pub type LookupView = (Seq<(Seq<char>, Seq<Seq<char>>)>, Seq<(Seq<char>, Seq<char>)>,
    Seq<(Seq<char>, Seq<Seq<char>>)>, Seq<(Seq<char>, Seq<char>)>);

/// The list of the first entry with key `k`, or none.
pub open spec fn list_get(m: Seq<(Seq<char>, Seq<Seq<char>>)>, k: Seq<char>) -> Option<Seq<Seq<char>>>
    decreases m.len(),
{
    if m.len() == 0 { None } else if m[0].0 == k { Some(m[0].1) } else { list_get(m.drop_first(), k) }
}

/// The workspace a dependency falls back to when its path resolves to none:
/// the only workspace that has a crate of that name, unless it is the
/// current one.
pub open spec fn fallback_targets(ctx: LookupView, name: Seq<char>, current: Seq<char>) -> Seq<Seq<char>> {
    match list_get(ctx.0, name) {
        Some(s) => if s.len() == 1 && s[0] != current { seq![s[0]] } else { Seq::empty() },
        None => Seq::empty(),
    }
}

/// A workspace path the tables know for a dependency: a workspace of a crate
/// path, or a workspace of a crate with the dependency's name.
pub open spec fn known_target(ctx: LookupView, name: Seq<char>, t: Seq<char>) -> bool {
    (exists|i: int| 0 <= i < ctx.1.len() && (#[trigger] ctx.1[i]).1 == t)
        || (list_get(ctx.0, name) matches Some(s) && s.contains(t))
}

/// What holds of every resolution: sorted, without the current workspace,
/// only known workspaces, and for a dependency without a path exactly the
/// fallback.
pub open spec fn resolution_ok(ctx: LookupView, dep: DependencyView, current: Seq<char>, r: Seq<Seq<char>>) -> bool {
    &&& strictly_sorted(r)
    &&& forall|k: int| 0 <= k < r.len() ==> #[trigger] r[k] != current && known_target(ctx, dep.0, r[k])
    &&& dep.1 is None ==> r == fallback_targets(ctx, dep.0, current)
}

/// Whether either path is made of the first whole components of the other.
pub open spec fn nested_paths(a: Seq<char>, b: Seq<char>) -> bool {
    path_has_prefix(a, b) || path_has_prefix(b, a)
}

/// The canonical form of a path: its entry in the table, or itself.
pub open spec fn canon_in(ctx: LookupView, p: Seq<char>) -> Seq<char> {
    match assoc_get(ctx.3, p) {
        Some(c) => c,
        None => p,
    }
}

/// The workspaces that the first `n` paths of crates of the dependency's
/// name give: for each path nested with `cp`, its workspace; failing that,
/// the workspace of its canonical form where that is nested with `cp`.
pub open spec fn candidate_targets(ctx: LookupView, cp: Seq<char>, cands: Seq<Seq<char>>, n: nat) -> Seq<Seq<char>>
    decreases n,
{
    if n == 0 {
        Seq::empty()
    } else {
        let prev = candidate_targets(ctx, cp, cands, (n - 1) as nat);
        let c = cands[n - 1];
        if nested_paths(cp, c) && assoc_get(ctx.1, c) is Some {
            sorted_insert(prev, assoc_get(ctx.1, c).unwrap())
        } else {
            match assoc_get(ctx.3, c) {
                Some(cc) => if nested_paths(cp, cc) && assoc_get(ctx.1, cc) is Some {
                    sorted_insert(prev, assoc_get(ctx.1, cc).unwrap())
                } else {
                    prev
                },
                None => prev,
            }
        }
    }
}

/// The workspaces of the first `n` crate paths nested with `cp`.
pub open spec fn table_targets(ctx: LookupView, cp: Seq<char>, n: nat) -> Seq<Seq<char>>
    decreases n,
{
    if n == 0 {
        Seq::empty()
    } else if nested_paths(cp, ctx.1[n - 1].0) {
        sorted_insert(table_targets(ctx, cp, (n - 1) as nat), ctx.1[n - 1].1)
    } else {
        table_targets(ctx, cp, (n - 1) as nat)
    }
}

/// The workspaces a path dependency resolves to, before the fallback: the
/// workspace of its canonical path, else of its path as given; failing
/// that, the workspaces from the paths of crates of its name; failing that,
/// those of every crate path nested with its canonical path.
pub open spec fn path_targets(ctx: LookupView, name: Seq<char>, cp: Seq<char>, absolute: Seq<char>) -> Seq<Seq<char>> {
    let s1 = match assoc_get(ctx.1, cp) {
        Some(w) => sorted_insert(Seq::empty(), w),
        None => match assoc_get(ctx.1, absolute) {
            Some(w) => sorted_insert(Seq::empty(), w),
            None => Seq::empty(),
        },
    };
    let s2 = if s1.len() == 0 {
        match list_get(ctx.2, name) {
            Some(c) => candidate_targets(ctx, cp, c, c.len()),
            None => Seq::empty(),
        }
    } else {
        s1
    };
    if s2.len() == 0 { table_targets(ctx, cp, ctx.1.len()) } else { s2 }
}

/// The entries of `s` other than `x`, in order.
pub open spec fn without(s: Seq<Seq<char>>, x: Seq<char>, n: nat) -> Seq<Seq<char>>
    decreases n,
{
    if n == 0 {
        Seq::empty()
    } else if s[n - 1] == x {
        without(s, x, (n - 1) as nat)
    } else {
        without(s, x, (n - 1) as nat).push(s[n - 1])
    }
}

/// The workspaces a dependency of the crate at `from_path`, in the
/// workspace at `current`, resolves to, in sorted order and without the
/// current workspace. Without a path: the fallback. With one: the path is
/// made absolute against the workspace root (`workspace = true`) or the
/// crate, and canonicalised; `path_targets` of it, or failing those the
/// only workspace with a crate of the dependency's name.
pub open spec fn resolved_targets(ctx: LookupView, dep: DependencyView, current: Seq<char>, from_path: Seq<char>) -> Seq<Seq<char>> {
    match dep.1 {
        None => fallback_targets(ctx, dep.0, current),
        Some(dp) => {
            let base = if dep.2 { current } else { from_path };
            let absolute = if absolute_path(dp) { dp } else { joined_path(base, dp) };
            let s = path_targets(ctx, dep.0, canon_in(ctx, absolute), absolute);
            let all = if s.len() == 0 {
                match list_get(ctx.0, dep.0) {
                    Some(set) => if set.len() == 1 { sorted_insert(Seq::empty(), set[0]) } else { Seq::empty() },
                    None => Seq::empty(),
                }
            } else {
                s
            };
            without(all, current, all.len())
        },
    }
}

/// The tables a dependency is resolved against, and where it is declared.
pub struct DependencyLookupContext<'a> {
    pub crate_to_workspaces: &'a [(String, Vec<String>)],
    pub crate_path_to_workspace: &'a [(String, String)],
    pub crate_to_paths: &'a [(String, Vec<String>)],
    pub canonical_paths: &'a [(String, String)],
    pub current_workspace_path: &'a String,
    pub from_crate_path: &'a String,
}

impl<'a> DependencyLookupContext<'a> {
    /// The view of the tables.
    pub open spec fn tables(&self) -> LookupView {
        (list_views(self.crate_to_workspaces@), str_pairs(self.crate_path_to_workspace@),
            list_views(self.crate_to_paths@), str_pairs(self.canonical_paths@))
    }
}

proof fn lemma_assoc_get_in(m: Seq<(Seq<char>, Seq<char>)>, k: Seq<char>)
    requires
        assoc_get(m, k) is Some,
    ensures
        exists|i: int| 0 <= i < m.len() && (#[trigger] m[i]).1 == assoc_get(m, k).unwrap(),
    decreases m.len(),
{
    if m[0].0 == k {
        assert(m[0].1 == assoc_get(m, k).unwrap());
    } else {
        lemma_assoc_get_in(m.drop_first(), k);
        let i = choose|i: int| 0 <= i < m.drop_first().len() && (#[trigger] m.drop_first()[i]).1 == assoc_get(m, k).unwrap();
        assert(m[i + 1] == m.drop_first()[i]);
    }
}

/// The list of the first entry with key `k`.
pub fn list_lookup<'b>(m: &'b [(String, Vec<String>)], k: &str) -> (r: Option<&'b Vec<String>>)
    ensures
        match r { Some(v) => Some(views(v@)), None => None } == list_get(list_views(m@), k@),
{
    let ghost mv = list_views(m@);
    let mut i: usize = 0;
    assert(mv.skip(0) =~= mv);
    while i < m.len()
        invariant
            mv == list_views(m@),
            i <= m.len(),
            list_get(mv, k@) == list_get(mv.skip(i as int), k@),
        decreases m.len() - i,
    {
        assert(mv.skip(i as int)[0] == (m@[i as int].0@, views(m@[i as int].1@)));
        if str_eq(m[i].0.as_str(), k) {
            return Some(&m[i].1);
        }
        assert(mv.skip(i as int).drop_first() =~= mv.skip(i + 1));
        i = i + 1;
    }
    assert(mv.skip(i as int) =~= Seq::<(Seq<char>, Seq<Seq<char>>)>::empty());
    None
}

/// Adds a known workspace to the sorted set of targets.
fn add_target(targets: &mut Vec<String>, t: &String, Ghost(ctx): Ghost<LookupView>, Ghost(name): Ghost<Seq<char>>)
    requires
        strictly_sorted(views(old(targets)@)),
        forall|k: int| 0 <= k < old(targets)@.len() ==> known_target(ctx, name, #[trigger] views(old(targets)@)[k]),
        known_target(ctx, name, t@),
    ensures
        views(final(targets)@) == sorted_insert(views(old(targets)@), t@),
        strictly_sorted(views(final(targets)@)),
        forall|k: int| 0 <= k < final(targets)@.len() ==> known_target(ctx, name, #[trigger] views(final(targets)@)[k]),
        final(targets)@.len() > 0,
{
    let ghost before = views(targets@);
    proof { lemma_sorted_insert_props(before, t@); }
    insert_sorted_unique(targets, dup(t));
    assert forall|k: int| 0 <= k < targets@.len() implies known_target(ctx, name, #[trigger] views(targets@)[k]) by {
        let v = views(targets@)[k];
        assert(sorted_insert(before, t@).to_set().contains(v));
        if v != t@ {
            assert(before.to_set().contains(v));
            let j = choose|j: int| 0 <= j < before.len() && before[j] == v;
            assert(known_target(ctx, name, before[j]));
        }
    }
    assert(sorted_insert(before, t@).to_set().contains(t@));
}

/// Whether either path lies inside the other.
fn nested(a: &str, b: &str) -> (r: bool)
    ensures
        r == (path_has_prefix(a@, b@) || path_has_prefix(b@, a@)),
        r == nested_paths(a@, b@),
{
    path_starts_with(a, b) || path_starts_with(b, a)
}

/// The path's canonical form from the table, if it has one.
fn canonical_entry<'b>(table: &'b [(String, String)], p: &str) -> (r: Option<&'b String>)
    ensures
        match r { Some(v) => Some(v@), None => None } == assoc_get(str_pairs(table@), p@),
{
    assert(str_pairs(table@) == crate::analyzer::dependency_classifier::pair_views(table@));
    assoc_lookup(table, p)
}

/// The workspaces a dependency points to, other than the current one, in
/// sorted order. Its path (made absolute against the workspace root for a
/// workspace dependency, else the crate) is looked up as a crate path,
/// canonical first; failing that, it is matched against the paths of crates
/// of the same name, then against every crate path; failing that, or
/// without a path, the only workspace with a crate of that name is taken.
pub fn resolve_dependency_targets(dep: &Dependency, ctx: &DependencyLookupContext) -> (r: Vec<String>)
    ensures
        resolution_ok(ctx.tables(), dep@, ctx.current_workspace_path@, views(r@)),
        views(r@) == resolved_targets(ctx.tables(), dep@, ctx.current_workspace_path@, ctx.from_crate_path@),
{
    let ghost tab = ctx.tables();
    let ghost name = dep.name@;
    if dep.path.is_none() {
        return fallback_of(ctx, dep);
    }
    let mut targets: Vec<String> = Vec::new();
    assert(views(targets@) =~= Seq::<Seq<char>>::empty());
    let ghost mut absolute_v: Seq<char> = Seq::empty();
    let ghost mut cp: Seq<char> = Seq::empty();
    match &dep.path {
        Some(dep_path) => {
            let base = if dep.is_workspace { ctx.current_workspace_path } else { ctx.from_crate_path };
            let absolute = if path_is_absolute(dep_path.as_str()) { dup(dep_path) } else { path_join(base.as_str(), dep_path.as_str()) };
            let canonical = match canonical_entry(ctx.canonical_paths, absolute.as_str()) {
                Some(c) => dup(c),
                None => dup(&absolute),
            };
            proof {
                absolute_v = absolute@;
                cp = canonical@;
                assert(cp == canon_in(tab, absolute_v));
            }
            assert(str_pairs(ctx.crate_path_to_workspace@) == crate::analyzer::dependency_classifier::pair_views(ctx.crate_path_to_workspace@));
            match assoc_lookup(ctx.crate_path_to_workspace, canonical.as_str()) {
                Some(ws) => {
                    proof { lemma_assoc_get_in(tab.1, canonical@); }
                    add_target(&mut targets, ws, Ghost(tab), Ghost(name));
                },
                None => {
                    match assoc_lookup(ctx.crate_path_to_workspace, absolute.as_str()) {
                        Some(ws) => {
                            proof { lemma_assoc_get_in(tab.1, absolute@); }
                            add_target(&mut targets, ws, Ghost(tab), Ghost(name));
                        },
                        None => {},
                    }
                },
            }
            let ghost s1 = views(targets@);
            if targets.len() == 0 {
                match list_lookup(ctx.crate_to_paths, dep.name.as_str()) {
                    Some(candidates) => {
                        let ghost cv = views(candidates@);
                        assert(views(targets@) =~= candidate_targets(tab, cp, cv, 0));
                        for c in 0..candidates.len()
                            invariant
                                tab == ctx.tables(),
                                name == dep.name@,
                                cp == canonical@,
                                cv == views(candidates@),
                                strictly_sorted(views(targets@)),
                                forall|k: int| 0 <= k < targets@.len() ==> known_target(tab, name, #[trigger] views(targets@)[k]),
                                str_pairs(ctx.crate_path_to_workspace@) == crate::analyzer::dependency_classifier::pair_views(ctx.crate_path_to_workspace@),
                                list_get(tab.2, name) == Some(cv),
                                views(targets@) == candidate_targets(tab, cp, cv, c as nat),
                        {
                            let candidate = &candidates[c];
                            assert(cv[c as int] == candidate@);
                            let mut done = false;
                            if nested(canonical.as_str(), candidate.as_str()) {
                                match assoc_lookup(ctx.crate_path_to_workspace, candidate.as_str()) {
                                    Some(ws) => {
                                        proof { lemma_assoc_get_in(tab.1, candidate@); }
                                        add_target(&mut targets, ws, Ghost(tab), Ghost(name));
                                        done = true;
                                    },
                                    None => {},
                                }
                            }
                            if !done {
                                match canonical_entry(ctx.canonical_paths, candidate.as_str()) {
                                    Some(cc) => {
                                        if nested(canonical.as_str(), cc.as_str()) {
                                            match assoc_lookup(ctx.crate_path_to_workspace, cc.as_str()) {
                                                Some(ws) => {
                                                    proof { lemma_assoc_get_in(tab.1, cc@); }
                                                    add_target(&mut targets, ws, Ghost(tab), Ghost(name));
                                                },
                                                None => {},
                                            }
                                        }
                                    },
                                    None => {},
                                }
                            }
                            assert(views(targets@) == candidate_targets(tab, cp, cv, (c + 1) as nat));
                        }
                    },
                    None => {},
                }
            }
            let ghost s2 = views(targets@);
            if targets.len() == 0 {
                let table = ctx.crate_path_to_workspace;
                assert(views(targets@) =~= table_targets(tab, cp, 0));
                for i in 0..table.len()
                    invariant
                        tab == ctx.tables(),
                        table@ == ctx.crate_path_to_workspace@,
                        name == dep.name@,
                        cp == canonical@,
                        strictly_sorted(views(targets@)),
                        forall|k: int| 0 <= k < targets@.len() ==> known_target(tab, name, #[trigger] views(targets@)[k]),
                        views(targets@) == table_targets(tab, cp, i as nat),
                {
                    assert(tab.1[i as int] == (table@[i as int].0@, table@[i as int].1@));
                    if nested(canonical.as_str(), table[i].0.as_str()) {
                        add_target(&mut targets, &table[i].1, Ghost(tab), Ghost(name));
                    }
                }
                assert(tab.1.len() == table@.len());
            }
            assert(views(targets@) == path_targets(tab, name, cp, absolute_v));
        },
        None => {},
    }
    let ghost s3 = views(targets@);
    if targets.len() == 0 {
        match list_lookup(ctx.crate_to_workspaces, dep.name.as_str()) {
            Some(set) => {
                if set.len() == 1 {
                    assert(views(set@).contains(set@[0]@)) by {
                        assert(views(set@)[0] == set@[0]@);
                    }
                    add_target(&mut targets, &set[0], Ghost(tab), Ghost(name));
                }
            },
            None => {},
        }
    }
    let ghost all = views(targets@);
    let ghost cur = ctx.current_workspace_path@;
    let mut out: Vec<String> = Vec::new();
    for k in 0..targets.len()
        invariant
            all == views(targets@),
            cur == ctx.current_workspace_path@,
            strictly_sorted(all),
            forall|q: int| 0 <= q < targets@.len() ==> known_target(tab, name, #[trigger] views(targets@)[q]),
            strictly_sorted(views(out@)),
            forall|q: int| 0 <= q < out@.len() ==> #[trigger] views(out@)[q] != ctx.current_workspace_path@
                && known_target(tab, name, views(out@)[q]),
            forall|q: int, j: int| 0 <= q < out@.len() && k <= j < all.len() ==>
                crate::text::seq_lt(#[trigger] views(out@)[q], #[trigger] all[j]),
            views(out@) == without(all, cur, k as nat),
    {
        assert(all[k as int] == targets@[k as int]@);
        if !str_eq(targets[k].as_str(), ctx.current_workspace_path.as_str()) {
            let ghost before = views(out@);
            out.push(dup(&targets[k]));
            assert(views(out@) =~= before.push(all[k as int]));
            assert forall|q: int, j: int| 0 <= q < out@.len() && k + 1 <= j < all.len() implies
                crate::text::seq_lt(#[trigger] views(out@)[q], #[trigger] all[j]) by {
                if q < before.len() {
                    assert(views(out@)[q] == before[q]);
                    assert(crate::text::seq_lt(before[q], all[j]));
                } else {
                    assert(views(out@)[q] == all[k as int]);
                }
            }
        }
    }
    assert(views(out@) == resolved_targets(tab, dep@, cur, ctx.from_crate_path@));
    out
}

/// The fallback workspace of a dependency.
fn fallback_of(ctx: &DependencyLookupContext, dep: &Dependency) -> (r: Vec<String>)
    ensures
        resolution_ok(ctx.tables(), (dep@.0, None, dep@.2, dep@.3), ctx.current_workspace_path@, views(r@)),
        views(r@) == fallback_targets(ctx.tables(), dep@.0, ctx.current_workspace_path@),
{
    let mut out: Vec<String> = Vec::new();
    match list_lookup(ctx.crate_to_workspaces, dep.name.as_str()) {
        Some(set) => {
            if set.len() == 1 && !str_eq(set[0].as_str(), ctx.current_workspace_path.as_str()) {
                assert(views(set@)[0] == set@[0]@);
                out.push(dup(&set[0]));
                assert(views(out@) =~= seq![set@[0]@]);
                assert(views(set@).contains(set@[0]@));
            }
        },
        None => {},
    }
    assert(views(out@) =~= fallback_targets(ctx.tables(), dep@.0, ctx.current_workspace_path@));
    out
}

/// The workspace-level nodes: each workspace's name with its crate names.
pub open spec fn cross_nodes(ws: Seq<(String, WorkspaceInfo)>) -> Seq<(Seq<char>, Seq<Seq<char>>)> {
    ws.map_values(|e: (String, WorkspaceInfo)| (e.1.name@, e.1.members@.map_values(|m: CrateMember| m.name@)))
}

/// A job as positions: workspace, member, the dependency (target replaced
/// for target groups), and the edge type.
pub type JobExec = (usize, usize, Dependency, DependencyType);

/// The view of a job.
pub open spec fn job_view(ws: Seq<(String, WorkspaceInfo)>, j: JobExec) -> Job {
    let m = ws[j.0 as int].1.members@[j.1 as int];
    (j.0 as int, m.name@, j.2@, j.3, ws[j.0 as int].0@, m.path@)
}

/// The views of a list of jobs.
pub open spec fn job_views(ws: Seq<(String, WorkspaceInfo)>, v: Seq<JobExec>) -> Seq<Job> {
    v.map_values(|j: JobExec| job_view(ws, j))
}

/// A job is well placed in the workspaces.
pub open spec fn job_ok(ws: Seq<(String, WorkspaceInfo)>, j: JobExec) -> bool {
    j.0 < ws.len() && j.1 < ws[j.0 as int].1.members@.len()
}

proof fn lemma_dep_jobs_step(i: int, m: CrateMember, ws_path: Seq<char>, deps: Seq<Dependency>, ty: DependencyType,
    target: Option<Seq<char>>, filter: DependencyFilter, n: nat)
    requires
        n < deps.len(),
    ensures
        dep_jobs(i, m, ws_path, deps, ty, target, filter, n + 1) == {
            let d = with_target_view(deps[n as int]@, target);
            let prev = dep_jobs(i, m, ws_path, deps, ty, target, filter, n);
            if d.3 is Some && filter.excludes_target() { prev } else { prev.push((i, m.name@, d, ty, ws_path, m.path@)) }
        },
{
}

impl DependencyGraphBuilder {
    fn collect_dep_jobs(jobs: &mut Vec<JobExec>, workspaces: &[(String, WorkspaceInfo)], wi: usize, mi: usize,
        deps: &[Dependency], ty: DependencyType, target: Option<&String>, filter: &DependencyFilter)
        requires
            wi < workspaces@.len(),
            mi < workspaces@[wi as int].1.members@.len(),
            forall|k: int| 0 <= k < old(jobs)@.len() ==> job_ok(workspaces@, #[trigger] old(jobs)@[k]),
        ensures
            forall|k: int| 0 <= k < final(jobs)@.len() ==> job_ok(workspaces@, #[trigger] final(jobs)@[k]),
            job_views(workspaces@, final(jobs)@) == job_views(workspaces@, old(jobs)@) + dep_jobs(wi as int,
                workspaces@[wi as int].1.members@[mi as int], workspaces@[wi as int].0@, deps@, ty,
                match target { Some(t) => Some(t@), None => None }, *filter, deps@.len()),
    {
        let ghost tv = match target { Some(t) => Some(t@), None => None };
        let ghost m = workspaces@[wi as int].1.members@[mi as int];
        let ghost start = job_views(workspaces@, jobs@);
        for j in 0..deps.len()
            invariant
                tv == match target { Some(t) => Some(t@), None => None },
                m == workspaces@[wi as int].1.members@[mi as int],
                wi < workspaces@.len(),
                mi < workspaces@[wi as int].1.members@.len(),
                forall|k: int| 0 <= k < jobs@.len() ==> job_ok(workspaces@, #[trigger] jobs@[k]),
                job_views(workspaces@, jobs@) == start + dep_jobs(wi as int, m, workspaces@[wi as int].0@, deps@, ty, tv, *filter, j as nat),
        {
            proof { lemma_dep_jobs_step(wi as int, m, workspaces@[wi as int].0@, deps@, ty, tv, *filter, j as nat); }
            let d = &deps[j];
            let dep = Dependency {
                name: dup(&d.name),
                path: match &d.path { Some(p) => Some(dup(p)), None => None },
                is_workspace: d.is_workspace,
                target: target_or(target, d),
            };
            proof {
                match target {
                    Some(t) => { assert(tv == Some(t@)); },
                    None => { assert(tv is None); },
                }
            }
            assert(dep@ == with_target_view(deps@[j as int]@, tv));
            if filter.should_include_dependency(&dep) {
                let ghost before = jobs@;
                let job = (wi, mi, dep, ty);
                jobs.push(job);
                assert(jobs@ == before.push(job));
                assert(job_views(workspaces@, jobs@) =~= job_views(workspaces@, before).push(job_view(workspaces@, job)));
            }
        }
    }

    fn collect_member_jobs(jobs: &mut Vec<JobExec>, workspaces: &[(String, WorkspaceInfo)], wi: usize, mi: usize,
        filter: &DependencyFilter)
        requires
            wi < workspaces@.len(),
            mi < workspaces@[wi as int].1.members@.len(),
            forall|k: int| 0 <= k < old(jobs)@.len() ==> job_ok(workspaces@, #[trigger] old(jobs)@[k]),
        ensures
            forall|k: int| 0 <= k < final(jobs)@.len() ==> job_ok(workspaces@, #[trigger] final(jobs)@[k]),
            job_views(workspaces@, final(jobs)@) == job_views(workspaces@, old(jobs)@) + member_jobs(wi as int,
                workspaces@[wi as int].1.members@[mi as int], workspaces@[wi as int].0@, *filter),
    {
        let ghost start = job_views(workspaces@, jobs@);
        let m = &workspaces[wi].1.members[mi];
        let ghost path = workspaces@[wi as int].0@;
        Self::collect_dep_jobs(jobs, workspaces, wi, mi, m.dependencies.as_slice(), DependencyType::Normal, None, filter);
        let ghost s1 = job_views(workspaces@, jobs@);
        if filter.include_dev() {
            Self::collect_dep_jobs(jobs, workspaces, wi, mi, m.dev_dependencies.as_slice(), DependencyType::Dev, None, filter);
        }
        let ghost s2 = job_views(workspaces@, jobs@);
        if filter.include_build() {
            Self::collect_dep_jobs(jobs, workspaces, wi, mi, m.build_dependencies.as_slice(), DependencyType::Build, None, filter);
        }
        let ghost s3 = job_views(workspaces@, jobs@);
        if filter.include_target() {
            let groups = m.target_dependencies.as_slice();
            for g in 0..groups.len()
                invariant
                    wi < workspaces@.len(),
                    mi < workspaces@[wi as int].1.members@.len(),
                    *m == workspaces@[wi as int].1.members@[mi as int],
                    groups@ == m.target_dependencies@,
                    path == workspaces@[wi as int].0@,
                    forall|k: int| 0 <= k < jobs@.len() ==> job_ok(workspaces@, #[trigger] jobs@[k]),
                    job_views(workspaces@, jobs@) == s3 + target_jobs(wi as int, *m, path, *filter, g as nat),
            {
                Self::collect_dep_jobs(jobs, workspaces, wi, mi, groups[g].1.as_slice(), DependencyType::Normal, Some(&groups[g].0), filter);
            }
        }
        assert(job_views(workspaces@, jobs@) =~= start + member_jobs(wi as int, *m, path, *filter));
    }

    /// The jobs of every crate of every workspace, in order.
    pub fn collect_jobs(workspaces: &[(String, WorkspaceInfo)], filter: &DependencyFilter) -> (r: Vec<JobExec>)
        ensures
            forall|k: int| 0 <= k < r@.len() ==> job_ok(workspaces@, #[trigger] r@[k]),
            job_views(workspaces@, r@) == cross_jobs(workspaces@, *filter, flat_members(workspaces@).len()),
    {
        let fl = flatten_members(workspaces);
        let ghost flat = flat_members(workspaces@);
        let mut jobs: Vec<JobExec> = Vec::new();
        assert(job_views(workspaces@, jobs@) =~= Seq::<Job>::empty());
        for k in 0..fl.len()
            invariant
                fl@.len() == flat.len(),
                flat == flat_members(workspaces@),
                forall|q: int| #![trigger fl@[q]] 0 <= q < fl@.len() ==> fl@[q].0 < workspaces@.len()
                    && fl@[q].1 < workspaces@[fl@[q].0 as int].1.members@.len()
                    && flat[q] == (fl@[q].0 as int, workspaces@[fl@[q].0 as int].1.members@[fl@[q].1 as int]),
                forall|q: int| 0 <= q < jobs@.len() ==> job_ok(workspaces@, #[trigger] jobs@[q]),
                job_views(workspaces@, jobs@) == cross_jobs(workspaces@, *filter, k as nat),
        {
            let (wi, mi) = fl[k];
            Self::collect_member_jobs(&mut jobs, workspaces, wi, mi, filter);
        }
        jobs
    }
}

proof fn lemma_cross_edges_ext(ws: Seq<(String, WorkspaceInfo)>, jobs: Seq<Job>, r1: Seq<Seq<Seq<char>>>, r2: Seq<Seq<Seq<char>>>, n: nat)
    requires
        forall|i: int| 0 <= i < n ==> r1[i] == r2[i],
    ensures
        cross_edges(ws, jobs, r1, n) == cross_edges(ws, jobs, r2, n),
    decreases n,
{
    if n > 0 {
        lemma_cross_edges_ext(ws, jobs, r1, r2, (n - 1) as nat);
    }
}

proof fn lemma_job_edges_grow(ws: Seq<(String, WorkspaceInfo)>, job: Job, targets: Seq<Seq<char>>, a: nat, b: nat)
    requires
        a <= b,
    ensures
        job_edges(ws, job, targets, a).len() <= job_edges(ws, job, targets, b).len(),
    decreases b,
{
    if a < b {
        lemma_job_edges_grow(ws, job, targets, a, (b - 1) as nat);
    }
}

/// Whether building the workspace graph on top of `old_count` edges runs
/// out of edge indices: the resolutions of some first jobs yield edges that
/// reach the index limit.
pub open spec fn cross_overflow(ws: Seq<(String, WorkspaceInfo)>, filter: DependencyFilter, tab: LookupView, old_count: int) -> bool {
    let jobs = cross_jobs(ws, filter, flat_members(ws).len());
    exists|res: Seq<Seq<Seq<char>>>| #[trigger] cross_edges(ws, jobs, res, res.len()).len() + old_count >= index_limit()
        && res.len() <= jobs.len()
        && forall|k: int| 0 <= k < res.len() ==> resolution_ok(tab, jobs[k].2, jobs[k].4, #[trigger] res[k])
            && res[k] == resolved_targets(tab, jobs[k].2, jobs[k].4, jobs[k].5)
}

/// The position of the last workspace at `path`.
fn last_ws(workspaces: &[(String, WorkspaceInfo)], path: &str) -> (r: Option<usize>)
    ensures
        match r {
            Some(i) => i as int == ws_index(workspaces@, path@, workspaces@.len()) && i < workspaces@.len(),
            None => ws_index(workspaces@, path@, workspaces@.len()) < 0,
        },
{
    let mut k: usize = workspaces.len();
    while k > 0
        invariant
            k <= workspaces@.len(),
            ws_index(workspaces@, path@, workspaces@.len()) == ws_index(workspaces@, path@, k as nat),
        decreases k,
    {
        if str_eq(workspaces[k - 1].0.as_str(), path) {
            return Some(k - 1);
        }
        k = k - 1;
    }
    None
}

proof fn lemma_ws_index_at_least(ws: Seq<(String, WorkspaceInfo)>, path: Seq<char>, j: int, n: nat)
    requires
        0 <= j < n <= ws.len(),
        ws[j].0@ == path,
    ensures
        j <= ws_index(ws, path, n) < n,
    decreases n,
{
    if n - 1 != j {
        lemma_ws_index_at_least(ws, path, j, (n - 1) as nat);
    }
}

impl DependencyGraphBuilder {
    fn push_job_edges(&mut self, workspaces: &[(String, WorkspaceInfo)], job: &JobExec, targets: &Vec<String>,
        from: usize, off: usize) -> (r: Result<(), FerrisWheelError>)
        requires
            job_ok(workspaces@, *job),
            from as int == ws_index(workspaces@, workspaces@[job.0 as int].0@, workspaces@.len()),
            from < workspaces@.len(),
            off + workspaces@.len() == graph_nodes(old(self).graph_spec()).len(),
            off + workspaces@.len() <= index_limit(),
        ensures
            graph_nodes(final(self).graph_spec()) == graph_nodes(old(self).graph_spec()),
            final(self).filter_spec() == old(self).filter_spec(),
            r is Ok ==> edge_list(final(self).graph_spec()) == edge_list(old(self).graph_spec()) + shifted(job_edges(workspaces@,
                job_view(workspaces@, *job), views(targets@), targets@.len()), off as int),
            r matches Err(e) ==> e is GraphError && graph_edges(final(self).graph_spec()).len() == index_limit(),
            r is Err ==> index_limit() <= graph_edges(old(self).graph_spec()).len() + job_edges(workspaces@,
                job_view(workspaces@, *job), views(targets@), targets@.len()).len(),
    {
        let ghost jv = job_view(workspaces@, *job);
        let ghost tv = views(targets@);
        let m = &workspaces[job.0].1.members[job.1];
        for t in 0..targets.len()
            invariant
                jv == job_view(workspaces@, *job),
                tv == views(targets@),
                job_ok(workspaces@, *job),
                *m == workspaces@[job.0 as int].1.members@[job.1 as int],
                from as int == ws_index(workspaces@, workspaces@[job.0 as int].0@, workspaces@.len()),
                from < workspaces@.len(),
                off + workspaces@.len() == graph_nodes(self.graph).len(),
                off + workspaces@.len() <= index_limit(),
                graph_nodes(self.graph) == graph_nodes(old(self).graph_spec()),
                self.filter == old(self).filter_spec(),
                edge_list(self.graph) == edge_list(old(self).graph_spec()) + shifted(job_edges(workspaces@, jv, tv, t as nat), off as int),
        {
            match last_ws(workspaces, targets[t].as_str()) {
                Some(to) => {
                    if to != from {
                        if edge_count(&self.graph) >= 0xFFFF_FFFF {
                            proof {
                                lemma_job_edges_grow(workspaces@, jv, tv, t as nat, targets@.len());
                                assert(edge_list(self.graph).len() == graph_edges(self.graph).len());
                                assert(edge_list(old(self).graph_spec()).len() == graph_edges(old(self).graph_spec()).len());
                            }
                            return Err(FerrisWheelError::GraphError { message: crate::text::to_owned("Too many edges in the dependency graph") });
                        }
                        let edge = DependencyEdge {
                            from_crate: dup(&m.name),
                            to_crate: dup(&job.2.name),
                            dependency_type: job.3,
                            target: match &job.2.target { Some(x) => Some(dup(x)), None => None },
                        };
                        let ghost before = edge_list(self.graph);
                        assert(dep_edge_view(edge) == (jv.1, jv.2.0, jv.3, jv.2.3));
                        add_edge(&mut self.graph, off + from, off + to, edge);
                        assert(edge_list(self.graph) =~= before.push(((off + from) as int, (off + to) as int, dep_edge_view(edge))));
                        assert(tv[t as int] == targets@[t as int]@);
                        assert(shifted(job_edges(workspaces@, jv, tv, (t + 1) as nat), off as int) =~=
                            shifted(job_edges(workspaces@, jv, tv, t as nat), off as int).push(((off + from) as int, (off + to) as int, dep_edge_view(edge))));
                    } else {
                        assert(tv[t as int] == targets@[t as int]@);
                        assert(job_edges(workspaces@, jv, tv, (t + 1) as nat) == job_edges(workspaces@, jv, tv, t as nat));
                    }
                },
                None => {
                    assert(tv[t as int] == targets@[t as int]@);
                    assert(job_edges(workspaces@, jv, tv, (t + 1) as nat) == job_edges(workspaces@, jv, tv, t as nat));
                },
            }
        }
        assert(tv.len() == targets@.len());
        Ok(())
    }

    /// Builds a graph of the workspaces: one node per workspace, and an edge
    /// from a crate's workspace to each other workspace that one of its
    /// included dependencies resolves to. New nodes and edges come after
    /// existing ones; `canonical_paths` gives the canonical form of the
    /// paths that have one.
    pub fn build_cross_workspace_graph(&mut self, workspaces: &[(String, WorkspaceInfo)],
        crate_to_workspaces: &[(String, Vec<String>)], crate_path_to_workspace: &[(String, String)],
        crate_to_paths: &[(String, Vec<String>)], canonical_paths: &[(String, String)]) -> (r: Result<(), FerrisWheelError>)
        requires
            graph_nodes(old(self).graph_spec()).len() + workspaces@.len() < index_limit(),
        ensures
            final(self).filter_spec() == old(self).filter_spec(),
            node_list(final(self).graph_spec()) == node_list(old(self).graph_spec()) + cross_nodes(workspaces@),
            r is Ok ==> exists|res: Seq<Seq<Seq<char>>>| #[trigger] cross_result(workspaces@, old(self).filter_spec(),
                (list_views(crate_to_workspaces@), str_pairs(crate_path_to_workspace@), list_views(crate_to_paths@),
                    str_pairs(canonical_paths@)),
                edge_list(old(self).graph_spec()), graph_nodes(old(self).graph_spec()).len() as int,
                edge_list(final(self).graph_spec()), res),
            r matches Err(e) ==> e is GraphError && graph_edges(final(self).graph_spec()).len() == index_limit(),
            r is Err ==> cross_overflow(workspaces@, old(self).filter_spec(),
                (list_views(crate_to_workspaces@), str_pairs(crate_path_to_workspace@), list_views(crate_to_paths@),
                    str_pairs(canonical_paths@)), graph_edges(old(self).graph_spec()).len() as int),
    {
        let off = node_count(&self.graph);
        let ghost nodes0 = node_list(self.graph);
        for i in 0..workspaces.len()
            invariant
                off == nodes0.len(),
                nodes0 == node_list(old(self).graph_spec()),
                graph_nodes(old(self).graph_spec()).len() + workspaces@.len() < index_limit(),
                node_list(self.graph) == nodes0 + cross_nodes(workspaces@).take(i as int),
                graph_edges(self.graph) == graph_edges(old(self).graph_spec()),
                self.filter == old(self).filter_spec(),
        {
            let info = &workspaces[i].1;
            let mut crates: Vec<String> = Vec::new();
            for j in 0..info.members.len()
                invariant
                    crates@.len() == j,
                    forall|q: int| 0 <= q < j ==> (#[trigger] crates@[q])@ == info.members@[q].name@,
            {
                crates.push(dup(&info.members[j].name));
            }
            let node = WorkspaceNode { name: dup(&info.name), crates };
            assert(views(node.crates@) =~= info.members@.map_values(|m: CrateMember| m.name@));
            let ghost before = node_list(self.graph);
            assert(graph_nodes(self.graph).len() == before.len());
            assert(cross_nodes(workspaces@).take(i as int).len() == i);
            add_node(&mut self.graph, node);
            assert(node_list(self.graph) =~= before.push(node_view(node)));
            assert(cross_nodes(workspaces@).take(i + 1) =~= cross_nodes(workspaces@).take(i as int).push(node_view(node)));
        }
        assert(cross_nodes(workspaces@).take(workspaces.len() as int) =~= cross_nodes(workspaces@));
        assert(graph_nodes(self.graph).len() == node_list(self.graph).len());
        let jobs = Self::collect_jobs(workspaces, &self.filter);
        let ghost jv = job_views(workspaces@, jobs@);
        let ghost tab = (list_views(crate_to_workspaces@), str_pairs(crate_path_to_workspace@),
            list_views(crate_to_paths@), str_pairs(canonical_paths@));
        let ghost edges0 = edge_list(self.graph);
        let ghost mut res: Seq<Seq<Seq<char>>> = Seq::empty();
        for k in 0..jobs.len()
            invariant
                jv == job_views(workspaces@, jobs@),
                jv == cross_jobs(workspaces@, self.filter, flat_members(workspaces@).len()),
                forall|q: int| 0 <= q < jobs@.len() ==> job_ok(workspaces@, #[trigger] jobs@[q]),
                tab == (list_views(crate_to_workspaces@), str_pairs(crate_path_to_workspace@),
                    list_views(crate_to_paths@), str_pairs(canonical_paths@)),
                off + workspaces@.len() == graph_nodes(self.graph).len(),
                off + workspaces@.len() <= index_limit(),
                off == graph_nodes(old(self).graph_spec()).len(),
                node_list(self.graph) == node_list(old(self).graph_spec()) + cross_nodes(workspaces@),
                self.filter == old(self).filter_spec(),
                edges0 == edge_list(old(self).graph_spec()),
                res.len() == k,
                forall|q: int| 0 <= q < k ==> resolution_ok(tab, jv[q].2, jv[q].4, #[trigger] res[q])
                    && res[q] == resolved_targets(tab, jv[q].2, jv[q].4, jv[q].5),
                edge_list(self.graph) == edges0 + shifted(cross_edges(workspaces@, jv, res, k as nat), off as int),
        {
            let job = &jobs[k];
            assert(job_ok(workspaces@, *job));
            let ws_path = &workspaces[job.0].0;
            let member = &workspaces[job.0].1.members[job.1];
            let ctx = DependencyLookupContext {
                crate_to_workspaces,
                crate_path_to_workspace,
                crate_to_paths,
                canonical_paths,
                current_workspace_path: ws_path,
                from_crate_path: &member.path,
            };
            let targets = resolve_dependency_targets(&job.2, &ctx);
            proof { lemma_ws_index_at_least(workspaces@, ws_path@, job.0 as int, workspaces@.len()); }
            let from = match last_ws(workspaces, ws_path.as_str()) {
                Some(f) => f,
                None => { return Ok(()); },
            };
            assert(jv[k as int] == job_view(workspaces@, *job));
            let ghost before = edge_list(self.graph);
            let step = self.push_job_edges(workspaces, job, &targets, from, off);
            let ghost new_res = res.push(views(targets@));
            proof {
                lemma_cross_edges_ext(workspaces@, jv, res, new_res, k as nat);
            }
            match step {
                Ok(()) => {},
                Err(e) => {
                    proof {
                        assert(before.len() == edges0.len() + cross_edges(workspaces@, jv, res, k as nat).len());
                        assert(edges0.len() == graph_edges(old(self).graph_spec()).len());
                        assert(cross_edges(workspaces@, jv, new_res, new_res.len()) == cross_edges(workspaces@, jv, new_res, k as nat)
                            + job_edges(workspaces@, jv[k as int], new_res[k as int], new_res[k as int].len()));
                        assert(resolution_ok(tab, jv[k as int].2, jv[k as int].4, new_res[k as int]));
                        assert(new_res[k as int] == resolved_targets(tab, jv[k as int].2, jv[k as int].4, jv[k as int].5));
                        assert(forall|q: int| 0 <= q < new_res.len() ==> resolution_ok(tab, jv[q].2, jv[q].4, #[trigger] new_res[q])
                            && new_res[q] == resolved_targets(tab, jv[q].2, jv[q].4, jv[q].5)
                            ) by {
                            assert forall|q: int| 0 <= q < new_res.len() implies resolution_ok(tab, jv[q].2, jv[q].4, #[trigger] new_res[q])
                                && new_res[q] == resolved_targets(tab, jv[q].2, jv[q].4, jv[q].5)
                                by {
                                if q < k {
                                    assert(new_res[q] == res[q]);
                                }
                            }
                        }
                        assert(cross_edges(workspaces@, jv, new_res, new_res.len()).len() + edges0.len() >= index_limit());
                    }
                    return Err(e);
                },
            }
            proof {
                res = new_res;
                assert(cross_edges(workspaces@, jv, res, (k + 1) as nat) == cross_edges(workspaces@, jv, res, k as nat)
                    + job_edges(workspaces@, jv[k as int], res[k as int], res[k as int].len()));
                assert(shifted(cross_edges(workspaces@, jv, res, (k + 1) as nat), off as int) =~=
                    shifted(cross_edges(workspaces@, jv, res, k as nat), off as int)
                    + shifted(job_edges(workspaces@, jv[k as int], res[k as int], res[k as int].len()), off as int));
            }
        }
        assert(res.len() == jv.len());
        assert(cross_result(workspaces@, old(self).filter_spec(), tab, edges0, off as int, edge_list(self.graph), res));
        Ok(())
    }
}

/// The edges after building the workspace graph are the old edges followed
/// by those of each job, given the resolution of each job's dependency
/// (`resolved_targets`, the one `resolve_dependency_targets` computes).
pub open spec fn cross_result(ws: Seq<(String, WorkspaceInfo)>, filter: DependencyFilter, tab: LookupView,
    old_edges: Seq<GraphEdgeView>, off: int, new_edges: Seq<GraphEdgeView>, res: Seq<Seq<Seq<char>>>) -> bool
{
    let jobs = cross_jobs(ws, filter, flat_members(ws).len());
    &&& res.len() == jobs.len()
    &&& forall|k: int| 0 <= k < jobs.len() ==> resolution_ok(tab, jobs[k].2, jobs[k].4, #[trigger] res[k])
        && res[k] == resolved_targets(tab, jobs[k].2, jobs[k].4, jobs[k].5)
    &&& new_edges == old_edges + shifted(cross_edges(ws, jobs, res, jobs.len()), off)
}

} // verus!
