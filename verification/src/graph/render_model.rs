//! What the renderers read from a graph and its cycles: which workspaces and
//! which pairs of workspaces take part in a cycle, the identifiers each output
//! format gives a workspace, how severe a cycle is, and the edges of the graph
//! grouped by source, target and dependency type.

use petgraph::graph::DiGraph;
use vstd::prelude::*;

use crate::detector::cycle::{CycleView, EdgeView, WorkspaceCycle};
use crate::graph::petgraph_api::{edge_count, edge_endpoints, edge_weight, graph_edges, graph_nodes, node_count, node_weight};
use crate::graph::types::{DependencyEdge, DependencyType, WorkspaceNode};
use crate::text::{
    contains_str, dup, dup_all, insert_sorted_unique, lemma_sorted_set_props, push_char, push_str,
    seq_contains_sub, sorted_set, str_contains, str_eq, strictly_sorted, to_owned, views,
};

verus! {

/// The workspace names of each cycle.
pub open spec fn cycle_names(cycles: Seq<WorkspaceCycle>) -> Seq<Seq<Seq<char>>> {
    cycles.map_values(|c: WorkspaceCycle| c@.0)
}

/// The views of a list of name lists.
pub open spec fn nested_views(v: Seq<Vec<String>>) -> Seq<Seq<Seq<char>>> {
    v.map_values(|n: Vec<String>| views(n@))
}

/// Some cycle holds the workspace `name`.
pub open spec fn name_in_cycles(cn: Seq<Seq<Seq<char>>>, name: Seq<char>) -> bool {
    exists|i: int| 0 <= i < cn.len() && (#[trigger] cn[i]).contains(name)
}

/// Some cycle holds both `from` and `to`.
pub open spec fn pair_in_cycles(cn: Seq<Seq<Seq<char>>>, from: Seq<char>, to: Seq<char>) -> bool {
    exists|i: int| 0 <= i < cn.len() && (#[trigger] cn[i]).contains(from) && cn[i].contains(to)
}

/// The workspace names of each cycle, as lists of strings.
pub fn cycle_name_lists(cycles: &[WorkspaceCycle]) -> (r: Vec<Vec<String>>)
    ensures
        nested_views(r@) == cycle_names(cycles@),
{
    let mut r: Vec<Vec<String>> = Vec::new();
    for i in 0..cycles.len()
        invariant
            r@.len() == i,
            nested_views(r@) == cycle_names(cycles@).take(i as int),
    {
        let names = dup_all(cycles[i].workspace_names());
        let ghost before = r@;
        r.push(names);
        assert(r@ == before.push(names));
        assert(nested_views(r@) =~= cycle_names(cycles@).take(i + 1)) by {
            assert(nested_views(r@)[i as int] == views(names@));
        }
    }
    assert(cycle_names(cycles@).take(cycles.len() as int) =~= cycle_names(cycles@));
    r
}

/// Whether some cycle holds the workspace `name`.
pub fn in_any_cycle(cycles_ws_names: &[Vec<String>], name: &str) -> (r: bool)
    ensures
        r == name_in_cycles(nested_views(cycles_ws_names@), name@),
{
    let ghost cn = nested_views(cycles_ws_names@);
    let mut i: usize = 0;
    while i < cycles_ws_names.len()
        invariant
            cn == nested_views(cycles_ws_names@),
            i <= cycles_ws_names.len(),
            forall|k: int| 0 <= k < i ==> !(#[trigger] cn[k]).contains(name@),
        decreases cycles_ws_names.len() - i,
    {
        assert(cn[i as int] == views(cycles_ws_names@[i as int]@));
        if contains_str(cycles_ws_names[i].as_slice(), name) {
            return true;
        }
        i = i + 1;
    }
    false
}

/// Whether some cycle holds both `from` and `to`.
pub fn pair_in_any_cycle(cycles_ws_names: &[Vec<String>], from: &str, to: &str) -> (r: bool)
    ensures
        r == pair_in_cycles(nested_views(cycles_ws_names@), from@, to@),
{
    let ghost cn = nested_views(cycles_ws_names@);
    let mut i: usize = 0;
    while i < cycles_ws_names.len()
        invariant
            cn == nested_views(cycles_ws_names@),
            i <= cycles_ws_names.len(),
            forall|k: int| 0 <= k < i ==> !((#[trigger] cn[k]).contains(from@) && cn[k].contains(to@)),
        decreases cycles_ws_names.len() - i,
    {
        assert(cn[i as int] == views(cycles_ws_names@[i as int]@));
        if contains_str(cycles_ws_names[i].as_slice(), from) && contains_str(cycles_ws_names[i].as_slice(), to) {
            return true;
        }
        i = i + 1;
    }
    false
}

/// Whether `char::is_alphanumeric` holds of a character (Unicode's
/// Alphabetic or Numeric property).
pub uninterp spec fn char_is_alphanumeric(c: char) -> bool;

/// Calls `char::is_alphanumeric`.
#[verifier::external_body]
fn is_alphanumeric(c: char) -> (r: bool)
    ensures
        r == char_is_alphanumeric(c),
{
    c.is_alphanumeric()
}

/// A Mermaid identifier: every character that is not alphanumeric becomes `_`.
pub open spec fn mermaid_id_of(name: Seq<char>) -> Seq<char> {
    name.map_values(|c: char| if char_is_alphanumeric(c) { c } else { '_' })
}

/// The Mermaid identifier of a workspace name.
pub fn mermaid_id(name: &str) -> (r: String)
    ensures
        r@ == mermaid_id_of(name@),
{
    let n = name.unicode_len();
    let mut r = String::new();
    let mut i: usize = 0;
    while i < n
        invariant
            n == name@.len(),
            i <= n,
            r@ == mermaid_id_of(name@).take(i as int),
        decreases n - i,
    {
        let c = name.get_char(i);
        if is_alphanumeric(c) {
            push_char(&mut r, c);
        } else {
            push_char(&mut r, '_');
        }
        assert(mermaid_id_of(name@).take(i + 1) =~= mermaid_id_of(name@).take(i as int).push(
            mermaid_id_of(name@)[i as int]));
        i = i + 1;
    }
    assert(mermaid_id_of(name@).take(n as int) =~= mermaid_id_of(name@));
    r
}

/// A D2 identifier: the name in double quotes when it holds a space or a
/// hyphen, else the name itself.
pub open spec fn d2_id_of(name: Seq<char>) -> Seq<char> {
    if name.contains(' ') || name.contains('-') {
        seq!['"'] + name + seq!['"']
    } else {
        name
    }
}

/// The D2 identifier of a workspace name.
pub fn d2_id(name: &str) -> (r: String)
    ensures
        r@ == d2_id_of(name@),
{
    let n = name.unicode_len();
    let mut quote = false;
    let mut i: usize = 0;
    while i < n
        invariant
            n == name@.len(),
            i <= n,
            quote == (name@.take(i as int).contains(' ') || name@.take(i as int).contains('-')),
        decreases n - i,
    {
        let c = name.get_char(i);
        assert(name@.take(i + 1) =~= name@.take(i as int).push(c));
        if c == ' ' || c == '-' {
            assert(name@.take(i + 1)[i as int] == c);
            quote = true;
        }
        i = i + 1;
    }
    assert(name@.take(n as int) =~= name@);
    let mut r = String::new();
    if quote {
        push_char(&mut r, '"');
        push_str(&mut r, name);
        push_char(&mut r, '"');
        assert(r@ =~= d2_id_of(name@));
    } else {
        push_str(&mut r, name);
        assert(r@ =~= d2_id_of(name@));
    }
    r
}

/// How severe a cycle is.
#[derive(Debug, Clone, Copy, PartialEq, Eq, Structural)]
pub enum CycleSeverity {
    /// Two workspaces, mostly dev or build dependencies.
    Low,
    /// Three or four workspaces, or some normal dependencies.
    Medium,
    /// Five or more workspaces, or mostly normal dependencies.
    High,
}

/// The number of edges whose dependency type is `t`.
pub open spec fn count_type(edges: Seq<EdgeView>, t: Seq<char>) -> nat
    decreases edges.len(),
{
    if edges.len() == 0 {
        0
    } else {
        count_type(edges.drop_last(), t) + if edges.last().4 == t { 1nat } else { 0nat }
    }
}

/// The severity of a cycle: high with five or more workspaces or more normal
/// edges than dev and build edges together; medium with three or more
/// workspaces or any normal edge; low otherwise.
pub open spec fn severity_of(c: CycleView) -> CycleSeverity {
    let w = c.0.len();
    let n = count_type(c.1, "Normal"@);
    let d = count_type(c.1, "Dev"@);
    let b = count_type(c.1, "Build"@);
    if w >= 5 || n > d + b {
        CycleSeverity::High
    } else if w >= 3 || n > 0 {
        CycleSeverity::Medium
    } else {
        CycleSeverity::Low
    }
}

/// The severity of a cycle.
pub fn cycle_severity(cycle: &WorkspaceCycle) -> (r: CycleSeverity)
    ensures
        r == severity_of(cycle@),
{
    let workspace_count = cycle.workspace_names().len();
    let edges = cycle.edges();
    let ghost ev = cycle@.1;
    let mut normal_deps: usize = 0;
    let mut dev_deps: usize = 0;
    let mut build_deps: usize = 0;
    for i in 0..edges.len()
        invariant
            ev == cycle@.1,
            ev.len() == edges@.len(),
            forall|k: int| 0 <= k < edges@.len() ==> ev[k] == (#[trigger] edges@[k])@,
            normal_deps == count_type(ev.take(i as int), "Normal"@),
            dev_deps == count_type(ev.take(i as int), "Dev"@),
            build_deps == count_type(ev.take(i as int), "Build"@),
            normal_deps + dev_deps + build_deps <= i,
    {
        proof {
            reveal_strlit("Normal");
            reveal_strlit("Dev");
            reveal_strlit("Build");
            assert("Normal"@.len() != "Dev"@.len() && "Normal"@.len() != "Build"@.len()
                && "Dev"@.len() != "Build"@.len());
        }
        assert(ev.take(i + 1).drop_last() =~= ev.take(i as int));
        assert(ev.take(i + 1).last() == edges@[i as int]@);
        let t = edges[i].dependency_type();
        if str_eq(t, "Normal") {
            normal_deps = normal_deps + 1;
        } else if str_eq(t, "Dev") {
            dev_deps = dev_deps + 1;
        } else if str_eq(t, "Build") {
            build_deps = build_deps + 1;
        }
    }
    assert(ev.take(edges.len() as int) =~= ev);
    if workspace_count >= 5 || normal_deps > dev_deps + build_deps {
        CycleSeverity::High
    } else if workspace_count >= 3 || normal_deps > 0 {
        CycleSeverity::Medium
    } else {
        CycleSeverity::Low
    }
}

/// A group of parallel edges: source index, target index, dependency type,
/// and the indices of its edges in increasing order.
pub type EdgeGroupView = (int, int, DependencyType, Seq<int>);

/// The index of the group with the given key among the first `n`, or -1.
pub open spec fn key_index(groups: Seq<EdgeGroupView>, s: int, t: int, ty: DependencyType, n: nat) -> int
    decreases n,
{
    if n == 0 {
        -1
    } else {
        let i = key_index(groups, s, t, ty, (n - 1) as nat);
        if i >= 0 {
            i
        } else if groups[n - 1].0 == s && groups[n - 1].1 == t && groups[n - 1].2 == ty {
            n - 1
        } else {
            -1
        }
    }
}

/// The groups after edge `k` from `s` to `t` of type `ty` joins the group of
/// its key, or opens a new group at the end.
pub open spec fn add_to_key(groups: Seq<EdgeGroupView>, s: int, t: int, ty: DependencyType, k: int) -> Seq<EdgeGroupView> {
    let i = key_index(groups, s, t, ty, groups.len());
    if i >= 0 {
        groups.update(i, (s, t, ty, groups[i].3.push(k)))
    } else {
        groups.push((s, t, ty, seq![k]))
    }
}

/// The first `n` edges grouped by source, target and dependency type: the
/// groups in order of first appearance, each with its edges in index order.
pub open spec fn edge_groups_upto(edges: Seq<(int, int, DependencyEdge)>, n: nat) -> Seq<EdgeGroupView>
    decreases n,
{
    if n == 0 {
        Seq::empty()
    } else {
        let e = edges[n - 1];
        add_to_key(edge_groups_upto(edges, (n - 1) as nat), e.0, e.1, e.2.dependency_type, n - 1)
    }
}

/// The edges of a graph grouped by source, target and dependency type.
pub open spec fn edge_groups(g: DiGraph<WorkspaceNode, DependencyEdge>) -> Seq<EdgeGroupView> {
    edge_groups_upto(graph_edges(g), graph_edges(g).len())
}

pub proof fn lemma_key_index_bounds(groups: Seq<EdgeGroupView>, s: int, t: int, ty: DependencyType, n: nat)
    requires
        n <= groups.len(),
    ensures
        -1 <= key_index(groups, s, t, ty, n) < n,
        key_index(groups, s, t, ty, n) >= 0 ==> groups[key_index(groups, s, t, ty, n)].0 == s
            && groups[key_index(groups, s, t, ty, n)].1 == t
            && groups[key_index(groups, s, t, ty, n)].2 == ty,
    decreases n,
{
    if n > 0 {
        lemma_key_index_bounds(groups, s, t, ty, (n - 1) as nat);
    }
}

pub proof fn lemma_key_index_stable(groups: Seq<EdgeGroupView>, s: int, t: int, ty: DependencyType, m: nat, n: nat)
    requires
        m <= n,
        key_index(groups, s, t, ty, m) >= 0,
    ensures
        key_index(groups, s, t, ty, n) == key_index(groups, s, t, ty, m),
    decreases n - m,
{
    if m < n {
        lemma_key_index_stable(groups, s, t, ty, m, (n - 1) as nat);
    }
}

/// Every group holds at least one edge, and every edge index in a group is
/// below `n`.
pub proof fn lemma_groups_nonempty(edges: Seq<(int, int, DependencyEdge)>, n: nat)
    requires
        n <= edges.len(),
    ensures
        forall|i: int| 0 <= i < edge_groups_upto(edges, n).len() ==> (#[trigger] edge_groups_upto(edges, n)[i]).3.len() >= 1,
    decreases n,
{
    if n > 0 {
        lemma_groups_nonempty(edges, (n - 1) as nat);
        let prev = edge_groups_upto(edges, (n - 1) as nat);
        let e = edges[n - 1];
        lemma_key_index_bounds(prev, e.0, e.1, e.2.dependency_type, prev.len());
    }
}

/// The position of the first `-` among the first `n` characters, or -1.
pub open spec fn first_dash(s: Seq<char>, n: nat) -> int
    decreases n,
{
    if n == 0 {
        -1
    } else {
        let k = first_dash(s, (n - 1) as nat);
        if k >= 0 {
            k
        } else if s[n - 1] == '-' {
            n - 1
        } else {
            -1
        }
    }
}

pub proof fn lemma_first_dash_stable(s: Seq<char>, m: nat, n: nat)
    requires
        m <= n,
        first_dash(s, m) >= 0,
    ensures
        first_dash(s, n) == first_dash(s, m),
    decreases n - m,
{
    if m < n {
        lemma_first_dash_stable(s, m, (n - 1) as nat);
    }
}

pub proof fn lemma_first_dash_bounds(s: Seq<char>, n: nat)
    ensures
        -1 <= first_dash(s, n) < n,
    decreases n,
{
    if n > 0 {
        lemma_first_dash_bounds(s, (n - 1) as nat);
    }
}

/// The group prefix of a workspace name: what comes before its first `-`;
/// without a `-`, `workspace` if the name contains that word, else `other`.
pub open spec fn prefix_of(name: Seq<char>) -> Seq<char> {
    let k = first_dash(name, name.len());
    if k >= 0 {
        name.take(k)
    } else if seq_contains_sub(name, "workspace"@) {
        "workspace"@
    } else {
        "other"@
    }
}

/// The group prefix of a workspace name.
pub fn workspace_prefix(name: &str) -> (r: String)
    ensures
        r@ == prefix_of(name@),
{
    let n = name.unicode_len();
    let mut i: usize = 0;
    while i < n
        invariant
            n == name@.len(),
            i <= n,
            first_dash(name@, i as nat) < 0,
        decreases n - i,
    {
        if name.get_char(i) == '-' {
            proof { lemma_first_dash_stable(name@, (i + 1) as nat, n as nat); }
            let p = name.substring_char(0, i);
            assert(p@ =~= name@.take(i as int));
            return to_owned(p);
        }
        i = i + 1;
    }
    if str_contains(name, "workspace") {
        to_owned("workspace")
    } else {
        to_owned("other")
    }
}

/// The names of the nodes of a graph, in index order.
pub open spec fn node_names(g: DiGraph<WorkspaceNode, DependencyEdge>) -> Seq<Seq<char>> {
    graph_nodes(g).map_values(|ws: WorkspaceNode| ws.name@)
}

/// The group prefix of each name.
pub open spec fn prefixes(names: Seq<Seq<char>>) -> Seq<Seq<char>> {
    names.map_values(|n: Seq<char>| prefix_of(n))
}

/// The indices below `n` whose prefix is `p`, in increasing order.
pub open spec fn members_upto(ps: Seq<Seq<char>>, p: Seq<char>, n: nat) -> Seq<int>
    decreases n,
{
    if n == 0 {
        Seq::empty()
    } else {
        let m = members_upto(ps, p, (n - 1) as nat);
        if ps[n - 1] == p { m.push(n - 1) } else { m }
    }
}

/// The indices whose prefix is `p`, in increasing order.
pub open spec fn members(ps: Seq<Seq<char>>, p: Seq<char>) -> Seq<int> {
    members_upto(ps, p, ps.len())
}

/// The groups of the given prefixes that hold more than one workspace,
/// each with its members.
pub open spec fn kept_groups(keys: Seq<Seq<char>>, ps: Seq<Seq<char>>) -> Seq<(Seq<char>, Seq<int>)>
    decreases keys.len(),
{
    if keys.len() == 0 {
        Seq::empty()
    } else {
        let r = kept_groups(keys.drop_last(), ps);
        let m = members(ps, keys.last());
        if m.len() > 1 { r.push((keys.last(), m)) } else { r }
    }
}

/// The workspaces grouped by prefix: the prefixes in increasing order, only
/// those shared by more than one workspace, each with its node indices.
pub open spec fn prefix_groups(names: Seq<Seq<char>>) -> Seq<(Seq<char>, Seq<int>)> {
    kept_groups(sorted_set(prefixes(names)), prefixes(names))
}

/// The node indices below `n` that belong to no kept group.
pub open spec fn ungrouped_upto(ps: Seq<Seq<char>>, n: nat) -> Seq<int>
    decreases n,
{
    if n == 0 {
        Seq::empty()
    } else {
        let u = ungrouped_upto(ps, (n - 1) as nat);
        if members(ps, ps[n - 1]).len() <= 1 { u.push(n - 1) } else { u }
    }
}

/// The node indices that belong to no kept group, in increasing order.
pub open spec fn ungrouped(names: Seq<Seq<char>>) -> Seq<int> {
    ungrouped_upto(prefixes(names), names.len())
}

/// The indices of the strings equal to `p`.
pub fn members_of(ps: &[String], p: &str) -> (r: Vec<usize>)
    ensures
        r@.map_values(|i: usize| i as int) == members(views(ps@), p@),
        forall|j: int| 0 <= j < r@.len() ==> #[trigger] r@[j] < ps@.len(),
{
    let ghost pv = views(ps@);
    let mut r: Vec<usize> = Vec::new();
    for i in 0..ps.len()
        invariant
            pv == views(ps@),
            r@.map_values(|i: usize| i as int) == members_upto(pv, p@, i as nat),
            forall|j: int| 0 <= j < r@.len() ==> #[trigger] r@[j] < i,
    {
        assert(pv[i as int] == ps@[i as int]@);
        if str_eq(ps[i].as_str(), p) {
            let ghost before = r@;
            r.push(i);
            assert(r@.map_values(|i: usize| i as int) =~= before.map_values(|i: usize| i as int).push(i as int));
        }
    }
    r
}

/// The prefix of every node of a graph.
pub fn node_prefixes(graph: &DiGraph<WorkspaceNode, DependencyEdge>) -> (r: Vec<String>)
    ensures
        views(r@) == prefixes(node_names(*graph)),
{
    let n = node_count(graph);
    let ghost all = prefixes(node_names(*graph));
    let mut r: Vec<String> = Vec::new();
    for i in 0..n
        invariant
            n == graph_nodes(*graph).len(),
            all == prefixes(node_names(*graph)),
            r@.len() == i,
            views(r@) == all.take(i as int),
    {
        let p = workspace_prefix(node_weight(graph, i).name.as_str());
        let ghost before = r@;
        r.push(p);
        assert(r@ == before.push(p));
        assert(views(r@) =~= all.take(i + 1)) by {
            assert(views(r@)[i as int] == p@);
        }
    }
    assert(all.take(n as int) =~= all);
    r
}

/// A prefix group: the prefix and the node indices.
pub struct PrefixGroup {
    pub prefix: String,
    pub nodes: Vec<usize>,
}

/// The view of a list of prefix groups.
pub open spec fn prefix_group_views(v: Seq<PrefixGroup>) -> Seq<(Seq<char>, Seq<int>)> {
    v.map_values(|g: PrefixGroup| (g.prefix@, g.nodes@.map_values(|i: usize| i as int)))
}

/// Groups the workspaces of a graph by the prefix of their names, keeping
/// only the groups with more than one workspace.
pub fn group_workspaces_by_prefix(graph: &DiGraph<WorkspaceNode, DependencyEdge>) -> (r: Vec<PrefixGroup>)
    ensures
        prefix_group_views(r@) == prefix_groups(node_names(*graph)),
        forall|k: int, j: int| 0 <= k < r@.len() && 0 <= j < r@[k].nodes@.len() ==>
            #[trigger] r@[k].nodes@[j] < graph_nodes(*graph).len(),
{
    let ps = node_prefixes(graph);
    let ghost pv = views(ps@);
    let mut keys: Vec<String> = Vec::new();
    for i in 0..ps.len()
        invariant
            pv == views(ps@),
            views(keys@) == sorted_set(pv.take(i as int)),
            strictly_sorted(views(keys@)),
    {
        assert(pv.take(i + 1).drop_last() =~= pv.take(i as int));
        assert(pv.take(i + 1).last() == ps@[i as int]@);
        insert_sorted_unique(&mut keys, dup(&ps[i]));
    }
    assert(pv.take(ps.len() as int) =~= pv);
    let ghost kv = views(keys@);
    let mut groups: Vec<PrefixGroup> = Vec::new();
    for i in 0..keys.len()
        invariant
            pv == views(ps@),
            pv.len() == graph_nodes(*graph).len(),
            kv == views(keys@),
            prefix_group_views(groups@) == kept_groups(kv.take(i as int), pv),
            forall|k: int, j: int| 0 <= k < groups@.len() && 0 <= j < groups@[k].nodes@.len() ==>
                #[trigger] groups@[k].nodes@[j] < graph_nodes(*graph).len(),
    {
        assert(kv.take(i + 1).drop_last() =~= kv.take(i as int));
        assert(kv.take(i + 1).last() == keys@[i as int]@);
        let m = members_of(ps.as_slice(), keys[i].as_str());
        if m.len() > 1 {
            let ghost before = groups@;
            let grp = PrefixGroup { prefix: dup(&keys[i]), nodes: m };
            groups.push(grp);
            assert(prefix_group_views(groups@) =~= prefix_group_views(before).push(
                (grp.prefix@, grp.nodes@.map_values(|i: usize| i as int))));
        }
    }
    assert(kv.take(keys.len() as int) =~= kv);
    assert(graph_nodes(*graph).len() == node_names(*graph).len());
    groups
}

/// The node indices that belong to no prefix group, in increasing order.
pub fn ungrouped_nodes(graph: &DiGraph<WorkspaceNode, DependencyEdge>) -> (r: Vec<usize>)
    ensures
        r@.map_values(|i: usize| i as int) == ungrouped(node_names(*graph)),
        forall|j: int| 0 <= j < r@.len() ==> #[trigger] r@[j] < graph_nodes(*graph).len(),
{
    let ps = node_prefixes(graph);
    let ghost pv = views(ps@);
    let mut r: Vec<usize> = Vec::new();
    for i in 0..ps.len()
        invariant
            pv == views(ps@),
            pv.len() == graph_nodes(*graph).len(),
            r@.map_values(|i: usize| i as int) == ungrouped_upto(pv, i as nat),
            forall|j: int| 0 <= j < r@.len() ==> #[trigger] r@[j] < i,
    {
        assert(pv[i as int] == ps@[i as int]@);
        let m = members_of(ps.as_slice(), ps[i].as_str());
        if m.len() <= 1 {
            let ghost before = r@;
            r.push(i);
            assert(r@.map_values(|i: usize| i as int) =~= before.map_values(|i: usize| i as int).push(i as int));
        }
    }
    r
}

/// Parallel edges of a graph: the key and the edge indices.
pub struct EdgeGroup {
    pub source: usize,
    pub target: usize,
    pub dep_type: DependencyType,
    pub edges: Vec<usize>,
}

impl View for EdgeGroup {
    type V = EdgeGroupView;

    open spec fn view(&self) -> EdgeGroupView {
        (self.source as int, self.target as int, self.dep_type, self.edges@.map_values(|k: usize| k as int))
    }
}

/// The views of a list of edge groups.
pub open spec fn group_views(v: Seq<EdgeGroup>) -> Seq<EdgeGroupView> {
    v.map_values(|g: EdgeGroup| g@)
}

fn key_matches(g: &EdgeGroup, s: usize, t: usize, ty: DependencyType) -> (r: bool)
    ensures
        r == (g@.0 == s && g@.1 == t && g@.2 == ty),
{
    g.source == s && g.target == t && g.dep_type == ty
}

/// Groups the edges of a graph by source, target and dependency type.
pub fn aggregate_edges(graph: &DiGraph<WorkspaceNode, DependencyEdge>) -> (r: Vec<EdgeGroup>)
    ensures
        group_views(r@) == edge_groups(*graph),
        forall|i: int| 0 <= i < r@.len() ==> (#[trigger] r@[i]).source < graph_nodes(*graph).len()
            && r@[i].target < graph_nodes(*graph).len(),
        forall|i: int, j: int| 0 <= i < r@.len() && 0 <= j < r@[i].edges@.len() ==>
            #[trigger] r@[i].edges@[j] < graph_edges(*graph).len(),
{
    let ne = edge_count(graph);
    let ghost edges = graph_edges(*graph);
    let mut groups: Vec<EdgeGroup> = Vec::new();
    let mut k: usize = 0;
    while k < ne
        invariant
            ne == edges.len(),
            edges == graph_edges(*graph),
            k <= ne,
            group_views(groups@) == edge_groups_upto(edges, k as nat),
            forall|i: int| 0 <= i < groups@.len() ==> (#[trigger] groups@[i]).source < graph_nodes(*graph).len()
                && groups@[i].target < graph_nodes(*graph).len(),
            forall|i: int, j: int| 0 <= i < groups@.len() && 0 <= j < groups@[i].edges@.len() ==>
                #[trigger] groups@[i].edges@[j] < k,
        decreases ne - k,
    {
        let (s, t) = edge_endpoints(graph, k);
        let ty = edge_weight(graph, k).dependency_type;
        let ghost gv = group_views(groups@);
        let mut i: usize = 0;
        while i < groups.len() && !key_matches(&groups[i], s, t, ty)
            invariant
                gv == group_views(groups@),
                i <= groups.len(),
                key_index(gv, s as int, t as int, ty, i as nat) < 0,
            decreases groups.len() - i,
        {
            i = i + 1;
        }
        if i < groups.len() {
            proof {
                lemma_key_index_stable(gv, s as int, t as int, ty, (i + 1) as nat, gv.len());
            }
            let mut grp = groups.remove(i);
            let ghost before = grp.edges@;
            grp.edges.push(k);
            assert(grp@.3 =~= gv[i as int].3.push(k as int)) by {
                assert(grp.edges@ == before.push(k));
            }
            groups.insert(i, grp);
            assert(group_views(groups@) =~= add_to_key(gv, s as int, t as int, ty, k as int));
        } else {
            let mut ev: Vec<usize> = Vec::new();
            ev.push(k);
            let grp = EdgeGroup { source: s, target: t, dep_type: ty, edges: ev };
            assert(grp@.3 =~= seq![k as int]);
            groups.push(grp);
            assert(group_views(groups@) =~= add_to_key(gv, s as int, t as int, ty, k as int));
        }
        k = k + 1;
    }
    groups
}

} // verus!
