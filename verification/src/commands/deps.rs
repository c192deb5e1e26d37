//! The `lineup` command: its configuration, and the analysis of which
//! workspaces depend on which.

use petgraph::graph::DiGraph;
use vstd::prelude::*;

use crate::analyzer::analyzer_impl::WorkspaceInfo;
use crate::cli::Commands;
use crate::common::{paths_or_current, ConfigBuilder, FromCommand};
use crate::config::WorkspaceDepsConfig;
use crate::error::{is_config_error, FerrisWheelError};
use crate::graph::petgraph_api::{arcs_of, edge_count, edge_endpoints, graph_nodes, node_count, node_weight};
use crate::graph::reach::{arc_ints, arcs_within, lemma_reaches_plus_first, reachable_from, reaches_plus};
use crate::graph::types::{DependencyEdge, WorkspaceNode};
use crate::text::{
    dup, insert_ordered, insert_sorted_unique, lemma_sorted_insert_props, lemma_sorted_set_props, opt_view, ordered,
    sorted_set, str_eq, strictly_sorted, to_owned, views,
};

verus! {

impl FromCommand for WorkspaceDepsConfig {
    /// Builds the configuration from the `lineup` command; any other command
    /// is refused.
    fn from_command(command: Commands, current_dir: Option<String>) -> (r: Result<Self, FerrisWheelError>)
        ensures
            command matches Commands::Lineup { workspace, reverse, transitive, common, format }
                ==> (r matches Ok(c) && c.workspace == workspace && c.reverse == reverse && c.transitive == transitive
                    && views(c.paths@) == paths_or_current(views(common.paths@), opt_view(current_dir))
                    && c.format == format.format
                    && c.exclude_dev == common.exclude_dev && c.exclude_build == common.exclude_build
                    && c.exclude_target == common.exclude_target),
            !(command is Lineup) ==> (r matches Err(e) && is_config_error(e, "Invalid command type for WorkspaceDepsConfig"@)),
    {
        match command {
            Commands::Lineup { workspace, reverse, transitive, common, format } => {
            let paths = common.get_paths(current_dir);
            WorkspaceDepsConfig::builder()
                .with_workspace(workspace)
                .with_reverse(reverse)
                .with_transitive(transitive)
                .with_paths(paths)
                .with_format(format.format)
                .with_exclude_dev(common.exclude_dev)
                .with_exclude_build(common.exclude_build)
                .with_exclude_target(common.exclude_target)
                .build()
            },
            _ => Err(FerrisWheelError::ConfigurationError {
                message: to_owned("Invalid command type for WorkspaceDepsConfig"),
            }),
        }
    }
}

/// The position of the last of the first `n` names equal to `x`, or -1.
pub open spec fn last_index(names: Seq<Seq<char>>, x: Seq<char>, n: nat) -> int
    decreases n,
{
    if n == 0 {
        -1
    } else if names[n - 1] == x {
        n - 1
    } else {
        last_index(names, x, (n - 1) as nat)
    }
}

/// The node that stands for the workspace named `x`: the last node of that
/// name, or -1.
pub open spec fn node_of(names: Seq<Seq<char>>, x: Seq<char>) -> int {
    last_index(names, x, names.len())
}

/// The names of the targets of the first `k` arcs that leave node `i`, in
/// arc order.
pub open spec fn direct_items(names: Seq<Seq<char>>, arcs: Seq<(int, int)>, i: int, k: nat) -> Seq<Seq<char>>
    decreases k,
{
    if k == 0 {
        Seq::empty()
    } else if arcs[k - 1].0 == i {
        direct_items(names, arcs, i, (k - 1) as nat).push(names[arcs[k - 1].1])
    } else {
        direct_items(names, arcs, i, (k - 1) as nat)
    }
}

/// The names of the sources of the first `k` arcs that enter node `i`, in
/// arc order.
pub open spec fn reverse_items(names: Seq<Seq<char>>, arcs: Seq<(int, int)>, i: int, k: nat) -> Seq<Seq<char>>
    decreases k,
{
    if k == 0 {
        Seq::empty()
    } else if arcs[k - 1].1 == i {
        reverse_items(names, arcs, i, (k - 1) as nat).push(names[arcs[k - 1].0])
    } else {
        reverse_items(names, arcs, i, (k - 1) as nat)
    }
}

/// The names of the first `k` nodes whose flag is set, in node order.
pub open spec fn flag_items(names: Seq<Seq<char>>, flags: Seq<bool>, k: nat) -> Seq<Seq<char>>
    decreases k,
{
    if k == 0 {
        Seq::empty()
    } else if flags[k - 1] {
        flag_items(names, flags, (k - 1) as nat).push(names[k - 1])
    } else {
        flag_items(names, flags, (k - 1) as nat)
    }
}

/// For each node, whether node `i` reaches it by one arc or more.
pub open spec fn reach_flags(n: nat, arcs: Seq<(int, int)>, i: int) -> Seq<bool> {
    Seq::new(n, |v: int| reaches_plus(arcs, i, v))
}

/// The direct dependencies of workspace `x`: the distinct names of the
/// targets of the arcs out of its node, in increasing order.
pub open spec fn direct_list(names: Seq<Seq<char>>, arcs: Seq<(int, int)>, x: Seq<char>) -> Seq<Seq<char>> {
    let i = node_of(names, x);
    if i < 0 { Seq::empty() } else { sorted_set(direct_items(names, arcs, i, arcs.len())) }
}

/// The reverse dependencies of workspace `x`: the distinct names of the
/// sources of the arcs into its node, in increasing order.
pub open spec fn reverse_list(names: Seq<Seq<char>>, arcs: Seq<(int, int)>, x: Seq<char>) -> Seq<Seq<char>> {
    let i = node_of(names, x);
    if i < 0 { Seq::empty() } else { sorted_set(reverse_items(names, arcs, i, arcs.len())) }
}

/// The transitive dependencies of workspace `x`: the distinct names of the
/// nodes its node reaches by one arc or more, in increasing order.
pub open spec fn transitive_list(names: Seq<Seq<char>>, arcs: Seq<(int, int)>, x: Seq<char>) -> Seq<Seq<char>> {
    let i = node_of(names, x);
    if i < 0 {
        Seq::empty()
    } else {
        sorted_set(flag_items(names, reach_flags(names.len(), arcs, i), names.len()))
    }
}

/// The position of the first of the first `n` workspaces named `x`, or -1.
pub open spec fn first_workspace(ws: Seq<(String, WorkspaceInfo)>, x: Seq<char>, n: nat) -> int
    decreases n,
{
    if n == 0 {
        -1
    } else if first_workspace(ws, x, (n - 1) as nat) >= 0 {
        first_workspace(ws, x, (n - 1) as nat)
    } else if ws[n - 1].1.name@ == x {
        n - 1
    } else {
        -1
    }
}

pub proof fn lemma_first_workspace_stable(ws: Seq<(String, WorkspaceInfo)>, x: Seq<char>, a: nat, b: nat)
    requires
        a <= b,
        first_workspace(ws, x, a) >= 0,
    ensures
        first_workspace(ws, x, b) == first_workspace(ws, x, a),
    decreases b - a,
{
    if a < b {
        lemma_first_workspace_stable(ws, x, a, (b - 1) as nat);
    }
}

/// The names of the workspaces, in order.
pub open spec fn workspace_name_views(ws: Seq<(String, WorkspaceInfo)>) -> Seq<Seq<char>> {
    ws.map_values(|e: (String, WorkspaceInfo)| e.1.name@)
}

/// The workspace dependency graph reduced to what the `lineup` command asks
/// of it: the workspaces with their paths, the name of each graph node, and
/// the arcs between nodes.
pub struct WorkspaceDependencyAnalysis<'a> {
    pub workspaces: &'a [(String, WorkspaceInfo)],
    pub node_names: Vec<String>,
    pub arcs: Vec<(usize, usize)>,
}

impl<'a> WorkspaceDependencyAnalysis<'a> {
    /// Every arc joins two nodes.
    pub open spec fn wf(&self) -> bool {
        arcs_within(self.arcs@, self.node_names@.len())
    }

    /// The node names.
    pub open spec fn names(&self) -> Seq<Seq<char>> {
        views(self.node_names@)
    }

    /// The arcs as pairs of node positions.
    pub open spec fn arc_list(&self) -> Seq<(int, int)> {
        arc_ints(self.arcs@)
    }

    /// Reads the node names and arcs of the workspace graph.
    pub fn new(
        workspaces: &'a [(String, WorkspaceInfo)],
        crate_to_workspace: &[(String, Vec<String>)],
        graph: &DiGraph<WorkspaceNode, DependencyEdge>,
    ) -> (r: Self)
        ensures
            r.wf(),
            r.workspaces@ == workspaces@,
            r.names() == graph_nodes(*graph).map_values(|w: WorkspaceNode| w.name@),
            r.arc_list() == arcs_of(*graph),
    {
        let n = node_count(graph);
        let mut node_names: Vec<String> = Vec::new();
        for i in 0..n
            invariant
                n == graph_nodes(*graph).len(),
                views(node_names@) == graph_nodes(*graph).map_values(|w: WorkspaceNode| w.name@).take(i as int),
        {
            let w = node_weight(graph, i);
            let ghost before = node_names@;
            assert(views(before).len() == before.len());
            assert(graph_nodes(*graph).map_values(|w: WorkspaceNode| w.name@).take(i as int).len() == i);
            node_names.push(dup(&w.name));
            assert(node_names@[i as int]@ == w.name@);
            assert(views(node_names@)[i as int] == graph_nodes(*graph).map_values(|w: WorkspaceNode| w.name@)[i as int]);
            assert(views(node_names@) =~= graph_nodes(*graph).map_values(|w: WorkspaceNode| w.name@).take(i + 1));
        }
        assert(graph_nodes(*graph).map_values(|w: WorkspaceNode| w.name@).take(n as int)
            =~= graph_nodes(*graph).map_values(|w: WorkspaceNode| w.name@));
        let m = edge_count(graph);
        let mut arcs: Vec<(usize, usize)> = Vec::new();
        for k in 0..m
            invariant
                m == arcs_of(*graph).len(),
                n == graph_nodes(*graph).len(),
                arc_ints(arcs@) == arcs_of(*graph).take(k as int),
                arcs_within(arcs@, n as nat),
        {
            let e = edge_endpoints(graph, k);
            let ghost before = arcs@;
            arcs.push(e);
            assert(arc_ints(before).len() == before.len());
            assert(k < arcs_of(*graph).len());
            assert(arcs_of(*graph).take(k as int).len() == k);
            assert(before.len() == k);
            assert(arcs@.len() == k + 1);
            assert(arcs@[k as int] == e);
            assert(arcs_of(*graph)[k as int] == (e.0 as int, e.1 as int));
            assert(arc_ints(arcs@)[k as int] == (e.0 as int, e.1 as int));
            assert(arc_ints(arcs@) =~= arcs_of(*graph).take(k + 1));
        }
        assert(arcs_of(*graph).take(m as int) =~= arcs_of(*graph));
        WorkspaceDependencyAnalysis { workspaces, node_names, arcs }
    }

    /// The names of all workspaces, in increasing order, repetitions kept.
    pub fn workspace_names(&self) -> (r: Vec<String>)
        ensures
            views(r@) == ordered(workspace_name_views(self.workspaces@)),
    {
        let ghost all = workspace_name_views(self.workspaces@);
        let mut r: Vec<String> = Vec::new();
        for i in 0..self.workspaces.len()
            invariant
                all == workspace_name_views(self.workspaces@),
                views(r@) == ordered(all.take(i as int)),
        {
            insert_ordered(&mut r, dup(&self.workspaces[i].1.name));
            assert(all.take(i + 1).drop_last() =~= all.take(i as int));
        }
        assert(all.take(self.workspaces.len() as int) =~= all);
        r
    }

    fn find_workspace(&self, workspace_name: &str) -> (r: Option<usize>)
        ensures
            match r {
                Some(i) => i as int == first_workspace(self.workspaces@, workspace_name@, self.workspaces@.len())
                    && i < self.workspaces@.len(),
                None => first_workspace(self.workspaces@, workspace_name@, self.workspaces@.len()) < 0,
            },
    {
        let mut i: usize = 0;
        while i < self.workspaces.len()
            invariant
                i <= self.workspaces@.len(),
                first_workspace(self.workspaces@, workspace_name@, i as nat) < 0,
            decreases self.workspaces@.len() - i,
        {
            if str_eq(self.workspaces[i].1.name.as_str(), workspace_name) {
                proof {
                    lemma_first_workspace_stable(self.workspaces@, workspace_name@, (i + 1) as nat, self.workspaces@.len());
                }
                return Some(i);
            }
            i = i + 1;
        }
        None
    }

    /// The first workspace with the given name.
    pub fn get_workspace_info(&self, workspace_name: &str) -> (r: Option<&WorkspaceInfo>)
        ensures
            ({
                let i = first_workspace(self.workspaces@, workspace_name@, self.workspaces@.len());
                if i < 0 { r is None } else { r == Some(&self.workspaces@[i].1) }
            }),
    {
        match self.find_workspace(workspace_name) {
            Some(i) => Some(&self.workspaces[i].1),
            None => None,
        }
    }

    /// The path of the first workspace with the given name.
    pub fn get_workspace_path(&self, workspace_name: &str) -> (r: Option<&String>)
        ensures
            ({
                let i = first_workspace(self.workspaces@, workspace_name@, self.workspaces@.len());
                if i < 0 { r is None } else { r == Some(&self.workspaces@[i].0) }
            }),
    {
        match self.find_workspace(workspace_name) {
            Some(i) => Some(&self.workspaces[i].0),
            None => None,
        }
    }

    fn find_node(&self, workspace: &str) -> (r: Option<usize>)
        ensures
            match r {
                Some(i) => i as int == node_of(self.names(), workspace@) && i < self.node_names@.len(),
                None => node_of(self.names(), workspace@) < 0,
            },
    {
        let mut found: Option<usize> = None;
        for i in 0..self.node_names.len()
            invariant
                match found {
                    Some(j) => j as int == last_index(self.names(), workspace@, i as nat) && j < i,
                    None => last_index(self.names(), workspace@, i as nat) < 0,
                },
        {
            if str_eq(self.node_names[i].as_str(), workspace) {
                found = Some(i);
            }
        }
        found
    }

    /// The workspaces that the given workspace depends on directly, each
    /// once, in increasing order.
    pub fn get_direct_dependencies(&self, workspace: &str) -> (r: Vec<String>)
        requires
            self.wf(),
        ensures
            views(r@) == direct_list(self.names(), self.arc_list(), workspace@),
    {
        let mut r: Vec<String> = Vec::new();
        let ghost names = self.names();
        let ghost arcs = self.arc_list();
        match self.find_node(workspace) {
            None => r,
            Some(i) => {
                for k in 0..self.arcs.len()
                    invariant
                        names == self.names(),
                        arcs == self.arc_list(),
                        self.wf(),
                        views(r@) == sorted_set(direct_items(names, arcs, i as int, k as nat)),
                {
                    let (a, b) = self.arcs[k];
                    proof {
                        lemma_sorted_set_props(direct_items(names, arcs, i as int, k as nat));
                        assert(arcs[k as int] == (a as int, b as int));
                        assert(self.arcs@[k as int].1 < self.node_names@.len());
                    }
                    if a == i {
                        insert_sorted_unique(&mut r, dup(&self.node_names[b]));
                        assert(direct_items(names, arcs, i as int, (k + 1) as nat).drop_last()
                            =~= direct_items(names, arcs, i as int, k as nat));
                    }
                }
                r
            },
        }
    }

    /// The workspaces that depend directly on the given workspace, each
    /// once, in increasing order.
    pub fn get_reverse_dependencies(&self, workspace: &str) -> (r: Vec<String>)
        requires
            self.wf(),
        ensures
            views(r@) == reverse_list(self.names(), self.arc_list(), workspace@),
    {
        let mut r: Vec<String> = Vec::new();
        let ghost names = self.names();
        let ghost arcs = self.arc_list();
        match self.find_node(workspace) {
            None => r,
            Some(i) => {
                for k in 0..self.arcs.len()
                    invariant
                        names == self.names(),
                        arcs == self.arc_list(),
                        self.wf(),
                        views(r@) == sorted_set(reverse_items(names, arcs, i as int, k as nat)),
                {
                    let (a, b) = self.arcs[k];
                    proof {
                        lemma_sorted_set_props(reverse_items(names, arcs, i as int, k as nat));
                        assert(arcs[k as int] == (a as int, b as int));
                        assert(self.arcs@[k as int].0 < self.node_names@.len());
                    }
                    if b == i {
                        insert_sorted_unique(&mut r, dup(&self.node_names[a]));
                        assert(reverse_items(names, arcs, i as int, (k + 1) as nat).drop_last()
                            =~= reverse_items(names, arcs, i as int, k as nat));
                    }
                }
                r
            },
        }
    }

    /// Every workspace that the given workspace depends on, directly or
    /// through others, each once, in increasing order.
    pub fn get_transitive_dependencies(&self, workspace: &str) -> (r: Vec<String>)
        requires
            self.wf(),
        ensures
            views(r@) == transitive_list(self.names(), self.arc_list(), workspace@),
    {
        let mut r: Vec<String> = Vec::new();
        let ghost names = self.names();
        match self.find_node(workspace) {
            None => r,
            Some(i) => {
                let n = self.node_names.len();
                let flags = reachable_from(&self.arcs, n, i);
                let ghost want = reach_flags(n as nat, self.arc_list(), i as int);
                assert(flags@ =~= want);
                for v in 0..n
                    invariant
                        names == self.names(),
                        n == names.len(),
                        flags@ == want,
                        want.len() == n,
                        views(r@) == sorted_set(flag_items(names, want, v as nat)),
                {
                    proof {
                        lemma_sorted_set_props(flag_items(names, want, v as nat));
                    }
                    if flags[v] {
                        insert_sorted_unique(&mut r, dup(&self.node_names[v]));
                        assert(flag_items(names, want, (v + 1) as nat).drop_last() =~= flag_items(names, want, v as nat));
                    }
                }
                r
            },
        }
    }
}

proof fn lemma_last_index(names: Seq<Seq<char>>, x: Seq<char>, n: nat)
    requires
        n <= names.len(),
    ensures
        last_index(names, x, n) < n,
        last_index(names, x, n) >= 0 ==> names[last_index(names, x, n)] == x,
        last_index(names, x, n) < 0 ==> forall|v: int| 0 <= v < n ==> names[v] != x,
        names.no_duplicates() ==> forall|v: int| 0 <= v < n && names[v] == x ==> last_index(names, x, n) == v,
    decreases n,
{
    if n > 0 {
        lemma_last_index(names, x, (n - 1) as nat);
    }
}

proof fn lemma_direct_items(names: Seq<Seq<char>>, arcs: Seq<(int, int)>, i: int, k: nat, w: Seq<char>)
    requires
        k <= arcs.len(),
    ensures
        direct_items(names, arcs, i, k).contains(w)
            <==> exists|j: int| 0 <= j < k && (#[trigger] arcs[j]).0 == i && names[arcs[j].1] == w,
    decreases k,
{
    if k > 0 {
        lemma_direct_items(names, arcs, i, (k - 1) as nat, w);
        let prev = direct_items(names, arcs, i, (k - 1) as nat);
        if arcs[k - 1].0 == i {
            assert(direct_items(names, arcs, i, k) == prev.push(names[arcs[k - 1].1]));
            assert(prev.push(names[arcs[k - 1].1])[prev.len() as int] == names[arcs[k - 1].1]);
            let q = prev.push(names[arcs[k - 1].1]);
            if q.contains(w) {
                let m = choose|m: int| 0 <= m < q.len() && q[m] == w;
                if m < prev.len() {
                    assert(prev[m] == w);
                }
            }
            if prev.contains(w) {
                let m = choose|m: int| 0 <= m < prev.len() && prev[m] == w;
                assert(q[m] == w);
            }
        }
    }
}

proof fn lemma_reverse_items(names: Seq<Seq<char>>, arcs: Seq<(int, int)>, i: int, k: nat, w: Seq<char>)
    requires
        k <= arcs.len(),
    ensures
        reverse_items(names, arcs, i, k).contains(w)
            <==> exists|j: int| 0 <= j < k && (#[trigger] arcs[j]).1 == i && names[arcs[j].0] == w,
    decreases k,
{
    if k > 0 {
        lemma_reverse_items(names, arcs, i, (k - 1) as nat, w);
        let prev = reverse_items(names, arcs, i, (k - 1) as nat);
        if arcs[k - 1].1 == i {
            assert(reverse_items(names, arcs, i, k) == prev.push(names[arcs[k - 1].0]));
            assert(prev.push(names[arcs[k - 1].0])[prev.len() as int] == names[arcs[k - 1].0]);
            let q = prev.push(names[arcs[k - 1].0]);
            if q.contains(w) {
                let m = choose|m: int| 0 <= m < q.len() && q[m] == w;
                if m < prev.len() {
                    assert(prev[m] == w);
                }
            }
            if prev.contains(w) {
                let m = choose|m: int| 0 <= m < prev.len() && prev[m] == w;
                assert(q[m] == w);
            }
        }
    }
}

proof fn lemma_flag_items(names: Seq<Seq<char>>, flags: Seq<bool>, k: nat, w: Seq<char>)
    requires
        k <= flags.len(),
    ensures
        flag_items(names, flags, k).contains(w) <==> exists|v: int| 0 <= v < k && #[trigger] flags[v] && names[v] == w,
    decreases k,
{
    if k > 0 {
        lemma_flag_items(names, flags, (k - 1) as nat, w);
        let prev = flag_items(names, flags, (k - 1) as nat);
        if flags[k - 1] {
            assert(flag_items(names, flags, k) == prev.push(names[k - 1]));
            assert(prev.push(names[k - 1])[prev.len() as int] == names[k - 1]);
            let q = prev.push(names[k - 1]);
            if q.contains(w) {
                let m = choose|m: int| 0 <= m < q.len() && q[m] == w;
                if m < prev.len() {
                    assert(prev[m] == w);
                }
            }
            if prev.contains(w) {
                let m = choose|m: int| 0 <= m < prev.len() && prev[m] == w;
                assert(q[m] == w);
            }
        }
    }
}

/// A sorted, duplicate-free list holds `w` exactly when the items it was
/// made from do.
proof fn lemma_sorted_set_contains(items: Seq<Seq<char>>, w: Seq<char>)
    ensures
        sorted_set(items).contains(w) <==> items.contains(w),
{
    lemma_sorted_set_props(items);
    assert(sorted_set(items).to_set().contains(w) <==> sorted_set(items).contains(w));
    assert(items.to_set().contains(w) <==> items.contains(w));
}

/// The transitive dependencies of a workspace are exactly the names of the
/// nodes that its node reaches by following one arc or more.
pub proof fn law_transitive_is_reachability(a: &WorkspaceDependencyAnalysis, x: Seq<char>, w: Seq<char>)
    requires
        a.wf(),
        node_of(a.names(), x) >= 0,
    ensures
        transitive_list(a.names(), a.arc_list(), x).contains(w) <==> exists|v: int|
            0 <= v < a.names().len() && a.names()[v] == w && #[trigger] reaches_plus(a.arc_list(), node_of(a.names(), x), v),
{
    let names = a.names();
    let i = node_of(names, x);
    let flags = reach_flags(names.len(), a.arc_list(), i);
    lemma_sorted_set_contains(flag_items(names, flags, names.len()), w);
    lemma_flag_items(names, flags, names.len(), w);
    if exists|v: int| 0 <= v < names.len() && names[v] == w && #[trigger] reaches_plus(a.arc_list(), i, v) {
        let v = choose|v: int| 0 <= v < names.len() && names[v] == w && #[trigger] reaches_plus(a.arc_list(), i, v);
        assert(flags[v]);
    }
}

/// Every direct dependency of a workspace is among its transitive ones.
pub proof fn law_direct_within_transitive(a: &WorkspaceDependencyAnalysis, x: Seq<char>, w: Seq<char>)
    requires
        a.wf(),
        direct_list(a.names(), a.arc_list(), x).contains(w),
    ensures
        transitive_list(a.names(), a.arc_list(), x).contains(w),
{
    let names = a.names();
    let arcs = a.arc_list();
    let i = node_of(names, x);
    lemma_sorted_set_contains(direct_items(names, arcs, i, arcs.len()), w);
    lemma_direct_items(names, arcs, i, arcs.len(), w);
    let j = choose|j: int| 0 <= j < arcs.len() && (#[trigger] arcs[j]).0 == i && names[arcs[j].1] == w;
    assert(a.arcs@[j].1 < a.node_names@.len());
    assert(arcs.contains((i, arcs[j].1)));
    lemma_reaches_plus_first(arcs, i, arcs[j].1);
    law_transitive_is_reachability(a, x, w);
}

/// Where node names are distinct, `y` is a direct dependency of `x`
/// exactly when `x` is a reverse dependency of `y`.
pub proof fn law_direct_reverse_dual(a: &WorkspaceDependencyAnalysis, x: Seq<char>, y: Seq<char>)
    requires
        a.wf(),
        a.names().no_duplicates(),
    ensures
        direct_list(a.names(), a.arc_list(), x).contains(y) <==> reverse_list(a.names(), a.arc_list(), y).contains(x),
{
    let names = a.names();
    let arcs = a.arc_list();
    let n = names.len();
    lemma_last_index(names, x, n);
    lemma_last_index(names, y, n);
    let ix = node_of(names, x);
    let iy = node_of(names, y);
    if ix >= 0 {
        lemma_sorted_set_contains(direct_items(names, arcs, ix, arcs.len()), y);
        lemma_direct_items(names, arcs, ix, arcs.len(), y);
    }
    if iy >= 0 {
        lemma_sorted_set_contains(reverse_items(names, arcs, iy, arcs.len()), x);
        lemma_reverse_items(names, arcs, iy, arcs.len(), x);
    }
    if direct_list(names, arcs, x).contains(y) {
        let j = choose|j: int| 0 <= j < arcs.len() && (#[trigger] arcs[j]).0 == ix && names[arcs[j].1] == y;
        assert(a.arcs@[j].1 < a.node_names@.len());
        assert(arcs[j].1 == iy);
        assert(names[arcs[j].0] == x);
    }
    if reverse_list(names, arcs, y).contains(x) {
        let j = choose|j: int| 0 <= j < arcs.len() && (#[trigger] arcs[j]).1 == iy && names[arcs[j].0] == x;
        assert(a.arcs@[j].0 < a.node_names@.len());
        assert(arcs[j].0 == ix);
        assert(names[arcs[j].1] == y);
    }
}

} // verus!
