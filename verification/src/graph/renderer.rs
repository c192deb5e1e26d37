//! Renders the workspace graph as ASCII, Mermaid, DOT or D2 text, and the
//! detected cycles as a summary with suggested break points.
//!
//! Each renderer returns the whole text; its contract states that text
//! exactly. Parallel edges (same source, target and dependency type) are
//! drawn once, in order of first appearance.

use petgraph::graph::DiGraph;
use vstd::prelude::*;

use crate::detector::cycle::WorkspaceCycle;
use crate::graph::petgraph_api::{edge_weight, graph_edges, graph_nodes, node_count, node_weight};
use crate::detector::cycle::CycleView;
use crate::graph::render_model::{
    aggregate_edges, cycle_name_lists, cycle_names, cycle_severity, d2_id, d2_id_of, edge_groups,
    group_views, group_workspaces_by_prefix, in_any_cycle, mermaid_id, mermaid_id_of, name_in_cycles,
    nested_views, node_names, pair_in_any_cycle, pair_in_cycles, prefix_group_views, prefix_groups,
    severity_of, ungrouped, ungrouped_nodes, CycleSeverity, EdgeGroup, EdgeGroupView, PrefixGroup,
};
use crate::graph::ascii_model::{
    edges_with_key, key_edges, key_views, name_order, node_names_of, out_keys, outgoing_keys,
    sorted_node_order, AsciiKey,
};
use crate::graph::summary::{push_cycle_block, summary_text, cycle_block};
use crate::graph::types::{dep_type_lower, dep_type_name, DependencyEdge, DependencyType, WorkspaceNode};
use crate::text::{
    concat_all, decimal, join, join_first, lemma_concat_take, line, push_line, push_newline, push_str,
    push_usize, seq_join, views,
};

verus! {

pub const NORMAL_NODE_FILL: &'static str = "#E3F2FD";
pub const NORMAL_NODE_STROKE: &'static str = "#1976D2";
pub const CYCLE_NODE_FILL: &'static str = "#FFF3E0";
pub const CYCLE_NODE_STROKE: &'static str = "#F57C00";
pub const NORMAL_EDGE: &'static str = "#64B5F6";
pub const DEV_EDGE: &'static str = "#90A4AE";
pub const BUILD_EDGE: &'static str = "#81C784";
pub const CYCLE_EDGE: &'static str = "#FF6500";
pub const LEGEND_BG: &'static str = "#FAFAFA";

/// The colour of an edge that is not highlighted.
pub open spec fn edge_color_of(t: DependencyType) -> Seq<char> {
    match t {
        DependencyType::Normal => NORMAL_EDGE@,
        DependencyType::Dev => DEV_EDGE@,
        DependencyType::Build => BUILD_EDGE@,
    }
}

fn edge_color(t: DependencyType) -> (r: &'static str)
    ensures
        r@ == edge_color_of(t),
{
    match t {
        DependencyType::Normal => NORMAL_EDGE,
        DependencyType::Dev => DEV_EDGE,
        DependencyType::Build => BUILD_EDGE,
    }
}

/// A node label: the workspace name, and with crates shown, a literal `\n`
/// and the number of crates.
pub open spec fn node_label(show: bool, ws: WorkspaceNode) -> Seq<char> {
    if show {
        ws.name@ + "\\n"@ + decimal(ws.crates@.len()) + " crates"@
    } else {
        ws.name@
    }
}

#[verifier::spinoff_prover]
fn push_node_label(out: &mut String, show: bool, ws: &WorkspaceNode)
    ensures
        final(out)@ == old(out)@ + node_label(show, *ws),
{
    push_str(out, ws.name.as_str());
    if show {
        push_str(out, "\\n");
        push_usize(out, ws.crates.len());
        push_str(out, " crates");
    }
    assert(final(out)@ =~= old(out)@ + node_label(show, *ws));
}

/// The crate pair of an edge: `from → to`.
pub open spec fn crate_pair(e: DependencyEdge) -> Seq<char> {
    e.from_crate@ + " → "@ + e.to_crate@
}

/// The label of an edge group in DOT and D2: with several edges, the type
/// and the count; with one, its crate pair when crates are shown, else the
/// type.
pub open spec fn group_label(show: bool, g: DiGraph<WorkspaceNode, DependencyEdge>, grp: EdgeGroupView) -> Seq<char> {
    if grp.3.len() > 1 {
        dep_type_name(grp.2) + " - "@ + decimal(grp.3.len()) + " deps"@
    } else if show {
        crate_pair(graph_edges(g)[grp.3[0]].2)
    } else {
        dep_type_name(grp.2)
    }
}

/// The name of the node at index `i`.
pub open spec fn name_at(g: DiGraph<WorkspaceNode, DependencyEdge>, i: int) -> Seq<char> {
    graph_nodes(g)[i].name@
}

/// A group is highlighted as part of a cycle.
pub open spec fn group_in_cycle(hl: bool, cn: Seq<Seq<Seq<char>>>, g: DiGraph<WorkspaceNode, DependencyEdge>,
    grp: EdgeGroupView) -> bool
{
    hl && pair_in_cycles(cn, name_at(g, grp.0), name_at(g, grp.1))
}

/// A node is highlighted as part of a cycle.
pub open spec fn node_in_cycle(hl: bool, cn: Seq<Seq<Seq<char>>>, ws: WorkspaceNode) -> bool {
    hl && name_in_cycles(cn, ws.name@)
}

/// The DOT line of a node.
#[verifier::opaque]
pub open spec fn dot_node_line(hl: bool, show: bool, cn: Seq<Seq<Seq<char>>>, ws: WorkspaceNode) -> Seq<char> {
    let hot = node_in_cycle(hl, cn, ws);
    line("    \""@ + ws.name@ + "\" [label=\""@ + node_label(show, ws) + "\", style=filled, fillcolor=\""@
        + (if hot { CYCLE_NODE_FILL@ } else { NORMAL_NODE_FILL@ }) + "\", color=\""@
        + (if hot { CYCLE_NODE_STROKE@ } else { NORMAL_NODE_STROKE@ }) + "\", penwidth=2];"@)
}

/// The DOT line of an edge group.
#[verifier::opaque]
pub open spec fn dot_edge_line(hl: bool, show: bool, cn: Seq<Seq<Seq<char>>>,
    g: DiGraph<WorkspaceNode, DependencyEdge>, grp: EdgeGroupView) -> Seq<char>
{
    let head = "    \""@ + name_at(g, grp.0) + "\" -> \""@ + name_at(g, grp.1) + "\" [label=\""@
        + group_label(show, g, grp);
    if group_in_cycle(hl, cn, g, grp) {
        line(head + "\", color=\""@ + CYCLE_EDGE@ + "\", penwidth=3];"@)
    } else {
        line(head + "\", color=\""@ + edge_color_of(grp.2) + "\", penwidth=2];"@)
    }
}

/// The whole DOT text of a graph.
pub open spec fn dot_text(hl: bool, show: bool, cn: Seq<Seq<Seq<char>>>, g: DiGraph<WorkspaceNode, DependencyEdge>) -> Seq<char> {
    line("digraph workspace_dependencies {"@) + line("    rankdir=LR;"@)
        + line("    node [shape=box, style=rounded];"@) + line(Seq::empty())
        + concat_all(graph_nodes(g).map_values(|ws: WorkspaceNode| dot_node_line(hl, show, cn, ws)))
        + line(Seq::empty())
        + concat_all(edge_groups(g).map_values(|grp: EdgeGroupView| dot_edge_line(hl, show, cn, g, grp)))
        + line("}"@)
}

/// The D2 block of a node.
#[verifier::opaque]
pub open spec fn d2_node_block(hl: bool, show: bool, cn: Seq<Seq<Seq<char>>>, ws: WorkspaceNode) -> Seq<char> {
    let hot = node_in_cycle(hl, cn, ws);
    line(d2_id_of(ws.name@) + ": "@ + node_label(show, ws) + " {"@)
        + line("  shape: "@ + (if hot { "hexagon"@ } else { "rectangle"@ }))
        + line("  style.fill: \""@ + (if hot { CYCLE_NODE_FILL@ } else { NORMAL_NODE_FILL@ }) + "\""@)
        + line("  style.stroke: \""@ + (if hot { CYCLE_NODE_STROKE@ } else { NORMAL_NODE_STROKE@ }) + "\""@)
        + line("}"@) + line(Seq::empty())
}

/// The D2 block of an edge group.
#[verifier::opaque]
pub open spec fn d2_edge_block(hl: bool, show: bool, cn: Seq<Seq<Seq<char>>>,
    g: DiGraph<WorkspaceNode, DependencyEdge>, grp: EdgeGroupView) -> Seq<char>
{
    line(d2_id_of(name_at(g, grp.0)) + " -> "@ + d2_id_of(name_at(g, grp.1)) + ": "@ + group_label(show, g, grp) + " {"@)
        + (if group_in_cycle(hl, cn, g, grp) {
            line("  style.stroke: \""@ + CYCLE_EDGE@ + "\""@) + line("  style.stroke-width: 3"@)
        } else {
            line("  style.stroke: \""@ + edge_color_of(grp.2) + "\""@) + line("  style.stroke-width: 2"@)
        })
        + line("}"@)
}

/// The whole D2 text of a graph.
pub open spec fn d2_text(hl: bool, show: bool, cn: Seq<Seq<Seq<char>>>, g: DiGraph<WorkspaceNode, DependencyEdge>) -> Seq<char> {
    line("# Workspace Dependency Graph\n"@)
        + concat_all(graph_nodes(g).map_values(|ws: WorkspaceNode| d2_node_block(hl, show, cn, ws)))
        + concat_all(edge_groups(g).map_values(|grp: EdgeGroupView| d2_edge_block(hl, show, cn, g, grp)))
}

/// The tooltip of a Mermaid node: the name, up to three crates (with the
/// total when there are more) and the number of crates.
#[verifier::opaque]
pub open spec fn tooltip(ws: WorkspaceNode) -> Seq<char> {
    let c = views(ws.crates@);
    "Workspace: "@ + ws.name@ + " - Crates: "@ + (if c.len() <= 3 {
        seq_join(c, ", "@)
    } else {
        seq_join(c.take(3), ", "@) + ", ... ("@ + decimal(c.len()) + " total)"@
    }) + " - Total: "@ + decimal(c.len())
}

/// The Mermaid shape of a node: a rectangle for more than five crates, a
/// double circle for a highlighted workspace in a cycle, a stadium for a
/// single crate, else a rectangle.
#[verifier::opaque]
pub open spec fn mermaid_shape(hl: bool, show: bool, cn: Seq<Seq<Seq<char>>>, ws: WorkspaceNode) -> Seq<char> {
    let id = mermaid_id_of(ws.name@);
    let label = node_label(show, ws);
    let n = ws.crates@.len();
    if n > 5 {
        id + "[\""@ + label + "\"]"@
    } else if node_in_cycle(hl, cn, ws) {
        id + "((\""@ + label + "\"))"@
    } else if n == 1 {
        id + "([\""@ + label + "\"])"@
    } else {
        id + "[\""@ + label + "\"]"@
    }
}

/// The Mermaid lines of a node, indented by `indent`: shape, click tooltip
/// and style.
#[verifier::opaque]
pub open spec fn mermaid_node_block(hl: bool, show: bool, cn: Seq<Seq<Seq<char>>>, ws: WorkspaceNode,
    indent: Seq<char>) -> Seq<char>
{
    let id = mermaid_id_of(ws.name@);
    line(indent + mermaid_shape(hl, show, cn, ws))
        + line(indent + "click "@ + id + " \""@ + tooltip(ws) + "\""@)
        + (if node_in_cycle(hl, cn, ws) {
            line(indent + "style "@ + id + " fill:"@ + CYCLE_NODE_FILL@ + ",stroke:"@ + CYCLE_NODE_STROKE@
                + ",stroke-width:3px"@)
        } else {
            line(indent + "style "@ + id + " fill:"@ + NORMAL_NODE_FILL@ + ",stroke:"@ + NORMAL_NODE_STROKE@
                + ",stroke-width:2px"@)
        })
}

/// A Mermaid subgraph of the workspaces sharing a prefix.
#[verifier::opaque]
pub open spec fn mermaid_subgraph(hl: bool, show: bool, cn: Seq<Seq<Seq<char>>>,
    g: DiGraph<WorkspaceNode, DependencyEdge>, grp: (Seq<char>, Seq<int>)) -> Seq<char>
{
    line(Seq::empty()) + line("    subgraph "@ + mermaid_id_of(grp.0) + "_group[\""@ + grp.0 + "\"*]"@)
        + concat_all(grp.1.map_values(|i: int| mermaid_node_block(hl, show, cn, graph_nodes(g)[i], "        "@)))
        + line("    end"@)
}

/// The icon of a dependency type.
pub open spec fn type_icon(t: DependencyType) -> Seq<char> {
    match t {
        DependencyType::Normal => "📦"@,
        DependencyType::Dev => "🔧"@,
        DependencyType::Build => "🏗️"@,
    }
}

fn type_icon_str(t: DependencyType) -> (r: &'static str)
    ensures
        r@ == type_icon(t),
{
    match t {
        DependencyType::Normal => "📦",
        DependencyType::Dev => "🔧",
        DependencyType::Build => "🏗️",
    }
}

/// The word of a dependency type in Mermaid labels without crates.
pub open spec fn type_word(t: DependencyType) -> Seq<char> {
    match t {
        DependencyType::Normal => "uses"@,
        DependencyType::Dev => "dev"@,
        DependencyType::Build => "build"@,
    }
}

fn type_word_str(t: DependencyType) -> (r: &'static str)
    ensures
        r@ == type_word(t),
{
    match t {
        DependencyType::Normal => "uses",
        DependencyType::Dev => "dev",
        DependencyType::Build => "build",
    }
}

/// The Mermaid arrow of a dependency type.
pub open spec fn arrow_of(t: DependencyType) -> Seq<char> {
    match t {
        DependencyType::Normal => "-->"@,
        DependencyType::Dev => "-.->"@,
        DependencyType::Build => "===>"@,
    }
}

fn arrow_str(t: DependencyType) -> (r: &'static str)
    ensures
        r@ == arrow_of(t),
{
    match t {
        DependencyType::Normal => "-->",
        DependencyType::Dev => "-.->",
        DependencyType::Build => "===>",
    }
}

/// The Mermaid label of an edge group.
pub open spec fn mermaid_label(show: bool, g: DiGraph<WorkspaceNode, DependencyEdge>, grp: EdgeGroupView) -> Seq<char> {
    let n = grp.3.len();
    if show {
        if n > 1 {
            type_icon(grp.2) + " "@ + decimal(n) + " ("@ + dep_type_lower(grp.2) + ")"@
        } else {
            crate_pair(graph_edges(g)[grp.3[0]].2)
        }
    } else if n > 1 {
        type_icon(grp.2) + " "@ + decimal(n) + " "@ + type_word(grp.2)
    } else {
        type_icon(grp.2) + " "@ + type_word(grp.2)
    }
}

/// The Mermaid lines of the edge group at position `idx`: the arrow and its
/// link style.
#[verifier::opaque]
pub open spec fn mermaid_edge_block(hl: bool, show: bool, cn: Seq<Seq<Seq<char>>>,
    g: DiGraph<WorkspaceNode, DependencyEdge>, grp: EdgeGroupView, idx: nat) -> Seq<char>
{
    line("    "@ + mermaid_id_of(name_at(g, grp.0)) + " "@ + arrow_of(grp.2) + "|"@ + mermaid_label(show, g, grp)
        + "| "@ + mermaid_id_of(name_at(g, grp.1)))
        + (if group_in_cycle(hl, cn, g, grp) {
            line("    linkStyle "@ + decimal(idx) + " stroke:"@ + CYCLE_EDGE@ + ",stroke-width:3px"@)
        } else {
            line("    linkStyle "@ + decimal(idx) + " stroke:"@ + edge_color_of(grp.2) + ",stroke-width:2px"@)
        })
}

/// The icon of a severity in the Mermaid legend.
pub open spec fn severity_icon_mermaid(s: CycleSeverity) -> Seq<char> {
    match s {
        CycleSeverity::Low => "⚠️"@,
        CycleSeverity::Medium => "⚠️⚠️"@,
        CycleSeverity::High => "🚨🚨🚨"@,
    }
}

/// The Mermaid legend line of the cycle at position `i`.
#[verifier::opaque]
pub open spec fn mermaid_severity_line(c: CycleView, i: nat) -> Seq<char> {
    line("        CS"@ + decimal(i + 1) + "[\""@ + severity_icon_mermaid(severity_of(c)) + " Cycle "@ + decimal(i + 1)
        + ": "@ + decimal(c.0.len()) + " workspaces<br/>"@ + seq_join(c.0, " → "@) + "\"]"@)
}

/// The views of a list of cycles.
pub open spec fn cycle_views(cycles: Seq<WorkspaceCycle>) -> Seq<CycleView> {
    cycles.map_values(|c: WorkspaceCycle| c@)
}

/// The Mermaid legend and cycle severity list.
#[verifier::opaque]
pub open spec fn mermaid_legend(cycles: Seq<CycleView>) -> Seq<char> {
    line(Seq::empty()) + line("    subgraph Legend"@) + line("        L1[Normal Workspace]"@)
        + line("        L2[Workspace in Cycle]"@)
        + line("        style L1 fill:"@ + NORMAL_NODE_FILL@ + ",stroke:"@ + NORMAL_NODE_STROKE@ + ",stroke-width:2px"@)
        + line("        style L2 fill:"@ + CYCLE_NODE_FILL@ + ",stroke:"@ + CYCLE_NODE_STROKE@ + ",stroke-width:3px"@)
        + line("        style Legend fill:"@ + LEGEND_BG@ + ",stroke:#ddd,stroke-width:1px"@)
        + line("    end"@) + line(Seq::empty()) + line("    subgraph CycleSeverity[\"Cycle Severity\"]"@)
        + concat_all(Seq::new(cycles.len(), |i: int| mermaid_severity_line(cycles[i], i as nat)))
        + line("        style CycleSeverity fill:"@ + LEGEND_BG@ + ",stroke:#ddd,stroke-width:1px"@)
        + line("    end"@)
}

/// The whole Mermaid text of a graph: the prefix subgraphs, the ungrouped
/// workspaces, the edge groups and, with highlighted cycles, the legend.
pub open spec fn mermaid_text(hl: bool, show: bool, cycles: Seq<WorkspaceCycle>,
    g: DiGraph<WorkspaceNode, DependencyEdge>) -> Seq<char>
{
    let cn = cycle_names(cycles);
    let groups = edge_groups(g);
    let loose = ungrouped(node_names(g));
    line("graph TD"@)
        + concat_all(prefix_groups(node_names(g)).map_values(|grp: (Seq<char>, Seq<int>)| mermaid_subgraph(hl, show, cn, g, grp)))
        + (if loose.len() > 0 {
            line(Seq::empty()) + concat_all(loose.map_values(|i: int| mermaid_node_block(hl, show, cn, graph_nodes(g)[i], "    "@)))
        } else {
            Seq::empty()
        })
        + line(Seq::empty())
        + concat_all(Seq::new(groups.len(), |i: int| mermaid_edge_block(hl, show, cn, g, groups[i], i as nat)))
        + (if cycles.len() > 0 && hl { mermaid_legend(cycle_views(cycles)) } else { Seq::empty() })
}

/// The header of a workspace in the ASCII rendering: boxed and marked when
/// it is highlighted as part of a cycle.
pub open spec fn ascii_header(hl: bool, cn: Seq<Seq<Seq<char>>>, name: Seq<char>) -> Seq<char> {
    if hl && name_in_cycles(cn, name) {
        line("┌─────────────────────────────────────┐"@) + line("│ "@ + name + " ⚠️  IN CYCLE"@) + line("└─────────────────────────────────────┘"@)
    } else {
        line(name)
    }
}

/// The crate list of a workspace in the ASCII rendering.
pub open spec fn ascii_crates(show: bool, ws: WorkspaceNode) -> Seq<char> {
    if show && ws.crates@.len() > 0 {
        line("  📦 Crates: "@ + seq_join(views(ws.crates@), ", "@))
    } else {
        Seq::empty()
    }
}

/// The target of an edge, or `all targets`.
pub open spec fn target_text(e: DependencyEdge) -> Seq<char> {
    match e.target {
        Some(t) => t@,
        None => "all targets"@,
    }
}

/// A crate-level detail line under an edge group.
pub open spec fn ascii_detail(e: DependencyEdge, last_group: bool, last_detail: bool) -> Seq<char> {
    line((if last_group { "      "@ } else { "  │   "@ }) + (if last_detail { "└"@ } else { "├"@ }) + "── "@
        + e.from_crate@ + " → "@ + e.to_crate@ + " ("@ + target_text(e) + ")"@)
}

/// The edge count of a group: the type alone for one edge.
pub open spec fn ascii_count(n: nat, t: DependencyType) -> Seq<char> {
    if n > 1 {
        " ("@ + decimal(n) + " "@ + dep_type_lower(t) + " deps)"@
    } else {
        " ("@ + dep_type_lower(t) + ")"@
    }
}

/// The lines of the `i`-th edge group of node `u` in the ASCII rendering.
#[verifier::opaque]
pub open spec fn ascii_group(hl: bool, show: bool, cn: Seq<Seq<Seq<char>>>, g: DiGraph<WorkspaceNode, DependencyEdge>,
    u: int, keys: Seq<AsciiKey>, i: int) -> Seq<char>
{
    let key = keys[i];
    let last = i == keys.len() - 1;
    let es = key_edges(g, u, key);
    let tname = name_at(g, key.0);
    let marker = if hl && pair_in_cycles(cn, name_at(g, u), tname) { " ⚠️  [CYCLE]"@ } else { Seq::empty() };
    line("  "@ + (if last { "└──"@ } else { "├──"@ }) + " → "@ + tname + ascii_count(es.len(), key.1) + marker)
        + (if show {
            concat_all(Seq::new(es.len(), |j: int| ascii_detail(graph_edges(g)[es[j]].2, last, j == es.len() - 1)))
        } else {
            Seq::empty()
        })
}

/// The ASCII block of node `u`: header, crates, edge groups and a blank line.
#[verifier::opaque]
pub open spec fn ascii_node_block(hl: bool, show: bool, cn: Seq<Seq<Seq<char>>>,
    g: DiGraph<WorkspaceNode, DependencyEdge>, u: int) -> Seq<char>
{
    let ws = graph_nodes(g)[u];
    let keys = out_keys(g, u);
    ascii_header(hl, cn, ws.name@) + ascii_crates(show, ws)
        + (if keys.len() == 0 {
            line("  └── (no cross-workspace dependencies)"@)
        } else {
            concat_all(Seq::new(keys.len(), |i: int| ascii_group(hl, show, cn, g, u, keys, i)))
        })
        + line(Seq::empty())
}

/// The whole ASCII text of a graph.
pub open spec fn ascii_text(hl: bool, show: bool, cycles: Seq<WorkspaceCycle>,
    g: DiGraph<WorkspaceNode, DependencyEdge>) -> Seq<char>
{
    let cn = cycle_names(cycles);
    if graph_nodes(g).len() == 0 {
        line("No workspaces found to visualize"@)
    } else {
        line("\n📊 Workspace Dependency Graph\n"@)
            + concat_all(name_order(node_names_of(g), graph_nodes(g).len()).map_values(
                |u: int| ascii_node_block(hl, show, cn, g, u)))
            + (if cycles.len() > 0 && hl { line("⚠️  = Part of a dependency cycle"@) } else { Seq::empty() })
    }
}

/// Renders the workspace graph in the ASCII, Mermaid, DOT or D2 format.
pub struct GraphRenderer {
    highlight_cycles: bool,
    show_crates: bool,
}

impl GraphRenderer {
    /// Whether workspaces and edges in cycles are highlighted.
    pub closed spec fn highlights(&self) -> bool {
        self.highlight_cycles
    }

    /// Whether the crates of each workspace are shown.
    pub closed spec fn shows_crates(&self) -> bool {
        self.show_crates
    }

    pub fn new(highlight_cycles: bool, show_crates: bool) -> (r: Self)
        ensures
            r.highlights() == highlight_cycles,
            r.shows_crates() == show_crates,
    {
        GraphRenderer { highlight_cycles, show_crates }
    }

    /// A Mermaid node id for a workspace name: each character that is not
    /// alphanumeric becomes `_`.
    pub fn mermaid_id(&self, name: &str) -> (r: String)
        ensures
            r@ == mermaid_id_of(name@),
    {
        crate::graph::render_model::mermaid_id(name)
    }

    /// A D2 node id for a workspace name: quoted where it holds a space or
    /// a hyphen.
    pub fn d2_id(&self, name: &str) -> (r: String)
        ensures
            r@ == d2_id_of(name@),
    {
        crate::graph::render_model::d2_id(name)
    }

    /// How severe a cycle is, by its size and the kinds of its edges.
    pub fn calculate_cycle_severity(&self, cycle: &WorkspaceCycle) -> (r: CycleSeverity)
        ensures
            r == severity_of(cycle@),
    {
        cycle_severity(cycle)
    }

    /// The workspaces grouped by the prefix of their names, groups of one
    /// left out.
    pub fn group_workspaces_by_prefix(&self, graph: &DiGraph<WorkspaceNode, DependencyEdge>) -> (r: Vec<PrefixGroup>)
        ensures
            prefix_group_views(r@) == prefix_groups(node_names(*graph)),
    {
        crate::graph::render_model::group_workspaces_by_prefix(graph)
    }

    /// Whether both workspaces take part in one cycle.
    pub fn is_edge_in_cycle(&self, from: &str, to: &str, cycles_ws_names: &[Vec<String>]) -> (r: bool)
        ensures
            r == pair_in_cycles(nested_views(cycles_ws_names@), from@, to@),
    {
        pair_in_any_cycle(cycles_ws_names, from, to)
    }

    #[verifier::spinoff_prover]
    fn push_dot_node(&self, out: &mut String, names: &[Vec<String>], ws: &WorkspaceNode)
        ensures
            final(out)@ == old(out)@ + dot_node_line(self.highlights(), self.shows_crates(), nested_views(names@), *ws),
    {
        let hot = self.highlight_cycles && in_any_cycle(names, ws.name.as_str());
        push_str(out, "    \"");
        push_str(out, ws.name.as_str());
        push_str(out, "\" [label=\"");
        push_node_label(out, self.show_crates, ws);
        push_str(out, "\", style=filled, fillcolor=\"");
        push_str(out, if hot { CYCLE_NODE_FILL } else { NORMAL_NODE_FILL });
        push_str(out, "\", color=\"");
        push_str(out, if hot { CYCLE_NODE_STROKE } else { NORMAL_NODE_STROKE });
        push_str(out, "\", penwidth=2];");
        push_newline(out);
        reveal(dot_node_line);
        assert(final(out)@ =~= old(out)@ + dot_node_line(self.highlights(), self.shows_crates(), nested_views(names@), *ws));
    }

    #[verifier::spinoff_prover]
    fn push_dot_edge(&self, out: &mut String, graph: &DiGraph<WorkspaceNode, DependencyEdge>,
        names: &[Vec<String>], grp: &EdgeGroup)
        requires
            grp.source < graph_nodes(*graph).len(),
            grp.target < graph_nodes(*graph).len(),
            grp.edges@.len() >= 1,
            forall|j: int| 0 <= j < grp.edges@.len() ==> #[trigger] grp.edges@[j] < graph_edges(*graph).len(),
        ensures
            final(out)@ == old(out)@ + dot_edge_line(self.highlights(), self.shows_crates(),
                nested_views(names@), *graph, grp@),
    {
        let src = node_weight(graph, grp.source);
        let tgt = node_weight(graph, grp.target);
        let hot = self.highlight_cycles && pair_in_any_cycle(names, src.name.as_str(), tgt.name.as_str());
        push_str(out, "    \"");
        push_str(out, src.name.as_str());
        push_str(out, "\" -> \"");
        push_str(out, tgt.name.as_str());
        push_str(out, "\" [label=\"");
        self.push_group_label(out, graph, grp);
        if hot {
            push_str(out, "\", color=\"");
            push_str(out, CYCLE_EDGE);
            push_str(out, "\", penwidth=3];");
        } else {
            push_str(out, "\", color=\"");
            push_str(out, edge_color(grp.dep_type));
            push_str(out, "\", penwidth=2];");
        }
        push_newline(out);
        reveal(dot_edge_line);
        assert(final(out)@ =~= old(out)@ + dot_edge_line(self.highlights(), self.shows_crates(),
            nested_views(names@), *graph, grp@));
    }

    #[verifier::spinoff_prover]
    fn push_group_label(&self, out: &mut String, graph: &DiGraph<WorkspaceNode, DependencyEdge>, grp: &EdgeGroup)
        requires
            grp.edges@.len() >= 1,
            forall|j: int| 0 <= j < grp.edges@.len() ==> #[trigger] grp.edges@[j] < graph_edges(*graph).len(),
        ensures
            final(out)@ == old(out)@ + group_label(self.shows_crates(), *graph, grp@),
    {
        if grp.edges.len() > 1 {
            push_str(out, grp.dep_type.name().as_str());
            push_str(out, " - ");
            push_usize(out, grp.edges.len());
            push_str(out, " deps");
        } else if self.show_crates {
            let e = edge_weight(graph, grp.edges[0]);
            push_str(out, e.from_crate.as_str());
            push_str(out, " → ");
            push_str(out, e.to_crate.as_str());
        } else {
            push_str(out, grp.dep_type.name().as_str());
        }
        assert(final(out)@ =~= old(out)@ + group_label(self.shows_crates(), *graph, grp@));
    }

    /// The graph in Graphviz DOT format.
    #[verifier::spinoff_prover]
    pub fn render_dot(&self, graph: &DiGraph<WorkspaceNode, DependencyEdge>, cycles: &[WorkspaceCycle]) -> (r: String)
        ensures
            r@ == dot_text(self.highlights(), self.shows_crates(), cycle_names(cycles@), *graph),
    {
        let names = cycle_name_lists(cycles);
        let ghost cn = cycle_names(cycles@);
        let ghost hl = self.highlights();
        let ghost show = self.shows_crates();
        let mut out = String::new();
        push_line(&mut out, "digraph workspace_dependencies {");
        push_line(&mut out, "    rankdir=LR;");
        push_line(&mut out, "    node [shape=box, style=rounded];");
        push_newline(&mut out);
        let ghost head = out@;
        assert(head == line("digraph workspace_dependencies {"@) + line("    rankdir=LR;"@)
            + line("    node [shape=box, style=rounded];"@) + line(Seq::empty()));
        let ghost node_lines = graph_nodes(*graph).map_values(|ws: WorkspaceNode| dot_node_line(hl, show, cn, ws));
        let n = node_count(graph);
        for i in 0..n
            invariant
                n == graph_nodes(*graph).len(),
                node_lines.len() == n,
                node_lines == graph_nodes(*graph).map_values(|ws: WorkspaceNode| dot_node_line(hl, show, cn, ws)),
                nested_views(names@) == cn,
                hl == self.highlights(),
                show == self.shows_crates(),
                out@ == head + concat_all(node_lines.take(i as int)),
        {
            let ws = node_weight(graph, i);
            self.push_dot_node(&mut out, names.as_slice(), ws);
            proof { lemma_concat_take(node_lines, i as int); }
        }
        assert(node_lines.take(n as int) =~= node_lines);
        push_newline(&mut out);
        let ghost mid = out@;
        let groups = aggregate_edges(graph);
        let ghost edge_lines = edge_groups(*graph).map_values(|grp: EdgeGroupView| dot_edge_line(hl, show, cn, *graph, grp));
        for i in 0..groups.len()
            invariant
                group_views(groups@) == edge_groups(*graph),
                edge_lines.len() == groups@.len(),
                edge_lines == edge_groups(*graph).map_values(|grp: EdgeGroupView| dot_edge_line(hl, show, cn, *graph, grp)),
                forall|k: int| 0 <= k < groups@.len() ==> (#[trigger] groups@[k]).source < graph_nodes(*graph).len()
                    && groups@[k].target < graph_nodes(*graph).len(),
                forall|k: int, j: int| 0 <= k < groups@.len() && 0 <= j < groups@[k].edges@.len() ==>
                    #[trigger] groups@[k].edges@[j] < graph_edges(*graph).len(),
                nested_views(names@) == cn,
                hl == self.highlights(),
                show == self.shows_crates(),
                out@ == mid + concat_all(edge_lines.take(i as int)),
        {
            assert(group_views(groups@)[i as int] == groups@[i as int]@);
            proof { lemma_group_nonempty(*graph, i as int); }
            self.push_dot_edge(&mut out, graph, names.as_slice(), &groups[i]);
            proof { lemma_concat_take(edge_lines, i as int); }
        }
        assert(edge_lines.take(groups.len() as int) =~= edge_lines);
        push_line(&mut out, "}");
        out
    }

    #[verifier::spinoff_prover]
    fn push_d2_node(&self, out: &mut String, names: &[Vec<String>], ws: &WorkspaceNode)
        ensures
            final(out)@ == old(out)@ + d2_node_block(self.highlights(), self.shows_crates(), nested_views(names@), *ws),
    {
        let hot = self.highlight_cycles && in_any_cycle(names, ws.name.as_str());
        let id = d2_id(ws.name.as_str());
        push_str(out, id.as_str());
        push_str(out, ": ");
        push_node_label(out, self.show_crates, ws);
        push_line(out, " {");
        push_str(out, "  shape: ");
        push_line(out, if hot { "hexagon" } else { "rectangle" });
        push_str(out, "  style.fill: \"");
        push_str(out, if hot { CYCLE_NODE_FILL } else { NORMAL_NODE_FILL });
        push_line(out, "\"");
        push_str(out, "  style.stroke: \"");
        push_str(out, if hot { CYCLE_NODE_STROKE } else { NORMAL_NODE_STROKE });
        push_line(out, "\"");
        push_line(out, "}");
        push_newline(out);
        reveal(d2_node_block);
        assert(final(out)@ =~= old(out)@ + d2_node_block(self.highlights(), self.shows_crates(), nested_views(names@), *ws));
    }

    #[verifier::spinoff_prover]
    fn push_d2_edge(&self, out: &mut String, graph: &DiGraph<WorkspaceNode, DependencyEdge>,
        names: &[Vec<String>], grp: &EdgeGroup)
        requires
            grp.source < graph_nodes(*graph).len(),
            grp.target < graph_nodes(*graph).len(),
            grp.edges@.len() >= 1,
            forall|j: int| 0 <= j < grp.edges@.len() ==> #[trigger] grp.edges@[j] < graph_edges(*graph).len(),
        ensures
            final(out)@ == old(out)@ + d2_edge_block(self.highlights(), self.shows_crates(),
                nested_views(names@), *graph, grp@),
    {
        let src = node_weight(graph, grp.source);
        let tgt = node_weight(graph, grp.target);
        let hot = self.highlight_cycles && pair_in_any_cycle(names, src.name.as_str(), tgt.name.as_str());
        let sid = d2_id(src.name.as_str());
        let tid = d2_id(tgt.name.as_str());
        push_str(out, sid.as_str());
        push_str(out, " -> ");
        push_str(out, tid.as_str());
        push_str(out, ": ");
        self.push_group_label(out, graph, grp);
        push_line(out, " {");
        let ghost first = out@;
        Self::push_d2_stroke(out, hot, grp.dep_type);
        push_line(out, "}");
        reveal(d2_edge_block);
        assert(final(out)@ =~= old(out)@ + d2_edge_block(self.highlights(), self.shows_crates(),
            nested_views(names@), *graph, grp@));
    }

    #[verifier::spinoff_prover]
    fn push_d2_stroke(out: &mut String, hot: bool, t: DependencyType)
        ensures
            final(out)@ == old(out)@ + (if hot {
                line("  style.stroke: \""@ + CYCLE_EDGE@ + "\""@) + line("  style.stroke-width: 3"@)
            } else {
                line("  style.stroke: \""@ + edge_color_of(t) + "\""@) + line("  style.stroke-width: 2"@)
            }),
    {
        push_str(out, "  style.stroke: \"");
        if hot {
            push_str(out, CYCLE_EDGE);
            push_line(out, "\"");
            push_line(out, "  style.stroke-width: 3");
        } else {
            push_str(out, edge_color(t));
            push_line(out, "\"");
            push_line(out, "  style.stroke-width: 2");
        }
        assert(final(out)@ =~= old(out)@ + (if hot {
            line("  style.stroke: \""@ + CYCLE_EDGE@ + "\""@) + line("  style.stroke-width: 3"@)
        } else {
            line("  style.stroke: \""@ + edge_color_of(t) + "\""@) + line("  style.stroke-width: 2"@)
        }));
    }

    /// The graph in D2 format.
    #[verifier::spinoff_prover]
    pub fn render_d2(&self, graph: &DiGraph<WorkspaceNode, DependencyEdge>, cycles: &[WorkspaceCycle]) -> (r: String)
        ensures
            r@ == d2_text(self.highlights(), self.shows_crates(), cycle_names(cycles@), *graph),
    {
        let names = cycle_name_lists(cycles);
        let ghost cn = cycle_names(cycles@);
        let ghost hl = self.highlights();
        let ghost show = self.shows_crates();
        let mut out = String::new();
        push_line(&mut out, "# Workspace Dependency Graph\n");
        let ghost head = out@;
        let ghost node_blocks = graph_nodes(*graph).map_values(|ws: WorkspaceNode| d2_node_block(hl, show, cn, ws));
        let n = node_count(graph);
        for i in 0..n
            invariant
                n == graph_nodes(*graph).len(),
                node_blocks.len() == n,
                node_blocks == graph_nodes(*graph).map_values(|ws: WorkspaceNode| d2_node_block(hl, show, cn, ws)),
                nested_views(names@) == cn,
                hl == self.highlights(),
                show == self.shows_crates(),
                out@ == head + concat_all(node_blocks.take(i as int)),
        {
            let ws = node_weight(graph, i);
            self.push_d2_node(&mut out, names.as_slice(), ws);
            proof { lemma_concat_take(node_blocks, i as int); }
        }
        assert(node_blocks.take(n as int) =~= node_blocks);
        let ghost mid = out@;
        let groups = aggregate_edges(graph);
        let ghost edge_blocks = edge_groups(*graph).map_values(|grp: EdgeGroupView| d2_edge_block(hl, show, cn, *graph, grp));
        for i in 0..groups.len()
            invariant
                group_views(groups@) == edge_groups(*graph),
                edge_blocks.len() == groups@.len(),
                edge_blocks == edge_groups(*graph).map_values(|grp: EdgeGroupView| d2_edge_block(hl, show, cn, *graph, grp)),
                forall|k: int| 0 <= k < groups@.len() ==> (#[trigger] groups@[k]).source < graph_nodes(*graph).len()
                    && groups@[k].target < graph_nodes(*graph).len(),
                forall|k: int, j: int| 0 <= k < groups@.len() && 0 <= j < groups@[k].edges@.len() ==>
                    #[trigger] groups@[k].edges@[j] < graph_edges(*graph).len(),
                nested_views(names@) == cn,
                hl == self.highlights(),
                show == self.shows_crates(),
                out@ == mid + concat_all(edge_blocks.take(i as int)),
        {
            assert(group_views(groups@)[i as int] == groups@[i as int]@);
            proof { lemma_group_nonempty(*graph, i as int); }
            self.push_d2_edge(&mut out, graph, names.as_slice(), &groups[i]);
            proof { lemma_concat_take(edge_blocks, i as int); }
        }
        assert(edge_blocks.take(groups.len() as int) =~= edge_blocks);
        out
    }

    #[verifier::spinoff_prover]
    fn push_tooltip(out: &mut String, ws: &WorkspaceNode)
        ensures
            final(out)@ == old(out)@ + tooltip(*ws),
    {
        let n = ws.crates.len();
        push_str(out, "Workspace: ");
        push_str(out, ws.name.as_str());
        push_str(out, " - Crates: ");
        if n <= 3 {
            let j = join(ws.crates.as_slice(), ", ");
            assert(views(ws.crates@).take(n as int) =~= views(ws.crates@));
            push_str(out, j.as_str());
        } else {
            let j = join_first(ws.crates.as_slice(), 3, ", ");
            push_str(out, j.as_str());
            push_str(out, ", ... (");
            push_usize(out, n);
            push_str(out, " total)");
        }
        push_str(out, " - Total: ");
        push_usize(out, n);
        reveal(tooltip);
        assert(final(out)@ =~= old(out)@ + tooltip(*ws));
    }

    #[verifier::spinoff_prover]
    fn push_mermaid_shape(&self, out: &mut String, names: &[Vec<String>], ws: &WorkspaceNode, id: &String)
        requires
            id@ == mermaid_id_of(ws.name@),
        ensures
            final(out)@ == old(out)@ + mermaid_shape(self.highlights(), self.shows_crates(), nested_views(names@), *ws),
    {
        let hot = self.highlight_cycles && in_any_cycle(names, ws.name.as_str());
        let n = ws.crates.len();
        push_str(out, id.as_str());
        let (open, close) = if n > 5 {
            ("[\"", "\"]")
        } else if hot {
            ("((\"", "\"))")
        } else if n == 1 {
            ("([\"", "\"])")
        } else {
            ("[\"", "\"]")
        };
        push_str(out, open);
        push_node_label(out, self.show_crates, ws);
        push_str(out, close);
        reveal(mermaid_shape);
        assert(final(out)@ =~= old(out)@ + mermaid_shape(self.highlights(), self.shows_crates(), nested_views(names@), *ws));
    }

    #[verifier::spinoff_prover]
    fn push_mermaid_style(&self, out: &mut String, names: &[Vec<String>], ws: &WorkspaceNode, id: &String, indent: &str)
        requires
            id@ == mermaid_id_of(ws.name@),
        ensures
            final(out)@ == old(out)@ + (if node_in_cycle(self.highlights(), nested_views(names@), *ws) {
                line(indent@ + "style "@ + id@ + " fill:"@ + CYCLE_NODE_FILL@ + ",stroke:"@ + CYCLE_NODE_STROKE@
                    + ",stroke-width:3px"@)
            } else {
                line(indent@ + "style "@ + id@ + " fill:"@ + NORMAL_NODE_FILL@ + ",stroke:"@ + NORMAL_NODE_STROKE@
                    + ",stroke-width:2px"@)
            }),
    {
        let hot = self.highlight_cycles && in_any_cycle(names, ws.name.as_str());
        push_str(out, indent);
        push_str(out, "style ");
        push_str(out, id.as_str());
        push_str(out, " fill:");
        if hot {
            push_str(out, CYCLE_NODE_FILL);
            push_str(out, ",stroke:");
            push_str(out, CYCLE_NODE_STROKE);
            push_line(out, ",stroke-width:3px");
            assert(final(out)@ =~= old(out)@ + line(indent@ + "style "@ + id@ + " fill:"@ + CYCLE_NODE_FILL@ + ",stroke:"@
                + CYCLE_NODE_STROKE@ + ",stroke-width:3px"@));
        } else {
            push_str(out, NORMAL_NODE_FILL);
            push_str(out, ",stroke:");
            push_str(out, NORMAL_NODE_STROKE);
            push_line(out, ",stroke-width:2px");
            assert(final(out)@ =~= old(out)@ + line(indent@ + "style "@ + id@ + " fill:"@ + NORMAL_NODE_FILL@ + ",stroke:"@
                + NORMAL_NODE_STROKE@ + ",stroke-width:2px"@));
        }
    }

    #[verifier::spinoff_prover]
    fn push_mermaid_node(&self, out: &mut String, names: &[Vec<String>], ws: &WorkspaceNode, indent: &str)
        ensures
            final(out)@ == old(out)@ + mermaid_node_block(self.highlights(), self.shows_crates(),
                nested_views(names@), *ws, indent@),
    {
        let id = mermaid_id(ws.name.as_str());
        let ghost start = out@;
        push_str(out, indent);
        self.push_mermaid_shape(out, names, ws, &id);
        push_newline(out);
        let ghost first = out@;
        assert(first =~= start + line(indent@ + mermaid_shape(self.highlights(), self.shows_crates(),
            nested_views(names@), *ws)));
        push_str(out, indent);
        push_str(out, "click ");
        push_str(out, id.as_str());
        push_str(out, " \"");
        Self::push_tooltip(out, ws);
        push_line(out, "\"");
        let ghost second = out@;
        assert(second =~= first + line(indent@ + "click "@ + id@ + " \""@ + tooltip(*ws) + "\""@));
        self.push_mermaid_style(out, names, ws, &id, indent);
        reveal(mermaid_node_block);
    }

    #[verifier::spinoff_prover]
    fn push_mermaid_subgraph(&self, out: &mut String, graph: &DiGraph<WorkspaceNode, DependencyEdge>,
        names: &[Vec<String>], grp: &PrefixGroup)
        requires
            forall|j: int| 0 <= j < grp.nodes@.len() ==> #[trigger] grp.nodes@[j] < graph_nodes(*graph).len(),
        ensures
            final(out)@ == old(out)@ + mermaid_subgraph(self.highlights(), self.shows_crates(), nested_views(names@),
                *graph, (grp.prefix@, grp.nodes@.map_values(|i: usize| i as int))),
    {
        let ghost hl = self.highlights();
        let ghost show = self.shows_crates();
        let ghost cn = nested_views(names@);
        let ghost idx = grp.nodes@.map_values(|i: usize| i as int);
        let ghost blocks = idx.map_values(|i: int| mermaid_node_block(hl, show, cn, graph_nodes(*graph)[i], "        "@));
        push_newline(out);
        push_str(out, "    subgraph ");
        let id = mermaid_id(grp.prefix.as_str());
        push_str(out, id.as_str());
        push_str(out, "_group[\"");
        push_str(out, grp.prefix.as_str());
        push_str(out, "\"*]");
        push_newline(out);
        let ghost head = out@;
        assert(head =~= old(out)@ + line(Seq::empty()) + line("    subgraph "@ + mermaid_id_of(grp.prefix@)
            + "_group[\""@ + grp.prefix@ + "\"*]"@));
        for k in 0..grp.nodes.len()
            invariant
                forall|j: int| 0 <= j < grp.nodes@.len() ==> #[trigger] grp.nodes@[j] < graph_nodes(*graph).len(),
                idx == grp.nodes@.map_values(|i: usize| i as int),
                blocks == idx.map_values(|i: int| mermaid_node_block(hl, show, cn, graph_nodes(*graph)[i], "        "@)),
                hl == self.highlights(),
                show == self.shows_crates(),
                cn == nested_views(names@),
                out@ == head + concat_all(blocks.take(k as int)),
        {
            let ws = node_weight(graph, grp.nodes[k]);
            self.push_mermaid_node(out, names, ws, "        ");
            proof { lemma_concat_take(blocks, k as int); }
        }
        assert(blocks.take(grp.nodes.len() as int) =~= blocks);
        push_line(out, "    end");
        reveal(mermaid_subgraph);
    }

    #[verifier::spinoff_prover]
    fn push_mermaid_label(&self, out: &mut String, graph: &DiGraph<WorkspaceNode, DependencyEdge>, grp: &EdgeGroup)
        requires
            grp.edges@.len() >= 1,
            forall|j: int| 0 <= j < grp.edges@.len() ==> #[trigger] grp.edges@[j] < graph_edges(*graph).len(),
        ensures
            final(out)@ == old(out)@ + mermaid_label(self.shows_crates(), *graph, grp@),
    {
        let n = grp.edges.len();
        if self.show_crates && n <= 1 {
            let e = edge_weight(graph, grp.edges[0]);
            push_str(out, e.from_crate.as_str());
            push_str(out, " → ");
            push_str(out, e.to_crate.as_str());
        } else {
            push_str(out, type_icon_str(grp.dep_type));
            push_str(out, " ");
            if self.show_crates {
                push_usize(out, n);
                push_str(out, " (");
                push_str(out, grp.dep_type.lower_name());
                push_str(out, ")");
            } else {
                if n > 1 {
                    push_usize(out, n);
                    push_str(out, " ");
                }
                push_str(out, type_word_str(grp.dep_type));
            }
        }
        assert(final(out)@ =~= old(out)@ + mermaid_label(self.shows_crates(), *graph, grp@));
    }

    #[verifier::spinoff_prover]
    fn push_link_style(out: &mut String, hot: bool, t: DependencyType, idx: usize)
        ensures
            final(out)@ == old(out)@ + (if hot {
                line("    linkStyle "@ + decimal(idx as nat) + " stroke:"@ + CYCLE_EDGE@ + ",stroke-width:3px"@)
            } else {
                line("    linkStyle "@ + decimal(idx as nat) + " stroke:"@ + edge_color_of(t) + ",stroke-width:2px"@)
            }),
    {
        push_str(out, "    linkStyle ");
        push_usize(out, idx);
        push_str(out, " stroke:");
        if hot {
            push_str(out, CYCLE_EDGE);
            push_line(out, ",stroke-width:3px");
        } else {
            push_str(out, edge_color(t));
            push_line(out, ",stroke-width:2px");
        }
        assert(final(out)@ =~= old(out)@ + (if hot {
            line("    linkStyle "@ + decimal(idx as nat) + " stroke:"@ + CYCLE_EDGE@ + ",stroke-width:3px"@)
        } else {
            line("    linkStyle "@ + decimal(idx as nat) + " stroke:"@ + edge_color_of(t) + ",stroke-width:2px"@)
        }));
    }

    #[verifier::spinoff_prover]
    fn push_mermaid_edge(&self, out: &mut String, graph: &DiGraph<WorkspaceNode, DependencyEdge>,
        names: &[Vec<String>], grp: &EdgeGroup, idx: usize)
        requires
            grp.source < graph_nodes(*graph).len(),
            grp.target < graph_nodes(*graph).len(),
            grp.edges@.len() >= 1,
            forall|j: int| 0 <= j < grp.edges@.len() ==> #[trigger] grp.edges@[j] < graph_edges(*graph).len(),
        ensures
            final(out)@ == old(out)@ + mermaid_edge_block(self.highlights(), self.shows_crates(),
                nested_views(names@), *graph, grp@, idx as nat),
    {
        let src = node_weight(graph, grp.source);
        let tgt = node_weight(graph, grp.target);
        let hot = self.highlight_cycles && pair_in_any_cycle(names, src.name.as_str(), tgt.name.as_str());
        let sid = mermaid_id(src.name.as_str());
        let tid = mermaid_id(tgt.name.as_str());
        push_str(out, "    ");
        push_str(out, sid.as_str());
        push_str(out, " ");
        push_str(out, arrow_str(grp.dep_type));
        push_str(out, "|");
        self.push_mermaid_label(out, graph, grp);
        push_str(out, "| ");
        push_line(out, tid.as_str());
        let ghost first = out@;
        assert(first =~= old(out)@ + line("    "@ + mermaid_id_of(name_at(*graph, grp@.0)) + " "@ + arrow_of(grp@.2)
            + "|"@ + mermaid_label(self.shows_crates(), *graph, grp@) + "| "@ + mermaid_id_of(name_at(*graph, grp@.1))));
        Self::push_link_style(out, hot, grp.dep_type, idx);
        reveal(mermaid_edge_block);
    }

    #[verifier::spinoff_prover]
    fn push_severity_line(out: &mut String, cycle: &WorkspaceCycle, i: usize)
        requires
            i < usize::MAX,
        ensures
            final(out)@ == old(out)@ + mermaid_severity_line(cycle@, i as nat),
    {
        let severity = cycle_severity(cycle);
        push_str(out, "        CS");
        push_usize(out, i + 1);
        push_str(out, "[\"");
        match severity {
            CycleSeverity::Low => push_str(out, "⚠️"),
            CycleSeverity::Medium => push_str(out, "⚠️⚠️"),
            CycleSeverity::High => push_str(out, "🚨🚨🚨"),
        }
        push_str(out, " Cycle ");
        push_usize(out, i + 1);
        push_str(out, ": ");
        push_usize(out, cycle.workspace_names().len());
        push_str(out, " workspaces<br/>");
        let list = join(cycle.workspace_names(), " → ");
        push_str(out, list.as_str());
        push_str(out, "\"]");
        push_newline(out);
        reveal(mermaid_severity_line);
        assert(final(out)@ =~= old(out)@ + mermaid_severity_line(cycle@, i as nat));
    }

    #[verifier::spinoff_prover]
    fn push_legend_head(out: &mut String)
        ensures
            final(out)@ == old(out)@ + line(Seq::empty()) + line("    subgraph Legend"@) + line("        L1[Normal Workspace]"@)
                + line("        L2[Workspace in Cycle]"@)
                + line("        style L1 fill:"@ + NORMAL_NODE_FILL@ + ",stroke:"@ + NORMAL_NODE_STROKE@ + ",stroke-width:2px"@)
                + line("        style L2 fill:"@ + CYCLE_NODE_FILL@ + ",stroke:"@ + CYCLE_NODE_STROKE@ + ",stroke-width:3px"@)
                + line("        style Legend fill:"@ + LEGEND_BG@ + ",stroke:#ddd,stroke-width:1px"@)
                + line("    end"@) + line(Seq::empty()) + line("    subgraph CycleSeverity[\"Cycle Severity\"]"@),
    {
        let ghost s0 = out@;
        push_newline(out);
        push_line(out, "    subgraph Legend");
        push_line(out, "        L1[Normal Workspace]");
        push_line(out, "        L2[Workspace in Cycle]");
        let ghost s1 = out@;
        push_str(out, "        style L1 fill:");
        push_str(out, NORMAL_NODE_FILL);
        push_str(out, ",stroke:");
        push_str(out, NORMAL_NODE_STROKE);
        push_line(out, ",stroke-width:2px");
        let ghost s2 = out@;
        assert(s2 =~= s1 + line("        style L1 fill:"@ + NORMAL_NODE_FILL@ + ",stroke:"@ + NORMAL_NODE_STROKE@ + ",stroke-width:2px"@));
        push_str(out, "        style L2 fill:");
        push_str(out, CYCLE_NODE_FILL);
        push_str(out, ",stroke:");
        push_str(out, CYCLE_NODE_STROKE);
        push_line(out, ",stroke-width:3px");
        let ghost s3 = out@;
        assert(s3 =~= s2 + line("        style L2 fill:"@ + CYCLE_NODE_FILL@ + ",stroke:"@ + CYCLE_NODE_STROKE@ + ",stroke-width:3px"@));
        push_str(out, "        style Legend fill:");
        push_str(out, LEGEND_BG);
        push_line(out, ",stroke:#ddd,stroke-width:1px");
        let ghost s4 = out@;
        assert(s4 =~= s3 + line("        style Legend fill:"@ + LEGEND_BG@ + ",stroke:#ddd,stroke-width:1px"@));
        push_line(out, "    end");
        push_newline(out);
        push_line(out, "    subgraph CycleSeverity[\"Cycle Severity\"]");
        assert(line(Seq::<char>::empty()) =~= seq!['\n']);
    }

    #[verifier::spinoff_prover]
    fn push_mermaid_legend(out: &mut String, cycles: &[WorkspaceCycle])
        ensures
            final(out)@ == old(out)@ + mermaid_legend(cycle_views(cycles@)),
    {
        let ghost cv = cycle_views(cycles@);
        Self::push_legend_head(out);
        let ghost head = out@;
        let ghost lines = Seq::new(cv.len(), |i: int| mermaid_severity_line(cv[i], i as nat));
        for i in 0..cycles.len()
            invariant
                cv == cycle_views(cycles@),
                lines == Seq::new(cv.len(), |i: int| mermaid_severity_line(cv[i], i as nat)),
                out@ == head + concat_all(lines.take(i as int)),
        {
            Self::push_severity_line(out, &cycles[i], i);
            proof { lemma_concat_take(lines, i as int); }
        }
        assert(lines.take(cycles.len() as int) =~= lines);
        let ghost body = out@;
        push_str(out, "        style CycleSeverity fill:");
        push_str(out, LEGEND_BG);
        push_line(out, ",stroke:#ddd,stroke-width:1px");
        push_line(out, "    end");
        assert(out@ =~= body + line("        style CycleSeverity fill:"@ + LEGEND_BG@ + ",stroke:#ddd,stroke-width:1px"@)
            + line("    end"@));
        reveal(mermaid_legend);
    }

    /// The graph as a Mermaid flowchart.
    #[verifier::spinoff_prover]
    pub fn render_mermaid(&self, graph: &DiGraph<WorkspaceNode, DependencyEdge>, cycles: &[WorkspaceCycle]) -> (r: String)
        ensures
            r@ == mermaid_text(self.highlights(), self.shows_crates(), cycles@, *graph),
    {
        let names = cycle_name_lists(cycles);
        let ghost cn = cycle_names(cycles@);
        let ghost hl = self.highlights();
        let ghost show = self.shows_crates();
        let mut out = String::new();
        push_line(&mut out, "graph TD");
        let ghost head = out@;
        let prefix_grps = group_workspaces_by_prefix(graph);
        let ghost pg = prefix_group_views(prefix_grps@);
        let ghost subgraphs = pg.map_values(|grp: (Seq<char>, Seq<int>)| mermaid_subgraph(hl, show, cn, *graph, grp));
        for i in 0..prefix_grps.len()
            invariant
                pg == prefix_group_views(prefix_grps@),
                pg == prefix_groups(node_names(*graph)),
                subgraphs == pg.map_values(|grp: (Seq<char>, Seq<int>)| mermaid_subgraph(hl, show, cn, *graph, grp)),
                forall|k: int, j: int| 0 <= k < prefix_grps@.len() && 0 <= j < prefix_grps@[k].nodes@.len() ==>
                    #[trigger] prefix_grps@[k].nodes@[j] < graph_nodes(*graph).len(),
                nested_views(names@) == cn,
                hl == self.highlights(),
                show == self.shows_crates(),
                out@ == head + concat_all(subgraphs.take(i as int)),
        {
            assert(pg[i as int] == (prefix_grps@[i as int].prefix@, prefix_grps@[i as int].nodes@.map_values(|i: usize| i as int)));
            self.push_mermaid_subgraph(&mut out, graph, names.as_slice(), &prefix_grps[i]);
            proof { lemma_concat_take(subgraphs, i as int); }
        }
        assert(subgraphs.take(prefix_grps.len() as int) =~= subgraphs);
        let ghost after_groups = out@;
        let loose = ungrouped_nodes(graph);
        let ghost lv = loose@.map_values(|i: usize| i as int);
        let ghost loose_blocks = lv.map_values(|i: int| mermaid_node_block(hl, show, cn, graph_nodes(*graph)[i], "    "@));
        if loose.len() > 0 {
            push_newline(&mut out);
            let ghost lhead = out@;
            for k in 0..loose.len()
                invariant
                    lv == loose@.map_values(|i: usize| i as int),
                    forall|j: int| 0 <= j < loose@.len() ==> #[trigger] loose@[j] < graph_nodes(*graph).len(),
                    loose_blocks == lv.map_values(|i: int| mermaid_node_block(hl, show, cn, graph_nodes(*graph)[i], "    "@)),
                    nested_views(names@) == cn,
                    hl == self.highlights(),
                    show == self.shows_crates(),
                    out@ == lhead + concat_all(loose_blocks.take(k as int)),
            {
                let ws = node_weight(graph, loose[k]);
                self.push_mermaid_node(&mut out, names.as_slice(), ws, "    ");
                proof { lemma_concat_take(loose_blocks, k as int); }
            }
            assert(loose_blocks.take(loose.len() as int) =~= loose_blocks);
        }
        push_newline(&mut out);
        let ghost mid = out@;
        assert(mid =~= head + concat_all(subgraphs) + (if lv.len() > 0 {
            line(Seq::empty()) + concat_all(loose_blocks)
        } else {
            Seq::empty()
        }) + line(Seq::empty()));
        let groups = aggregate_edges(graph);
        let ghost eg = edge_groups(*graph);
        let ghost edge_blocks = Seq::new(eg.len(), |i: int| mermaid_edge_block(hl, show, cn, *graph, eg[i], i as nat));
        for i in 0..groups.len()
            invariant
                group_views(groups@) == eg,
                eg == edge_groups(*graph),
                edge_blocks == Seq::new(eg.len(), |i: int| mermaid_edge_block(hl, show, cn, *graph, eg[i], i as nat)),
                forall|k: int| 0 <= k < groups@.len() ==> (#[trigger] groups@[k]).source < graph_nodes(*graph).len()
                    && groups@[k].target < graph_nodes(*graph).len(),
                forall|k: int, j: int| 0 <= k < groups@.len() && 0 <= j < groups@[k].edges@.len() ==>
                    #[trigger] groups@[k].edges@[j] < graph_edges(*graph).len(),
                nested_views(names@) == cn,
                hl == self.highlights(),
                show == self.shows_crates(),
                out@ == mid + concat_all(edge_blocks.take(i as int)),
        {
            assert(group_views(groups@)[i as int] == groups@[i as int]@);
            proof { lemma_group_nonempty(*graph, i as int); }
            self.push_mermaid_edge(&mut out, graph, names.as_slice(), &groups[i], i);
            proof { lemma_concat_take(edge_blocks, i as int); }
        }
        assert(edge_blocks.take(groups.len() as int) =~= edge_blocks);
        if cycles.len() > 0 && self.highlight_cycles {
            Self::push_mermaid_legend(&mut out, cycles);
        }
        out
    }

    #[verifier::spinoff_prover]
    fn push_ascii_detail(out: &mut String, e: &DependencyEdge, last_group: bool, last_detail: bool)
        ensures
            final(out)@ == old(out)@ + ascii_detail(*e, last_group, last_detail),
    {
        push_str(out, if last_group { "      " } else { "  │   " });
        push_str(out, if last_detail { "└" } else { "├" });
        push_str(out, "── ");
        push_str(out, e.from_crate.as_str());
        push_str(out, " → ");
        push_str(out, e.to_crate.as_str());
        push_str(out, " (");
        match &e.target {
            Some(t) => push_str(out, t.as_str()),
            None => push_str(out, "all targets"),
        }
        push_line(out, ")");
        assert(final(out)@ =~= old(out)@ + ascii_detail(*e, last_group, last_detail));
    }

    #[verifier::spinoff_prover]
    fn push_ascii_count(out: &mut String, count: usize, t: DependencyType)
        ensures
            final(out)@ == old(out)@ + ascii_count(count as nat, t),
    {
        push_str(out, " (");
        if count > 1 {
            push_usize(out, count);
            push_str(out, " ");
            push_str(out, t.lower_name());
            push_str(out, " deps)");
        } else {
            push_str(out, t.lower_name());
            push_str(out, ")");
        }
        assert(final(out)@ =~= old(out)@ + ascii_count(count as nat, t));
    }

    #[verifier::spinoff_prover]
    fn push_ascii_group_line(&self, out: &mut String, graph: &DiGraph<WorkspaceNode, DependencyEdge>,
        names: &[Vec<String>], u: usize, key: (usize, DependencyType), last: bool, count: usize)
        requires
            u < graph_nodes(*graph).len(),
            key.0 < graph_nodes(*graph).len(),
        ensures
            final(out)@ == old(out)@ + line("  "@ + (if last { "└──"@ } else { "├──"@ }) + " → "@ + name_at(*graph, key.0 as int)
                + ascii_count(count as nat, key.1)
                + (if self.highlights() && pair_in_cycles(nested_views(names@), name_at(*graph, u as int), name_at(*graph, key.0 as int)) {
                    " ⚠️  [CYCLE]"@
                } else {
                    Seq::empty()
                })),
    {
        let from = node_weight(graph, u);
        let to = node_weight(graph, key.0);
        let hot = self.highlight_cycles && pair_in_any_cycle(names, from.name.as_str(), to.name.as_str());
        push_str(out, "  ");
        push_str(out, if last { "└──" } else { "├──" });
        push_str(out, " → ");
        push_str(out, to.name.as_str());
        Self::push_ascii_count(out, count, key.1);
        let marker = if hot { " ⚠️  [CYCLE]" } else { "" };
        push_line(out, marker);
        proof { reveal_strlit(""); }
        assert(final(out)@ =~= old(out)@ + line("  "@ + (if last { "└──"@ } else { "├──"@ }) + " → "@ + name_at(*graph, key.0 as int)
            + ascii_count(count as nat, key.1)
            + (if hot { " ⚠️  [CYCLE]"@ } else { Seq::empty() })));
    }

    #[verifier::spinoff_prover]
    fn push_ascii_group(&self, out: &mut String, graph: &DiGraph<WorkspaceNode, DependencyEdge>,
        names: &[Vec<String>], u: usize, keys: &Vec<(usize, DependencyType)>, i: usize)
        requires
            u < graph_nodes(*graph).len(),
            i < keys@.len(),
            forall|j: int| 0 <= j < keys@.len() ==> (#[trigger] keys@[j]).0 < graph_nodes(*graph).len(),
        ensures
            final(out)@ == old(out)@ + ascii_group(self.highlights(), self.shows_crates(), nested_views(names@),
                *graph, u as int, key_views(keys@), i as int),
    {
        let ghost kv = key_views(keys@);
        let key = keys[i];
        assert(kv[i as int] == (key.0 as int, key.1));
        let last = i == keys.len() - 1;
        let es = edges_with_key(graph, u, key);
        let ghost ev = es@.map_values(|k: usize| k as int);
        self.push_ascii_group_line(out, graph, names, u, key, last, es.len());
        let ghost head = out@;
        let ghost details = Seq::new(ev.len(), |j: int| ascii_detail(graph_edges(*graph)[ev[j]].2, last, j == ev.len() - 1));
        if self.show_crates {
            for j in 0..es.len()
                invariant
                    ev == es@.map_values(|k: usize| k as int),
                    forall|q: int| 0 <= q < es@.len() ==> #[trigger] es@[q] < graph_edges(*graph).len(),
                    details == Seq::new(ev.len(), |j: int| ascii_detail(graph_edges(*graph)[ev[j]].2, last, j == ev.len() - 1)),
                    out@ == head + concat_all(details.take(j as int)),
            {
                let e = edge_weight(graph, es[j]);
                Self::push_ascii_detail(out, e, last, j == es.len() - 1);
                proof { lemma_concat_take(details, j as int); }
            }
            assert(details.take(es.len() as int) =~= details);
        }
        reveal(ascii_group);
    }

    #[verifier::spinoff_prover]
    fn push_ascii_header(&self, out: &mut String, names: &[Vec<String>], ws: &WorkspaceNode)
        ensures
            final(out)@ == old(out)@ + ascii_header(self.highlights(), nested_views(names@), ws.name@)
                + ascii_crates(self.shows_crates(), *ws),
    {
        if self.highlight_cycles && in_any_cycle(names, ws.name.as_str()) {
            push_line(out, "┌─────────────────────────────────────┐");
            push_str(out, "│ ");
            push_str(out, ws.name.as_str());
            push_line(out, " ⚠️  IN CYCLE");
            push_line(out, "└─────────────────────────────────────┘");
        } else {
            push_line(out, ws.name.as_str());
        }
        let ghost mid = out@;
        assert(mid =~= old(out)@ + ascii_header(self.highlights(), nested_views(names@), ws.name@));
        if self.show_crates && ws.crates.len() > 0 {
            push_str(out, "  📦 Crates: ");
            let j = join(ws.crates.as_slice(), ", ");
            push_line(out, j.as_str());
        }
        assert(final(out)@ =~= mid + ascii_crates(self.shows_crates(), *ws));
    }

    #[verifier::spinoff_prover]
    fn push_ascii_node(&self, out: &mut String, graph: &DiGraph<WorkspaceNode, DependencyEdge>,
        names: &[Vec<String>], u: usize)
        requires
            u < graph_nodes(*graph).len(),
        ensures
            final(out)@ == old(out)@ + ascii_node_block(self.highlights(), self.shows_crates(), nested_views(names@),
                *graph, u as int),
    {
        let ghost hl = self.highlights();
        let ghost show = self.shows_crates();
        let ghost cn = nested_views(names@);
        let ws = node_weight(graph, u);
        self.push_ascii_header(out, names, ws);
        let ghost head = out@;
        let keys = outgoing_keys(graph, u);
        let ghost kv = key_views(keys@);
        let ghost groups = Seq::new(kv.len(), |i: int| ascii_group(hl, show, cn, *graph, u as int, kv, i));
        if keys.len() == 0 {
            push_line(out, "  └── (no cross-workspace dependencies)");
        } else {
            for i in 0..keys.len()
                invariant
                    kv == key_views(keys@),
                    u < graph_nodes(*graph).len(),
                    forall|j: int| 0 <= j < keys@.len() ==> (#[trigger] keys@[j]).0 < graph_nodes(*graph).len(),
                    groups == Seq::new(kv.len(), |i: int| ascii_group(hl, show, cn, *graph, u as int, kv, i)),
                    hl == self.highlights(),
                    show == self.shows_crates(),
                    cn == nested_views(names@),
                    out@ == head + concat_all(groups.take(i as int)),
            {
                self.push_ascii_group(out, graph, names, u, &keys, i);
                proof { lemma_concat_take(groups, i as int); }
            }
            assert(groups.take(keys.len() as int) =~= groups);
        }
        push_newline(out);
        reveal(ascii_node_block);
        assert(final(out)@ =~= old(out)@ + ascii_node_block(hl, show, cn, *graph, u as int));
    }

    /// The graph as indented text, workspaces in order of name.
    #[verifier::spinoff_prover]
    pub fn render_ascii(&self, graph: &DiGraph<WorkspaceNode, DependencyEdge>, cycles: &[WorkspaceCycle]) -> (r: String)
        ensures
            r@ == ascii_text(self.highlights(), self.shows_crates(), cycles@, *graph),
    {
        let mut out = String::new();
        if node_count(graph) == 0 {
            push_line(&mut out, "No workspaces found to visualize");
            return out;
        }
        let names = cycle_name_lists(cycles);
        let ghost cn = cycle_names(cycles@);
        let ghost hl = self.highlights();
        let ghost show = self.shows_crates();
        push_line(&mut out, "\n📊 Workspace Dependency Graph\n");
        let ghost head = out@;
        let order = sorted_node_order(graph);
        let ghost ov = order@.map_values(|i: usize| i as int);
        let ghost blocks = ov.map_values(|u: int| ascii_node_block(hl, show, cn, *graph, u));
        for i in 0..order.len()
            invariant
                ov == order@.map_values(|i: usize| i as int),
                forall|j: int| 0 <= j < order@.len() ==> #[trigger] order@[j] < graph_nodes(*graph).len(),
                blocks == ov.map_values(|u: int| ascii_node_block(hl, show, cn, *graph, u)),
                hl == self.highlights(),
                show == self.shows_crates(),
                cn == nested_views(names@),
                out@ == head + concat_all(blocks.take(i as int)),
        {
            self.push_ascii_node(&mut out, graph, names.as_slice(), order[i]);
            proof { lemma_concat_take(blocks, i as int); }
        }
        assert(blocks.take(order.len() as int) =~= blocks);
        if cycles.len() > 0 && self.highlight_cycles {
            push_line(&mut out, "⚠️  = Part of a dependency cycle");
        }
        out
    }

    /// A summary of the cycles: for each its severity, workspaces, dependency
    /// types, edges by direction and suggested break points.
    #[verifier::spinoff_prover]
    pub fn render_cycle_summary(&self, cycles: &[WorkspaceCycle]) -> (r: String)
        ensures
            r@ == summary_text(self.shows_crates(), cycles@),
    {
        let mut out = String::new();
        push_line(&mut out, "\n🔄 Dependency Cycles Summary\n");
        if cycles.len() == 0 {
            push_line(&mut out, "✅ No dependency cycles detected!");
            return out;
        }
        let ghost show = self.shows_crates();
        let ghost head = out@;
        let ghost blocks = Seq::new(cycles@.len(), |i: int| cycle_block(show, cycles@[i]@, cycles@[i].directions(), i as nat));
        for i in 0..cycles.len()
            invariant
                show == self.shows_crates(),
                blocks == Seq::new(cycles@.len(), |i: int| cycle_block(show, cycles@[i]@, cycles@[i].directions(), i as nat)),
                out@ == head + concat_all(blocks.take(i as int)),
        {
            push_cycle_block(&mut out, self.show_crates, &cycles[i], i);
            proof { lemma_concat_take(blocks, i as int); }
        }
        assert(blocks.take(cycles.len() as int) =~= blocks);
        push_line(&mut out, "\n📝 General recommendations:");
        push_line(&mut out, "  • Focus on breaking dev/build dependencies first (easier to refactor)");
        push_line(&mut out, "  • Consider extracting shared code into a separate workspace");
        push_line(&mut out, "  • Break cycles at the point with the fewest dependencies");
        out
    }
}

/// Every edge group holds at least one edge.
pub proof fn lemma_group_nonempty(g: DiGraph<WorkspaceNode, DependencyEdge>, i: int)
    requires
        0 <= i < edge_groups(g).len(),
    ensures
        edge_groups(g)[i].3.len() >= 1,
{
    crate::graph::render_model::lemma_groups_nonempty(graph_edges(g), graph_edges(g).len());
}

} // verus!
