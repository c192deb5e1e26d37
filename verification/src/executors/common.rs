//! The steps the executors share: building the dependency graph the
//! configuration asks for, and writing a cycle report in a chosen format.

use vstd::prelude::*;

use crate::analyzer::analyzer_impl::WorkspaceAnalyzer;
use crate::assoc::{list_views, str_pairs};
use crate::cli::OutputFormat;
use crate::detector::cycle::CycleView;
use crate::detector::CycleDetector;
use crate::error::FerrisWheelError;
use crate::dependency_filter::DependencyFilter;
use crate::graph::builder::{
    cross_nodes, cross_overflow, cross_result, dependency_total, edge_list, flat_members, intra_edges_upto, intra_nodes,
    lemma_intra_total_bound, members_total, node_list, shifted, DependencyGraphBuilder, LookupView,
};
use crate::graph::types::{DependencyEdge, WorkspaceNode};
use petgraph::graph::DiGraph;
use crate::detector::detector_impl::detected_cycles;
use crate::graph::petgraph_api::{graph_edges, graph_nodes, index_limit};
use crate::reports::github::{github_report_text, GitHubReportGenerator};
use crate::reports::human::{human_report_text, HumanReportGenerator};
use crate::reports::json::{json_report_text, JsonReportGenerator};
use crate::reports::junit::{junit_report_text, JunitReportGenerator};
use crate::reports::ReportGenerator;
use crate::text::to_owned;

verus! {

/// Whether `s` is the cycle report in the given format: the text report,
/// with or without colours, or the JSON, JUnit or GitHub one.
pub open spec fn is_cycle_report(format: OutputFormat, max_cycles: Option<usize>, cycles: Seq<CycleView>, s: Seq<char>) -> bool {
    match format {
        OutputFormat::Human => s == human_report_text(max_cycles, cycles, true) || s == human_report_text(max_cycles, cycles, false),
        OutputFormat::Json => s == json_report_text(cycles),
        OutputFormat::Junit => s == junit_report_text(cycles),
        OutputFormat::GitHub => s == github_report_text(cycles),
    }
}

/// Writes the report of the detected cycles in the given format.
pub fn cycle_report(format: OutputFormat, max_cycles: Option<usize>, detector: &CycleDetector) -> (r: Result<String, FerrisWheelError>)
    ensures
        r matches Ok(s) && is_cycle_report(format, max_cycles, detector@, s@),
{
    match format {
        OutputFormat::Human => HumanReportGenerator::new(max_cycles).generate_report(detector),
        OutputFormat::Json => JsonReportGenerator::new().generate_report(detector),
        OutputFormat::Junit => JunitReportGenerator::new().generate_report(detector),
        OutputFormat::GitHub => GitHubReportGenerator::new().generate_report(detector),
    }
}

/// The graph error given where a graph would need more nodes or edges than
/// `petgraph` can index.
pub open spec fn too_large(e: FerrisWheelError) -> bool {
    e matches FerrisWheelError::GraphError { .. }
}

/// The tables a dependency between workspaces is resolved against.
pub open spec fn lookup_tables(analyzer: &WorkspaceAnalyzer, canonical_paths: Seq<(String, String)>) -> LookupView {
    (list_views(analyzer.crate_to_workspace@), str_pairs(analyzer.crate_path_to_workspace@),
        list_views(analyzer.crate_to_paths@), str_pairs(canonical_paths))
}

/// Whether `g` is the dependency graph of the analysed workspaces under the
/// filter: one node per crate with the edges within each workspace when
/// `intra` holds, else one node per workspace with the edges between
/// workspaces that resolutions of the dependencies give.
pub open spec fn is_built_graph(analyzer: &WorkspaceAnalyzer, canonical_paths: Seq<(String, String)>, f: DependencyFilter,
    intra: bool, g: DiGraph<WorkspaceNode, DependencyEdge>) -> bool
{
    &&& intra ==> node_list(g) == intra_nodes(analyzer.workspaces@)
        && edge_list(g) == intra_edges_upto(analyzer.workspaces@, f, flat_members(analyzer.workspaces@).len())
    &&& !intra ==> node_list(g) == cross_nodes(analyzer.workspaces@)
        && exists|res: Seq<Seq<Seq<char>>>| #[trigger] cross_result(analyzer.workspaces@, f,
            lookup_tables(analyzer, canonical_paths), Seq::empty(), 0, edge_list(g), res)
}

/// Whether the graph would need more node or edge indices than `petgraph`
/// hands out: for the crate graph, as many crates or declared dependencies
/// as the index limit; for the workspace graph, as many workspaces, or
/// resolutions whose edges reach the limit.
pub open spec fn graph_overflow(analyzer: &WorkspaceAnalyzer, canonical_paths: Seq<(String, String)>, f: DependencyFilter,
    intra: bool) -> bool
{
    let ws = analyzer.workspaces@;
    if intra {
        flat_members(ws).len() >= index_limit() || members_total(ws, flat_members(ws).len()) >= index_limit()
    } else {
        ws.len() >= index_limit() || cross_overflow(ws, f, lookup_tables(analyzer, canonical_paths), 0)
    }
}

/// Whether `cycles` are the cycles detected in the dependency graph of the
/// analysed workspaces under the filter.
pub open spec fn detected_in_graph(analyzer: &WorkspaceAnalyzer, canonical_paths: Seq<(String, String)>, f: DependencyFilter,
    intra: bool, cycles: Seq<CycleView>) -> bool
{
    exists|g: DiGraph<WorkspaceNode, DependencyEdge>| #[trigger] is_built_graph(analyzer, canonical_paths, f, intra, g)
        && cycles == detected_cycles(g)
}

/// Whether a command came back with nothing to report.
pub open spec fn nothing_found<T>(r: Result<Option<T>, FerrisWheelError>) -> bool {
    match r {
        Ok(None) => true,
        _ => false,
    }
}

/// When a command that builds the dependency graph has something to report
/// and when it fails: nothing without workspaces; otherwise an outcome,
/// unless the graph would outgrow `petgraph`'s indices, which is the only
/// failure (for the crate graph, exactly when it would).
pub open spec fn outcome_shape<T>(analyzer: &WorkspaceAnalyzer, canonical_paths: Seq<(String, String)>, f: DependencyFilter,
    intra: bool, r: Result<Option<T>, FerrisWheelError>) -> bool
{
    &&& analyzer.workspaces@.len() == 0 ==> nothing_found(r)
    &&& analyzer.workspaces@.len() > 0 ==> !nothing_found(r)
    &&& match r {
        Err(e) => too_large(e) && graph_overflow(analyzer, canonical_paths, f, intra),
        Ok(_) => true,
    }
    &&& analyzer.workspaces@.len() > 0 && intra ==> (r is Err <==> graph_overflow(analyzer, canonical_paths, f, intra))
    &&& analyzer.workspaces@.len() >= index_limit() && !intra ==> r is Err
}

/// The graph with one node per crate and edges within each workspace.
fn build_intra_graph(analyzer: &WorkspaceAnalyzer, exclude_dev: bool, exclude_build: bool, exclude_target: bool) -> (r: Result<
    DependencyGraphBuilder,
    FerrisWheelError,
>)
    ensures
        match r {
            Ok(b) => {
                &&& b.filter_spec() == DependencyFilter::filter_of(exclude_dev, exclude_build, exclude_target)
                &&& node_list(b.graph_spec()) == intra_nodes(analyzer.workspaces@)
                &&& edge_list(b.graph_spec()) == intra_edges_upto(analyzer.workspaces@, b.filter_spec(),
                    flat_members(analyzer.workspaces@).len())
            },
            Err(e) => too_large(e),
        },
        r is Err <==> graph_overflow(analyzer, Seq::empty(), DependencyFilter::filter_of(exclude_dev, exclude_build,
            exclude_target), true),
{
    let mut builder = DependencyGraphBuilder::new(exclude_dev, exclude_build, exclude_target);
    proof { DependencyFilter::lemma_filter_of(builder.filter_spec()); }
    let workspaces = analyzer.workspaces();
    let n = crate::graph::builder::flatten_members(workspaces).len();
    if n as u64 >= 0xFFFF_FFFFu64 {
        return Err(FerrisWheelError::GraphError { message: to_owned("too many crates for one graph") });
    }
    match dependency_total(workspaces, 0xFFFF_FFFFu64) {
        None => Err(FerrisWheelError::GraphError { message: to_owned("too many dependencies for one graph") }),
        Some(_) => {
            proof {
                lemma_intra_total_bound(workspaces@, builder.filter_spec(), flat_members(workspaces@).len());
            }
            let ghost e0 = edge_list(builder.graph_spec());
            assert(e0 =~= Seq::<crate::graph::builder::GraphEdgeView>::empty());
            assert(node_list(builder.graph_spec()) =~= Seq::<(Seq<char>, Seq<Seq<char>>)>::empty());
            let built = builder.build_intra_workspace_graph(workspaces);
            let ghost s = intra_edges_upto(workspaces@, builder.filter_spec(), flat_members(workspaces@).len());
            assert(shifted(s, 0) =~= s);
            assert(node_list(builder.graph_spec()) =~= intra_nodes(workspaces@));
            assert(edge_list(builder.graph_spec()) =~= s);
            Ok(builder)
        },
    }
}

/// The graph with one node per workspace and edges between workspaces.
fn build_cross_graph(
    analyzer: &WorkspaceAnalyzer,
    canonical_paths: &[(String, String)],
    exclude_dev: bool,
    exclude_build: bool,
    exclude_target: bool,
) -> (r: Result<DependencyGraphBuilder, FerrisWheelError>)
    ensures
        match r {
            Ok(b) => {
                &&& b.filter_spec() == DependencyFilter::filter_of(exclude_dev, exclude_build, exclude_target)
                &&& node_list(b.graph_spec()) == cross_nodes(analyzer.workspaces@)
                &&& exists|res: Seq<Seq<Seq<char>>>| #[trigger] cross_result(analyzer.workspaces@, b.filter_spec(),
                    lookup_tables(analyzer, canonical_paths@), Seq::empty(), 0, edge_list(b.graph_spec()), res)
            },
            Err(e) => too_large(e) && graph_overflow(analyzer, canonical_paths@, DependencyFilter::filter_of(exclude_dev,
                exclude_build, exclude_target), false),
        },
        analyzer.workspaces@.len() >= index_limit() ==> r is Err,
{
    let mut builder = DependencyGraphBuilder::new(exclude_dev, exclude_build, exclude_target);
    proof { DependencyFilter::lemma_filter_of(builder.filter_spec()); }
    let workspaces = analyzer.workspaces();
    if workspaces.len() as u64 >= 0xFFFF_FFFFu64 {
        return Err(FerrisWheelError::GraphError { message: to_owned("too many workspaces for one graph") });
    }
    let ghost g0 = builder.graph_spec();
    assert(edge_list(g0) =~= Seq::<crate::graph::builder::GraphEdgeView>::empty());
    assert(node_list(g0) =~= Seq::<(Seq<char>, Seq<Seq<char>>)>::empty());
    let ghost tab = (list_views(analyzer.crate_to_workspace@), str_pairs(analyzer.crate_path_to_workspace@),
        list_views(analyzer.crate_to_paths@), str_pairs(canonical_paths@));
    match builder.build_cross_workspace_graph(workspaces, analyzer.crate_to_workspace(), analyzer.crate_path_to_workspace(),
        analyzer.crate_to_paths(), canonical_paths) {
        Ok(()) => {
            assert(node_list(builder.graph_spec()) =~= cross_nodes(workspaces@));
            let ghost res = choose|res: Seq<Seq<Seq<char>>>| #[trigger] cross_result(workspaces@, builder.filter_spec(), tab,
                edge_list(g0), graph_nodes(g0).len() as int, edge_list(builder.graph_spec()), res);
            assert(graph_nodes(g0).len() == 0);
            assert(cross_result(workspaces@, builder.filter_spec(), tab, Seq::empty(), 0, edge_list(builder.graph_spec()), res));
            assert(tab == lookup_tables(analyzer, canonical_paths@));
            assert(builder.filter_spec() == DependencyFilter::filter_of(exclude_dev, exclude_build, exclude_target));
            Ok(builder)
        },
        Err(e) => Err(e),
    }
}

/// Builds the dependency graph of the analysed workspaces: one node per
/// crate with edges within each workspace when `intra` holds, else one
/// node per workspace with edges between workspaces. Fails only where the
/// graph would outgrow the indices `petgraph` hands out.
pub fn build_graph(
    analyzer: &WorkspaceAnalyzer,
    canonical_paths: &[(String, String)],
    exclude_dev: bool,
    exclude_build: bool,
    exclude_target: bool,
    intra: bool,
) -> (r: Result<DependencyGraphBuilder, FerrisWheelError>)
    ensures
        match r {
            Ok(b) => {
                &&& b.filter_spec() == DependencyFilter::filter_of(exclude_dev, exclude_build, exclude_target)
                &&& is_built_graph(analyzer, canonical_paths@, b.filter_spec(), intra, b.graph_spec())
            },
            Err(e) => too_large(e) && graph_overflow(analyzer, canonical_paths@, DependencyFilter::filter_of(exclude_dev,
                exclude_build, exclude_target), intra),
        },
        intra ==> (r is Err <==> graph_overflow(analyzer, canonical_paths@, DependencyFilter::filter_of(exclude_dev,
            exclude_build, exclude_target), intra)),
        !intra && analyzer.workspaces@.len() >= index_limit() ==> r is Err,
{
    if intra {
        build_intra_graph(analyzer, exclude_dev, exclude_build, exclude_target)
    } else {
        build_cross_graph(analyzer, canonical_paths, exclude_dev, exclude_build, exclude_target)
    }
}

} // verus!
