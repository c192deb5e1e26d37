//! The `lineup` command: which workspaces depend on which.

use vstd::prelude::*;

use crate::analyzer::analyzer_impl::WorkspaceAnalyzer;
use crate::cli::OutputFormat;
use crate::commands::deps::WorkspaceDependencyAnalysis;
use crate::commands::deps_report::WorkspaceDepsReportGenerator;
use crate::config::WorkspaceDepsConfig;
use crate::error::FerrisWheelError;
use crate::dependency_filter::DependencyFilter;
use crate::executors::common::{build_graph, is_built_graph, outcome_shape};
use crate::graph::petgraph_api::arcs_of;
use crate::graph::builder::{cross_nodes, node_list};
use crate::graph::petgraph_api::graph_nodes;
use crate::graph::types::{DependencyEdge, WorkspaceNode};
use petgraph::graph::DiGraph;
use crate::commands::deps_report::{deps_github_text, deps_human_text, deps_json_text, deps_junit_text};
use crate::text::opt_view;

verus! {

/// Whether the arcs of analysis `a` are those of a workspace graph built
/// from the analysed workspaces under the filter.
pub open spec fn analysis_of_built_graph(a: WorkspaceDependencyAnalysis, analyzer: &WorkspaceAnalyzer,
    canonical_paths: Seq<(String, String)>, f: DependencyFilter) -> bool
{
    exists|g: DiGraph<WorkspaceNode, DependencyEdge>| #[trigger] is_built_graph(analyzer, canonical_paths, f, false, g)
        && a.arc_list() == arcs_of(g)
}

/// Runs the workspace dependency analysis.
pub struct DepsExecutor;

impl DepsExecutor {
    /// Writes the report of the given analysis in the configured format.
    pub fn report(config: &WorkspaceDepsConfig, analysis: &WorkspaceDependencyAnalysis) -> (r: Result<String, FerrisWheelError>)
        requires
            analysis.wf(),
        ensures
            r matches Ok(s) && s@ == match config.format {
                OutputFormat::Human => deps_human_text(analysis, opt_view(config.workspace), config.reverse, config.transitive),
                OutputFormat::Json => deps_json_text(analysis, opt_view(config.workspace), config.reverse, config.transitive),
                OutputFormat::Junit => deps_junit_text(analysis, opt_view(config.workspace), config.reverse, config.transitive),
                OutputFormat::GitHub => deps_github_text(analysis, opt_view(config.workspace), config.reverse, config.transitive),
            },
    {
        let filter = match &config.workspace {
            Some(w) => Some(w.as_str()),
            None => None,
        };
        let generator = WorkspaceDepsReportGenerator::new(filter, config.reverse, config.transitive);
        match config.format {
            OutputFormat::Human => generator.generate_human_report(analysis),
            OutputFormat::Json => generator.generate_json_report(analysis),
            OutputFormat::Junit => generator.generate_junit_report(analysis),
            OutputFormat::GitHub => generator.generate_github_report(analysis),
        }
    }

    /// Builds the workspace graph of the analysed workspaces and writes the
    /// report of which depend on which; `None` where no workspace was
    /// found. Fails only where the graph would be too large to index.
    pub fn run(config: &WorkspaceDepsConfig, analyzer: &WorkspaceAnalyzer, canonical_paths: &[(String, String)]) -> (r: Result<
        Option<String>,
        FerrisWheelError,
    >)
        ensures
            outcome_shape(analyzer, canonical_paths@, DependencyFilter::filter_of(config.exclude_dev, config.exclude_build,
                config.exclude_target), false, r),
            r matches Ok(Some(s)) ==> exists|a: WorkspaceDependencyAnalysis| #[trigger] a.wf() && a.workspaces@ == analyzer.workspaces@
                && a.names() == cross_nodes(analyzer.workspaces@).map_values(|n: (Seq<char>, Seq<Seq<char>>)| n.0)
                && analysis_of_built_graph(a, analyzer, canonical_paths@, DependencyFilter::filter_of(config.exclude_dev,
                    config.exclude_build, config.exclude_target))
                && s@ == match config.format {
                    OutputFormat::Human => deps_human_text(&a, opt_view(config.workspace), config.reverse, config.transitive),
                    OutputFormat::Json => deps_json_text(&a, opt_view(config.workspace), config.reverse, config.transitive),
                    OutputFormat::Junit => deps_junit_text(&a, opt_view(config.workspace), config.reverse, config.transitive),
                    OutputFormat::GitHub => deps_github_text(&a, opt_view(config.workspace), config.reverse, config.transitive),
                },
    {
        if analyzer.workspaces.len() == 0 {
            return Ok(None);
        }
        let builder = build_graph(analyzer, canonical_paths, config.exclude_dev, config.exclude_build,
            config.exclude_target, false)?;
        let analysis = WorkspaceDependencyAnalysis::new(analyzer.workspaces(), analyzer.crate_to_workspace(), builder.graph());
        assert(analysis.names() =~= cross_nodes(analyzer.workspaces@).map_values(|n: (Seq<char>, Seq<Seq<char>>)| n.0)) by {
            assert(node_list(builder.graph_spec()) == cross_nodes(analyzer.workspaces@));
            assert forall|i: int| 0 <= i < analysis.names().len() implies analysis.names()[i]
                == cross_nodes(analyzer.workspaces@)[i].0 by {
                assert(node_list(builder.graph_spec())[i] == crate::graph::builder::node_view(graph_nodes(builder.graph_spec())[i]));
            }
        }
        let report = Self::report(config, &analysis)?;
        Ok(Some(report))
    }
}

} // verus!
