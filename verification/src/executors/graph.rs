//! The `lineup`-free graph command (`inspect`): render the workspace
//! dependency graph.

use vstd::prelude::*;

use crate::analyzer::analyzer_impl::WorkspaceAnalyzer;
use crate::cli::GraphFormat;
use crate::config::GraphOptions;
use crate::detector::detector_impl::detected_cycles;
use crate::detector::CycleDetector;
use crate::error::FerrisWheelError;
use crate::dependency_filter::DependencyFilter;
use crate::executors::common::{build_graph, is_built_graph, outcome_shape};
use crate::graph::builder::{cross_nodes, node_list};
use crate::graph::renderer::{ascii_text, d2_text, dot_text, mermaid_text, GraphRenderer};
use crate::graph::render_model::cycle_names;

verus! {

/// What a graph rendering comes to: the graph, the cycles highlighted (none
/// unless asked for) and the text.
pub struct GraphOutcome {
    pub builder: crate::graph::builder::DependencyGraphBuilder,
    pub detector: CycleDetector,
    pub text: String,
}

/// Runs the graph rendering.
pub struct GraphExecutor;

impl GraphExecutor {
    /// Builds the workspace graph, detects its cycles when they are to be
    /// highlighted, and renders it in the configured format. `None` where
    /// no workspace was found. Fails only where the graph would be too
    /// large to index.
    pub fn run(config: &GraphOptions, analyzer: &WorkspaceAnalyzer, canonical_paths: &[(String, String)]) -> (r: Result<
        Option<GraphOutcome>,
        FerrisWheelError,
    >)
        ensures
            outcome_shape(analyzer, canonical_paths@, DependencyFilter::filter_of(config.exclude_dev, config.exclude_build,
                config.exclude_target), false, r),
            r matches Ok(Some(o)) ==> {
                let g = o.builder.graph_spec();
                &&& o.builder.filter_spec() == DependencyFilter::filter_of(config.exclude_dev, config.exclude_build,
                    config.exclude_target)
                &&& is_built_graph(analyzer, canonical_paths@, o.builder.filter_spec(), false, g)
                &&& o.detector@ == (if config.highlight_cycles { detected_cycles(g) } else { Seq::empty() })
                &&& o.text@ == match config.format {
                    GraphFormat::Ascii => ascii_text(config.highlight_cycles, config.show_crates, o.detector.cycles_spec(), g),
                    GraphFormat::Mermaid => mermaid_text(config.highlight_cycles, config.show_crates, o.detector.cycles_spec(), g),
                    GraphFormat::Dot => dot_text(config.highlight_cycles, config.show_crates, cycle_names(o.detector.cycles_spec()), g),
                    GraphFormat::D2 => d2_text(config.highlight_cycles, config.show_crates, cycle_names(o.detector.cycles_spec()), g),
                }
            },
    {
        if analyzer.workspaces.len() == 0 {
            return Ok(None);
        }
        let builder = build_graph(analyzer, canonical_paths, config.exclude_dev, config.exclude_build,
            config.exclude_target, false)?;
        let mut detector = CycleDetector::new();
        if config.highlight_cycles {
            let _ = detector.detect_cycles(builder.graph());
        }
        let renderer = GraphRenderer::new(config.highlight_cycles, config.show_crates);
        let text = match config.format {
            GraphFormat::Ascii => renderer.render_ascii(builder.graph(), detector.cycles()),
            GraphFormat::Mermaid => renderer.render_mermaid(builder.graph(), detector.cycles()),
            GraphFormat::Dot => renderer.render_dot(builder.graph(), detector.cycles()),
            GraphFormat::D2 => renderer.render_d2(builder.graph(), detector.cycles()),
        };
        Ok(Some(GraphOutcome { builder, detector, text }))
    }
}

} // verus!
