//! The `spectacle` command: detect dependency cycles and report them.

use vstd::prelude::*;

use crate::analyzer::analyzer_impl::WorkspaceAnalyzer;
use crate::config::CheckCyclesConfig;
use crate::detector::detector_impl::detected_cycles;
use crate::detector::CycleDetector;
use crate::error::FerrisWheelError;
use crate::dependency_filter::DependencyFilter;
use crate::executors::common::{build_graph, cycle_report, detected_in_graph, is_cycle_report, outcome_shape};

verus! {

/// What a cycle check comes to: the cycles found, the report, and whether
/// the program is to fail because cycles were found and that was asked for.
pub struct CheckOutcome {
    pub detector: CycleDetector,
    pub report: String,
    pub fail: bool,
}

/// Runs the cycle check.
pub struct CheckExecutor;

impl CheckExecutor {
    /// Builds the graph the configuration asks for, detects its cycles and
    /// writes the report; `None` where no workspace was found. Fails only
    /// where the graph would be too large to index.
    pub fn run(config: &CheckCyclesConfig, analyzer: &WorkspaceAnalyzer, canonical_paths: &[(String, String)]) -> (r: Result<
        Option<CheckOutcome>,
        FerrisWheelError,
    >)
        ensures
            outcome_shape(analyzer, canonical_paths@, DependencyFilter::filter_of(config.exclude_dev, config.exclude_build,
                config.exclude_target), config.intra_workspace, r),
            r matches Ok(Some(o)) ==> detected_in_graph(analyzer, canonical_paths@, DependencyFilter::filter_of(
                config.exclude_dev, config.exclude_build, config.exclude_target), config.intra_workspace, o.detector@)
                && is_cycle_report(config.format, config.max_cycles, o.detector@, o.report@)
                && o.fail == (config.error_on_cycles && o.detector@.len() > 0),
    {
        if analyzer.workspaces.len() == 0 {
            return Ok(None);
        }
        let builder = build_graph(analyzer, canonical_paths, config.exclude_dev, config.exclude_build,
            config.exclude_target, config.intra_workspace)?;
        let mut detector = CycleDetector::new();
        let _ = detector.detect_cycles(builder.graph());
        assert(detector@ =~= detected_cycles(builder.graph_spec()));
        let report = cycle_report(config.format, config.max_cycles, &detector)?;
        let fail = config.error_on_cycles && detector.has_cycles();
        Ok(Some(CheckOutcome { detector, report, fail }))
    }
}

} // verus!
