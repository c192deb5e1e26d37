//! The `spotlight` command: the dependency cycles that involve one crate.

use vstd::prelude::*;

use crate::analyzer::analyzer_impl::WorkspaceAnalyzer;
use crate::config::AnalyzeCrateConfig;
use crate::detector::cycle::{CycleView, EdgeView};
use crate::detector::CycleDetector;
use crate::error::FerrisWheelError;
use crate::dependency_filter::DependencyFilter;
use crate::detector::detector_impl::detected_cycles;
use crate::executors::common::{build_graph, cycle_report, detected_in_graph, is_cycle_report, outcome_shape};
use crate::text::{seq_contains_sub, str_contains};

verus! {

/// Whether a cycle has an edge whose source or target crate name contains
/// `name`.
pub open spec fn involves(c: CycleView, name: Seq<char>) -> bool {
    exists|i: int| 0 <= i < c.1.len() && (seq_contains_sub((#[trigger] c.1[i]).2, name) || seq_contains_sub(c.1[i].3, name))
}

/// The cycles among the first `n` that involve `name`, in order.
pub open spec fn involving(cycles: Seq<CycleView>, name: Seq<char>, n: nat) -> Seq<CycleView>
    decreases n,
{
    if n == 0 {
        Seq::empty()
    } else if involves(cycles[n - 1], name) {
        involving(cycles, name, (n - 1) as nat).push(cycles[n - 1])
    } else {
        involving(cycles, name, (n - 1) as nat)
    }
}

/// What a crate analysis comes to: all cycles found, those involving the
/// crate, and their report where there are any.
pub struct AnalyzeOutcome {
    pub detector: CycleDetector,
    pub relevant: CycleDetector,
    pub report: Option<String>,
}

/// Runs the crate analysis.
pub struct AnalyzeExecutor;

impl AnalyzeExecutor {
    fn involves_crate(edges: &[crate::detector::cycle::CycleEdge], name: &str) -> (r: bool)
        ensures
            r == exists|i: int| 0 <= i < edges@.len() && (seq_contains_sub((#[trigger] edges@[i])@.2, name@)
                || seq_contains_sub(edges@[i]@.3, name@)),
    {
        for i in 0..edges.len()
            invariant
                forall|j: int| 0 <= j < i ==> !(seq_contains_sub((#[trigger] edges@[j])@.2, name@)
                    || seq_contains_sub(edges@[j]@.3, name@)),
        {
            if str_contains(edges[i].from_crate.as_str(), name) || str_contains(edges[i].to_crate.as_str(), name) {
                return true;
            }
        }
        false
    }

    /// Builds the graph the configuration asks for, detects its cycles and
    /// keeps those with an edge whose crate name contains the configured
    /// one; reports them where there are any. `None` where no workspace
    /// was found. Fails only where the graph would be too large to index.
    pub fn run(config: &AnalyzeCrateConfig, analyzer: &WorkspaceAnalyzer, canonical_paths: &[(String, String)]) -> (r: Result<
        Option<AnalyzeOutcome>,
        FerrisWheelError,
    >)
        ensures
            outcome_shape(analyzer, canonical_paths@, DependencyFilter::filter_of(config.exclude_dev, config.exclude_build,
                config.exclude_target), config.intra_workspace, r),
            r matches Ok(Some(o)) ==> detected_in_graph(analyzer, canonical_paths@, DependencyFilter::filter_of(
                config.exclude_dev, config.exclude_build, config.exclude_target), config.intra_workspace, o.detector@)
                && o.relevant@ == involving(o.detector@, config.crate_name@, o.detector@.len())
                && (o.report is None <==> o.relevant@.len() == 0)
                && (o.report matches Some(s) ==> is_cycle_report(config.format, config.max_cycles, o.relevant@, s@)),
    {
        if analyzer.workspaces.len() == 0 {
            return Ok(None);
        }
        let builder = build_graph(analyzer, canonical_paths, config.exclude_dev, config.exclude_build,
            config.exclude_target, config.intra_workspace)?;
        let mut detector = CycleDetector::new();
        let _ = detector.detect_cycles(builder.graph());
        assert(detector@ =~= detected_cycles(builder.graph_spec()));
        let cycles = detector.cycles();
        let ghost all = detector@;
        let mut relevant = CycleDetector::new();
        for i in 0..cycles.len()
            invariant
                all == detector@,
                cycles@.map_values(|c: crate::detector::cycle::WorkspaceCycle| c@) == all,
                relevant@ == involving(all, config.crate_name@, i as nat),
        {
            let c = &cycles[i];
            assert(c@ == all[i as int]);
            let edges = c.edges();
            let hit = Self::involves_crate(edges, config.crate_name.as_str());
            assert(hit == involves(all[i as int], config.crate_name@)) by {
                let ev = crate::detector::cycle::edge_views(edges@);
                assert(ev == all[i as int].1);
                if hit {
                    let j = choose|j: int| 0 <= j < edges@.len() && (seq_contains_sub((#[trigger] edges@[j])@.2, config.crate_name@)
                        || seq_contains_sub(edges@[j]@.3, config.crate_name@));
                    assert(ev[j] == edges@[j]@);
                }
                if involves(all[i as int], config.crate_name@) {
                    let j = choose|j: int| 0 <= j < all[i as int].1.len() && (seq_contains_sub((#[trigger] all[i as int].1[j]).2,
                        config.crate_name@) || seq_contains_sub(all[i as int].1[j].3, config.crate_name@));
                    assert(ev[j] == edges@[j]@);
                }
            }
            if hit {
                relevant.add_cycle(c.duplicate());
            }
        }
        if relevant.cycle_count() == 0 {
            return Ok(Some(AnalyzeOutcome { detector, relevant, report: None }));
        }
        let report = cycle_report(config.format, config.max_cycles, &relevant)?;
        Ok(Some(AnalyzeOutcome { detector, relevant, report: Some(report) }))
    }
}

} // verus!
