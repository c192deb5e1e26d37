//! The `ripples` command: which crates and workspaces changed files affect.

use vstd::prelude::*;

use crate::analyzer::analyzer_impl::WorkspaceAnalyzer;
use crate::analyzer::dependency_classifier::pair_views;
use crate::cli::OutputFormat;
use crate::commands::affected_analysis::{
    crate_arcs, id_views, known_from, member_ids, member_workspaces, AffectedAnalysis, AffectedResult,
};
use crate::graph::builder::flat_members;
use crate::graph::reach::arc_ints;
use crate::commands::affected_report::{
    generate_github_report, generate_human_report, generate_json_report, generate_junit_report, github_affected,
    human_affected, junit_affected, affected_json_text,
};
use crate::config::AffectedConfig;
use crate::dependency_filter::DependencyFilter;
use crate::error::FerrisWheelError;
use crate::text::views;

verus! {

/// What a change-impact analysis comes to: the crate graph, the result, the
/// report, and whether the files that belong to no crate are to be listed
/// as a warning (in the text format, where there are any).
pub struct AffectedOutcome<'a> {
    pub analysis: AffectedAnalysis<'a>,
    pub result: AffectedResult,
    pub report: String,
    pub warn_unmatched: bool,
}

/// Runs the change-impact analysis.
pub struct AffectedExecutor;

impl AffectedExecutor {
    /// Builds the crate graph of the analysed workspaces, maps the changed
    /// files to crates (relative ones taken from `cwd`), follows reverse
    /// dependencies and writes the report in the configured format.
    pub fn run<'a>(
        config: &AffectedConfig,
        analyzer: &'a WorkspaceAnalyzer,
        cwd: &str,
        canonical_paths: &[(String, String)],
    ) -> (r: Result<AffectedOutcome<'a>, FerrisWheelError>)
        ensures
            r matches Ok(o) && {
                let a = o.analysis;
                let res = o.result;
                &&& a.wf()
                &&& a.workspaces@ == analyzer.workspaces@
                &&& a.ids() == member_ids(analyzer.workspaces@, pair_views(canonical_paths@))
                &&& views(a.crate_workspaces@) == member_workspaces(analyzer.workspaces@,
                    pair_views(analyzer.crate_path_to_workspace@), pair_views(canonical_paths@))
                &&& arc_ints(a.arcs@) == crate_arcs(analyzer.workspaces@, pair_views(canonical_paths@),
                    DependencyFilter::filter_of(config.exclude_dev, config.exclude_build, config.exclude_target),
                    flat_members(analyzer.workspaces@).len())
                &&& a.result_of(id_views(res.directly_affected_crates@).to_set(), res)
                &&& id_views(res.directly_affected_crates@).to_set() == a.matched_upto(cwd@, pair_views(canonical_paths@),
                    views(config.files@), config.files@.len()).to_set()
                &&& views(res.unmatched_files@) == a.unmatched_upto(cwd@, pair_views(canonical_paths@), views(config.files@),
                    config.files@.len())
                &&& known_from(a.ids(), res.directly_affected_crates@, 0)
                &&& forall|i: int| 0 <= i < res.unmatched_files@.len() ==> views(config.files@).contains(#[trigger] res.unmatched_files@[i]@)
                &&& o.warn_unmatched == (res.unmatched_files@.len() > 0 && config.format == OutputFormat::Human)
                &&& match config.format {
                    OutputFormat::Json => o.report@ == affected_json_text(res, &a, config.direct_only),
                    OutputFormat::Human => o.report@ == human_affected(res, &a, config.files@.len(), config.show_crates,
                        config.direct_only),
                    OutputFormat::GitHub => o.report@ == github_affected(res, config.files@.len(), config.direct_only),
                    OutputFormat::Junit => o.report@ == junit_affected(res, config.files@.len(), config.direct_only),
                }
            },
    {
        let filter = DependencyFilter::new(config.exclude_dev, config.exclude_build, config.exclude_target);
        proof { DependencyFilter::lemma_filter_of(filter); }
        let analysis = match AffectedAnalysis::new(analyzer.workspaces(), analyzer.crate_path_to_workspace(), filter,
            canonical_paths) {
            Ok(a) => a,
            Err(e) => return Err(e),
        };
        let result = analysis.analyze_affected_files(config.files.as_slice(), cwd, canonical_paths);
        let report = match config.format {
            OutputFormat::Json => generate_json_report(&result, &analysis, config),
            OutputFormat::Human => generate_human_report(&result, &analysis, config),
            OutputFormat::GitHub => generate_github_report(&result, config),
            OutputFormat::Junit => generate_junit_report(&result, config),
        };
        let report = match report {
            Ok(s) => s,
            Err(e) => return Err(e),
        };
        let warn_unmatched = result.unmatched_files.len() > 0 && match config.format {
            OutputFormat::Human => true,
            _ => false,
        };
        Ok(AffectedOutcome { analysis, result, report, warn_unmatched })
    }
}

} // verus!
