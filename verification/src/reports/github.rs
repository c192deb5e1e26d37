//! GitHub Actions annotations for the cycle check.

use vstd::prelude::*;

use crate::detector::cycle::{CycleEdge, CycleView, WorkspaceCycle};
use crate::detector::CycleDetector;
use crate::error::FerrisWheelError;
use crate::reports::junit::{edge_lines, push_edge_lines};
use crate::reports::order::{cycle_order, sort_cycles};
use crate::reports::ReportGenerator;
use crate::text::{concat_all, decimal, join, lemma_concat_take, line, push_line, push_str, push_usize, seq_join};

verus! {

/// The annotations of the `j`-th cycle in sorted order.
pub open spec fn github_cycle(c: CycleView, j: nat) -> Seq<char> {
    line("::warning title=Cycle "@ + decimal(j + 1) + "::Workspaces: "@ + seq_join(c.0, " → "@))
        + edge_lines("::notice::  "@, c.1)
}

/// The whole GitHub Actions report of the detected cycles.
pub open spec fn github_report_text(cycles: Seq<CycleView>) -> Seq<char> {
    let order = cycle_order(cycles, cycles.len());
    if cycles.len() == 0 {
        line("::notice title=Dependency Check::No workspace dependency cycles detected! ✅"@)
    } else {
        line("::error title=Dependency Cycles::Found "@ + decimal(cycles.len()) + " workspace dependency cycle"@
            + (if cycles.len() == 1 { Seq::empty() } else { seq!['s'] }))
            + concat_all(Seq::new(order.len(), |j: int| github_cycle(cycles[order[j]], j as nat)))
            + line("::notice title=Recommendation::To break these cycles, consider extracting shared code into a separate workspace that both can depend on."@)
    }
}

/// GitHub Actions report generator.
pub struct GitHubReportGenerator;

impl Default for GitHubReportGenerator {
    fn default() -> (r: Self)
        ensures
            r == GitHubReportGenerator,
    {
        GitHubReportGenerator::new()
    }
}

fn push_github_cycle(out: &mut String, c: &WorkspaceCycle, j: usize)
    requires
        j < usize::MAX,
    ensures
        final(out)@ == old(out)@ + github_cycle(c@, j as nat),
{
    push_str(out, "::warning title=Cycle ");
    push_usize(out, j + 1);
    push_str(out, "::Workspaces: ");
    let names = join(c.workspace_names(), " → ");
    push_line(out, names.as_str());
    let ghost mid = out@;
    assert(mid =~= old(out)@ + line("::warning title=Cycle "@ + decimal((j + 1) as nat) + "::Workspaces: "@ + seq_join(c@.0, " → "@)));
    let edges = c.edges();
    push_edge_lines(out, "::notice::  ", edges);
    assert(edges@.map_values(|e: CycleEdge| e@) =~= c@.1);
}

impl GitHubReportGenerator {
    pub fn new() -> (r: Self)
        ensures
            r == GitHubReportGenerator,
    {
        GitHubReportGenerator
    }

    /// The GitHub Actions annotations for the detected cycles.
    pub fn report_text(&self, detector: &CycleDetector) -> (r: String)
        ensures
            r@ == github_report_text(detector@),
    {
        let mut out = String::new();
        if !detector.has_cycles() {
            push_line(&mut out, "::notice title=Dependency Check::No workspace dependency cycles detected! ✅");
            return out;
        }
        let cycles = detector.cycles();
        let ghost cv = detector@;
        let n = detector.cycle_count();
        push_str(&mut out, "::error title=Dependency Cycles::Found ");
        push_usize(&mut out, n);
        push_str(&mut out, " workspace dependency cycle");
        if n != 1 {
            push_str(&mut out, "s");
        }
        proof { reveal_strlit("s"); }
        push_line(&mut out, "");
        proof { reveal_strlit(""); }
        let ghost head = out@;
        assert(head =~= line("::error title=Dependency Cycles::Found "@ + decimal(cv.len()) + " workspace dependency cycle"@
            + (if cv.len() == 1 { Seq::empty() } else { seq!['s'] })));
        let order = sort_cycles(cycles);
        let ghost ov = order@.map_values(|i: usize| i as int);
        let ghost blocks = Seq::new(ov.len(), |j: int| github_cycle(cv[ov[j]], j as nat));
        for j in 0..order.len()
            invariant
                cv == detector@,
                cv == cycles@.map_values(|c: WorkspaceCycle| c@),
                ov == order@.map_values(|i: usize| i as int),
                forall|q: int| 0 <= q < order@.len() ==> #[trigger] order@[q] < cycles@.len(),
                blocks == Seq::new(ov.len(), |j: int| github_cycle(cv[ov[j]], j as nat)),
                out@ == head + concat_all(blocks.take(j as int)),
        {
            push_github_cycle(&mut out, &cycles[order[j]], j);
            proof { lemma_concat_take(blocks, j as int); }
        }
        assert(blocks.take(order.len() as int) =~= blocks);
        push_line(&mut out, "::notice title=Recommendation::To break these cycles, consider extracting shared code into a separate workspace that both can depend on.");
        out
    }
}

impl ReportGenerator for GitHubReportGenerator {
    open spec fn is_report(&self, cycles: Seq<CycleView>, text: Seq<char>) -> bool {
        text == github_report_text(cycles)
    }

    fn generate_report(&self, detector: &CycleDetector) -> (r: Result<String, FerrisWheelError>)
        ensures
            r matches Ok(s) && s@ == github_report_text(detector@),
    {
        Ok(self.report_text(detector))
    }
}

} // verus!
