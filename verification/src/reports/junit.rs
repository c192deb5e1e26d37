//! JUnit XML report of the cycle check: one test case that fails when
//! cycles exist, listing each cycle and its edges.

use vstd::prelude::*;

use crate::detector::cycle::{CycleEdge, CycleView, EdgeView, WorkspaceCycle};
use crate::detector::CycleDetector;
use crate::error::FerrisWheelError;
use crate::reports::order::{cycle_order, ref_views, sort_cycles, sort_edges, sorted_edges};
use crate::reports::ReportGenerator;
use crate::text::{concat_all, decimal, join, lemma_concat_take, line, push_line, push_str, push_usize, seq_join};

verus! {

/// A line for an edge: the prefix, the crate pair and the type.
pub open spec fn edge_line(prefix: Seq<char>, e: EdgeView) -> Seq<char> {
    line(prefix + e.2 + " → "@ + e.3 + " ("@ + e.4 + ")"@)
}

/// The lines of the edges of a cycle, sorted by crate pair.
pub open spec fn edge_lines(prefix: Seq<char>, edges: Seq<EdgeView>) -> Seq<char> {
    concat_all(sorted_edges(edges).map_values(|e: EdgeView| edge_line(prefix, e)))
}

/// Appends the lines of the edges of a cycle, sorted by crate pair.
pub fn push_edge_lines(out: &mut String, prefix: &str, edges: &[CycleEdge])
    ensures
        final(out)@ == old(out)@ + edge_lines(prefix@, edges@.map_values(|e: CycleEdge| e@)),
{
    let sorted = sort_edges(edges);
    let ghost sv = ref_views(sorted@);
    let ghost lines = sv.map_values(|e: EdgeView| edge_line(prefix@, e));
    let ghost head = out@;
    for i in 0..sorted.len()
        invariant
            sv == ref_views(sorted@),
            lines == sv.map_values(|e: EdgeView| edge_line(prefix@, e)),
            out@ == head + concat_all(lines.take(i as int)),
    {
        let e = sorted[i];
        let ghost before = out@;
        push_str(out, prefix);
        push_str(out, e.from_crate.as_str());
        push_str(out, " → ");
        push_str(out, e.to_crate.as_str());
        push_str(out, " (");
        push_str(out, e.dependency_type.as_str());
        push_line(out, ")");
        assert(out@ =~= before + lines[i as int]);
        proof { lemma_concat_take(lines, i as int); }
    }
    assert(lines.take(sorted.len() as int) =~= lines);
}

/// The block of the `j`-th cycle in sorted order.
pub open spec fn junit_cycle(c: CycleView, j: nat) -> Seq<char> {
    line("\nCycle "@ + decimal(j + 1) + ": "@ + seq_join(c.0, " → "@)) + edge_lines("  "@, c.1)
}

/// The whole JUnit report of the detected cycles.
pub open spec fn junit_report_text(cycles: Seq<CycleView>) -> Seq<char> {
    let failures = if cycles.len() > 0 { "1"@ } else { "0"@ };
    let order = cycle_order(cycles, cycles.len());
    line("<?xml version=\"1.0\" encoding=\"UTF-8\"?>"@)
        + line("<testsuites name=\"cargo-ferris-wheel\" tests=\"1\" failures=\""@ + failures + "\">"@)
        + line("  <testsuite name=\"workspace-cycles\" tests=\"1\" failures=\""@ + failures + "\">"@)
        + (if cycles.len() > 0 {
            line("    <testcase name=\"check-workspace-cycles\" classname=\"ferris-wheel\">"@)
                + line("      <failure message=\"Workspace dependency cycles detected\">"@)
                + line("Found "@ + decimal(cycles.len()) + " dependency cycles:"@)
                + concat_all(Seq::new(order.len(), |j: int| junit_cycle(cycles[order[j]], j as nat)))
                + line("      </failure>"@)
                + line("    </testcase>"@)
        } else {
            line("    <testcase name=\"check-workspace-cycles\" classname=\"ferris-wheel\" />"@)
        })
        + line("  </testsuite>"@)
        + line("</testsuites>"@)
}

/// JUnit XML report generator.
pub struct JunitReportGenerator;

impl Default for JunitReportGenerator {
    fn default() -> (r: Self)
        ensures
            r == JunitReportGenerator,
    {
        JunitReportGenerator::new()
    }
}

fn push_junit_cycle(out: &mut String, c: &WorkspaceCycle, j: usize)
    requires
        j < usize::MAX,
    ensures
        final(out)@ == old(out)@ + junit_cycle(c@, j as nat),
{
    push_str(out, "\nCycle ");
    push_usize(out, j + 1);
    push_str(out, ": ");
    let names = join(c.workspace_names(), " → ");
    push_line(out, names.as_str());
    let ghost mid = out@;
    assert(mid =~= old(out)@ + line("\nCycle "@ + decimal((j + 1) as nat) + ": "@ + seq_join(c@.0, " → "@)));
    let edges = c.edges();
    push_edge_lines(out, "  ", edges);
    assert(edges@.map_values(|e: CycleEdge| e@) =~= c@.1);
}

impl JunitReportGenerator {
    pub fn new() -> (r: Self)
        ensures
            r == JunitReportGenerator,
    {
        JunitReportGenerator
    }

    /// The JUnit XML text of the detected cycles.
    pub fn report_text(&self, detector: &CycleDetector) -> (r: String)
        ensures
            r@ == junit_report_text(detector@),
    {
        let cycles = detector.cycles();
        let ghost cv = detector@;
        let has = detector.has_cycles();
        let failures = if has { "1" } else { "0" };
        let mut out = String::new();
        push_line(&mut out, "<?xml version=\"1.0\" encoding=\"UTF-8\"?>");
        push_str(&mut out, "<testsuites name=\"cargo-ferris-wheel\" tests=\"1\" failures=\"");
        push_str(&mut out, failures);
        push_line(&mut out, "\">");
        push_str(&mut out, "  <testsuite name=\"workspace-cycles\" tests=\"1\" failures=\"");
        push_str(&mut out, failures);
        push_line(&mut out, "\">");
        let ghost head = out@;
        if has {
            push_line(&mut out, "    <testcase name=\"check-workspace-cycles\" classname=\"ferris-wheel\">");
            push_line(&mut out, "      <failure message=\"Workspace dependency cycles detected\">");
            push_str(&mut out, "Found ");
            push_usize(&mut out, detector.cycle_count());
            push_line(&mut out, " dependency cycles:");
            let order = sort_cycles(cycles);
            let ghost ov = order@.map_values(|i: usize| i as int);
            let ghost blocks = Seq::new(ov.len(), |j: int| junit_cycle(cv[ov[j]], j as nat));
            let ghost start = out@;
            for j in 0..order.len()
                invariant
                    cv == detector@,
                    cv == cycles@.map_values(|c: WorkspaceCycle| c@),
                    ov == order@.map_values(|i: usize| i as int),
                    forall|q: int| 0 <= q < order@.len() ==> #[trigger] order@[q] < cycles@.len(),
                    blocks == Seq::new(ov.len(), |j: int| junit_cycle(cv[ov[j]], j as nat)),
                    out@ == start + concat_all(blocks.take(j as int)),
            {
                push_junit_cycle(&mut out, &cycles[order[j]], j);
                proof { lemma_concat_take(blocks, j as int); }
            }
            assert(blocks.take(order.len() as int) =~= blocks);
            push_line(&mut out, "      </failure>");
            push_line(&mut out, "    </testcase>");
        } else {
            push_line(&mut out, "    <testcase name=\"check-workspace-cycles\" classname=\"ferris-wheel\" />");
        }
        push_line(&mut out, "  </testsuite>");
        push_line(&mut out, "</testsuites>");
        assert(out@ =~= junit_report_text(detector@));
        out
    }
}

impl ReportGenerator for JunitReportGenerator {
    open spec fn is_report(&self, cycles: Seq<CycleView>, text: Seq<char>) -> bool {
        text == junit_report_text(cycles)
    }

    fn generate_report(&self, detector: &CycleDetector) -> (r: Result<String, FerrisWheelError>)
        ensures
            r matches Ok(s) && s@ == junit_report_text(detector@),
    {
        Ok(self.report_text(detector))
    }
}

} // verus!
