//! Human-readable console report of the cycle check.

use vstd::prelude::*;

use crate::detector::cycle::{group_by_direction, CycleEdge, CycleView, DirectionGroup, DirectionMap, EdgeView, WorkspaceCycle};
use crate::detector::CycleDetector;
use crate::error::FerrisWheelError;
use crate::graph::summary::{dir_order, direction_order, sorted_directions};
use crate::reports::console_style::{
    colors_enabled, console_blue, console_bold, console_cyan, console_dim, console_green_bold, console_red_bold,
    console_yellow, style_blue, style_bold, style_cyan, style_dim, style_green_bold, style_red_bold, style_yellow,
};
use crate::reports::order::{ref_views, sort_edges, sorted_edges};
use crate::reports::ReportGenerator;
use crate::text::{concat_all, decimal, lemma_concat_take, line, push_line, push_newline, push_str, usize_to_string, views};
use crate::utils::string::{plural_of, pluralize};

verus! {

/// The line of one crate-level edge.
pub open spec fn human_edge(e: EdgeView, colored: bool) -> Seq<char> {
    line("      "@ + console_dim("→"@, colored) + " "@ + console_yellow(e.2, colored) + " → "@ + console_yellow(e.3, colored)
        + " ("@ + console_dim(e.4, colored) + ")"@)
}

/// The lines of one direction: its header and its edges sorted by crate pair.
pub open spec fn human_direction(d: DirectionGroup, colored: bool) -> Seq<char> {
    line("\n    "@ + console_blue("📦"@, colored) + " "@ + console_bold(d.0, colored) + " → "@ + console_bold(d.1, colored) + ":"@)
        + concat_all(sorted_edges(d.2).map_values(|e: EdgeView| human_edge(e, colored)))
}

/// The block of the cycle at position `i`.
#[verifier::opaque]
pub open spec fn human_cycle(c: CycleView, i: nat, colored: bool) -> Seq<char> {
    line(console_yellow("🔄"@, colored) + " Cycle #"@ + decimal(i + 1))
        + line("  "@ + console_blue("📦"@, colored) + " Workspaces involved:"@)
        + concat_all(c.0.map_values(|w: Seq<char>| line("    "@ + console_dim("•"@, colored) + " "@ + console_bold(w, colored))))
        + line("\n  "@ + console_cyan("🔗"@, colored) + " Dependencies creating this cycle:"@)
        + concat_all(sorted_directions(group_by_direction(c.1)).map_values(|d: DirectionGroup| human_direction(d, colored)))
        + line(Seq::empty())
}

/// How many cycles the report shows.
pub open spec fn shown_count(max_cycles: Option<usize>, n: nat) -> nat {
    match max_cycles {
        Some(limit) => if (limit as nat) < n { limit as nat } else { n },
        None => n,
    }
}

/// The opening line of a report with cycles.
pub open spec fn human_head(n: nat, colored: bool) -> Seq<char> {
    "\n"@ + console_red_bold("❌"@, colored) + " Found "@ + console_red_bold(decimal(n), colored) + " dependency "@
        + plural_of("cycle"@, n) + ":\n\n"@
}

/// The note that not all cycles are shown, when the limit is below the count.
pub open spec fn human_note(max_cycles: Option<usize>, n: nat, colored: bool) -> Seq<char> {
    match max_cycles {
        Some(limit) => if (limit as nat) < n {
            line("\n"@ + console_blue("ℹ️"@, colored) + " Showing "@ + console_yellow(decimal(limit as nat), colored)
                + " of "@ + console_yellow(decimal(n), colored) + " cycles. Use --max-cycles to see more."@)
        } else {
            Seq::empty()
        },
        None => Seq::empty(),
    }
}

/// The closing advice of a report with cycles.
pub open spec fn human_tips(colored: bool) -> Seq<char> {
    line("\n"@ + console_yellow("💡"@, colored)
        + " To break these cycles, you need to remove at least one dependency from each cycle."@)
        + line(console_yellow("💡"@, colored) + " Consider extracting shared code into a separate workspace that both can depend on."@)
        + line(console_yellow("💡"@, colored) + " Focus on the crates that appear in the most cycles for maximum impact."@)
}

/// The whole human-readable report; `colored` says whether styling is on.
pub open spec fn human_report_text(max_cycles: Option<usize>, cycles: Seq<CycleView>, colored: bool) -> Seq<char> {
    let n = cycles.len();
    if n == 0 {
        "\n"@ + console_green_bold("✅"@, colored)
            + " No dependency cycles detected! Your workspaces have a clean dependency structure.\n"@
    } else {
        human_head(n, colored)
            + concat_all(Seq::new(shown_count(max_cycles, n), |i: int| human_cycle(cycles[i], i as nat, colored)))
            + human_note(max_cycles, n, colored)
            + human_tips(colored)
    }
}

/// Human-readable report generator; shows at most `max_cycles` cycles.
pub struct HumanReportGenerator {
    max_cycles: Option<usize>,
}

#[verifier::spinoff_prover]
fn push_human_edge(out: &mut String, e: &CycleEdge, colored: bool)
    ensures
        final(out)@ == old(out)@ + human_edge(e@, colored),
{
    push_str(out, "      ");
    push_str(out, style_dim("→", colored).as_str());
    push_str(out, " ");
    push_str(out, style_yellow(e.from_crate.as_str(), colored).as_str());
    push_str(out, " → ");
    push_str(out, style_yellow(e.to_crate.as_str(), colored).as_str());
    push_str(out, " (");
    push_str(out, style_dim(e.dependency_type.as_str(), colored).as_str());
    push_line(out, ")");
    assert(final(out)@ =~= old(out)@ + human_edge(e@, colored));
}

#[verifier::spinoff_prover]
fn push_human_direction(out: &mut String, from: &String, to: &String, edges: &Vec<CycleEdge>, colored: bool)
    ensures
        final(out)@ == old(out)@ + human_direction((from@, to@, edges@.map_values(|e: CycleEdge| e@)), colored),
{
    push_str(out, "\n    ");
    push_str(out, style_blue("📦", colored).as_str());
    push_str(out, " ");
    push_str(out, style_bold(from.as_str(), colored).as_str());
    push_str(out, " → ");
    push_str(out, style_bold(to.as_str(), colored).as_str());
    push_line(out, ":");
    let ghost head = out@;
    let sorted = sort_edges(edges.as_slice());
    let ghost sv = ref_views(sorted@);
    let ghost lines = sv.map_values(|e: EdgeView| human_edge(e, colored));
    for k in 0..sorted.len()
        invariant
            sv == ref_views(sorted@),
            lines == sv.map_values(|e: EdgeView| human_edge(e, colored)),
            out@ == head + concat_all(lines.take(k as int)),
    {
        push_human_edge(out, sorted[k], colored);
        proof { lemma_concat_take(lines, k as int); }
    }
    assert(lines.take(sorted.len() as int) =~= lines);
}

#[verifier::spinoff_prover]
fn push_human_names(out: &mut String, names: &[String], colored: bool)
    ensures
        final(out)@ == old(out)@ + concat_all(views(names@).map_values(
            |w: Seq<char>| line("    "@ + console_dim("•"@, colored) + " "@ + console_bold(w, colored)))),
{
    let ghost lines = views(names@).map_values(|w: Seq<char>| line("    "@ + console_dim("•"@, colored) + " "@ + console_bold(w, colored)));
    let ghost head = out@;
    for k in 0..names.len()
        invariant
            lines == views(names@).map_values(|w: Seq<char>| line("    "@ + console_dim("•"@, colored) + " "@ + console_bold(w, colored))),
            out@ == head + concat_all(lines.take(k as int)),
    {
        let ghost before = out@;
        push_str(out, "    ");
        push_str(out, style_dim("•", colored).as_str());
        push_str(out, " ");
        push_line(out, style_bold(names[k].as_str(), colored).as_str());
        assert(out@ =~= before + lines[k as int]);
        proof { lemma_concat_take(lines, k as int); }
    }
    assert(lines.take(names.len() as int) =~= lines);
}

#[verifier::spinoff_prover]
fn push_human_directions(out: &mut String, map: &DirectionMap, colored: bool)
    ensures
        final(out)@ == old(out)@ + concat_all(sorted_directions(map@).map_values(|d: DirectionGroup| human_direction(d, colored))),
{
    let order = direction_order(map);
    let ghost dirs = sorted_directions(map@);
    let ghost lines = dirs.map_values(|d: DirectionGroup| human_direction(d, colored));
    let ghost head = out@;
    for k in 0..order.len()
        invariant
            dirs == sorted_directions(map@),
            order@.map_values(|i: usize| i as int) == dir_order(map@, map@.len()),
            forall|q: int| 0 <= q < order@.len() ==> #[trigger] order@[q] < map@.len(),
            lines == dirs.map_values(|d: DirectionGroup| human_direction(d, colored)),
            out@ == head + concat_all(lines.take(k as int)),
    {
        let (from, to, edges) = map.entry(order[k]);
        assert(dirs[k as int] == map@[order@[k as int] as int]);
        assert(edges@.map_values(|e: CycleEdge| e@) =~= crate::detector::cycle::edge_views(edges@));
        push_human_direction(out, from, to, edges, colored);
        proof { lemma_concat_take(lines, k as int); }
    }
    assert(lines.take(order.len() as int) =~= lines);
}

#[verifier::spinoff_prover]
fn push_human_cycle(out: &mut String, c: &WorkspaceCycle, i: usize, colored: bool)
    requires
        i < usize::MAX,
    ensures
        final(out)@ == old(out)@ + human_cycle(c@, i as nat, colored),
{
    push_str(out, style_yellow("🔄", colored).as_str());
    push_str(out, " Cycle #");
    push_line(out, usize_to_string(i + 1).as_str());
    push_str(out, "  ");
    push_str(out, style_blue("📦", colored).as_str());
    push_line(out, " Workspaces involved:");
    let ghost s1 = out@;
    push_human_names(out, c.workspace_names(), colored);
    push_str(out, "\n  ");
    push_str(out, style_cyan("🔗", colored).as_str());
    push_line(out, " Dependencies creating this cycle:");
    push_human_directions(out, c.edges_by_direction(), colored);
    push_newline(out);
    reveal(human_cycle);
    assert(final(out)@ =~= old(out)@ + human_cycle(c@, i as nat, colored));
}

#[verifier::spinoff_prover]
fn push_human_head(out: &mut String, n: usize, colored: bool)
    ensures
        final(out)@ == old(out)@ + human_head(n as nat, colored),
{
    push_str(out, "\n");
    push_str(out, style_red_bold("❌", colored).as_str());
    push_str(out, " Found ");
    push_str(out, style_red_bold(usize_to_string(n).as_str(), colored).as_str());
    push_str(out, " dependency ");
    push_str(out, pluralize("cycle", n).as_str());
    push_str(out, ":\n\n");
    assert(final(out)@ =~= old(out)@ + human_head(n as nat, colored));
}

#[verifier::spinoff_prover]
fn push_human_note(out: &mut String, max_cycles: Option<usize>, n: usize, colored: bool)
    ensures
        final(out)@ == old(out)@ + human_note(max_cycles, n as nat, colored),
{
    match max_cycles {
        Some(limit) => {
            if limit < n {
                push_str(out, "\n");
                push_str(out, style_blue("ℹ️", colored).as_str());
                push_str(out, " Showing ");
                push_str(out, style_yellow(usize_to_string(limit).as_str(), colored).as_str());
                push_str(out, " of ");
                push_str(out, style_yellow(usize_to_string(n).as_str(), colored).as_str());
                push_line(out, " cycles. Use --max-cycles to see more.");
            }
        },
        None => {},
    }
    assert(final(out)@ =~= old(out)@ + human_note(max_cycles, n as nat, colored));
}

#[verifier::spinoff_prover]
fn push_human_tips(out: &mut String, colored: bool)
    ensures
        final(out)@ == old(out)@ + human_tips(colored),
{
    let tip = style_yellow("💡", colored);
    push_str(out, "\n");
    push_str(out, tip.as_str());
    push_line(out, " To break these cycles, you need to remove at least one dependency from each cycle.");
    push_str(out, tip.as_str());
    push_line(out, " Consider extracting shared code into a separate workspace that both can depend on.");
    push_str(out, tip.as_str());
    push_line(out, " Focus on the crates that appear in the most cycles for maximum impact.");
    assert(final(out)@ =~= old(out)@ + human_tips(colored));
}

impl HumanReportGenerator {
    pub fn new(max_cycles: Option<usize>) -> (r: Self)
        ensures
            r.max_cycles() == max_cycles,
    {
        HumanReportGenerator { max_cycles }
    }

    /// The most cycles the report shows, if limited.
    pub closed spec fn max_cycles(&self) -> Option<usize> {
        self.max_cycles
    }

    /// The report text, with styling on or off.
    #[verifier::spinoff_prover]
    pub fn report_text(&self, detector: &CycleDetector, colored: bool) -> (r: String)
        ensures
            r@ == human_report_text(self.max_cycles(), detector@, colored),
    {
        let mut out = String::new();
        let n = detector.cycle_count();
        if n == 0 {
            push_str(&mut out, "\n");
            push_str(&mut out, style_green_bold("✅", colored).as_str());
            push_str(&mut out, " No dependency cycles detected! Your workspaces have a clean dependency structure.\n");
            return out;
        }
        let cycles = detector.cycles();
        let ghost cv = detector@;
        push_human_head(&mut out, n, colored);
        let ghost head = out@;
        let shown = match self.max_cycles {
            Some(limit) => if limit < n { limit } else { n },
            None => n,
        };
        let ghost blocks = Seq::new(shown as nat, |i: int| human_cycle(cv[i], i as nat, colored));
        for i in 0..shown
            invariant
                shown <= n,
                n == cv.len(),
                cv == detector@,
                cv == cycles@.map_values(|c: WorkspaceCycle| c@),
                blocks == Seq::new(shown as nat, |i: int| human_cycle(cv[i], i as nat, colored)),
                out@ == head + concat_all(blocks.take(i as int)),
        {
            push_human_cycle(&mut out, &cycles[i], i, colored);
            proof { lemma_concat_take(blocks, i as int); }
        }
        assert(blocks.take(shown as int) =~= blocks);
        push_human_note(&mut out, self.max_cycles, n, colored);
        push_human_tips(&mut out, colored);
        assert(out@ =~= human_report_text(self.max_cycles(), detector@, colored));
        out
    }
}

impl ReportGenerator for HumanReportGenerator {
    open spec fn is_report(&self, cycles: Seq<CycleView>, text: Seq<char>) -> bool {
        text == human_report_text(self.max_cycles(), cycles, true) || text == human_report_text(self.max_cycles(), cycles, false)
    }

    /// The report, styled when colours are on for standard output.
    fn generate_report(&self, detector: &CycleDetector) -> (r: Result<String, FerrisWheelError>)
        ensures
            r matches Ok(s) && (s@ == human_report_text(self.max_cycles(), detector@, true)
                || s@ == human_report_text(self.max_cycles(), detector@, false)),
    {
        let colored = colors_enabled();
        Ok(self.report_text(detector, colored))
    }
}

/// A report with cycles shows the first `k` of them, in order and numbered
/// from 1, between the opening line and the note, where `k` is the smaller of
/// the limit and the number of cycles (all of them without a limit).
pub proof fn law_report_shows_limited_cycles(max_cycles: Option<usize>, cycles: Seq<CycleView>, colored: bool)
    requires
        cycles.len() > 0,
    ensures
        ({
            let n = cycles.len();
            let k = shown_count(max_cycles, n);
            &&& k <= n
            &&& max_cycles matches Some(l) ==> k <= l && (k == l || k == n)
            &&& max_cycles is None ==> k == n
            &&& human_report_text(max_cycles, cycles, colored) == human_head(n, colored)
                + concat_all(Seq::new(k, |i: int| human_cycle(cycles[i], i as nat, colored)))
                + human_note(max_cycles, n, colored) + human_tips(colored)
        }),
{
}

} // verus!
