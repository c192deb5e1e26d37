//! JSON report of the cycle check, laid out as `serde_json` pretty-prints a
//! value with sorted keys: `cycle_count`, `cycles` (each with `edges` and
//! `workspaces`) and `has_cycles`.

use vstd::prelude::*;

use crate::detector::cycle::{CycleEdge, CycleView, EdgeView, WorkspaceCycle};
use crate::detector::CycleDetector;
use crate::error::FerrisWheelError;
use crate::json_text::{
    json_bool, json_list, json_quote, json_quoted, list_item, push_bool, push_item_start, push_spaces,
    push_string_list, spaces,
};
use crate::reports::ReportGenerator;
use crate::text::{concat_all, decimal, lemma_concat_take, push_char, push_str, push_usize, views};

verus! {

/// The JSON object of an edge, at indentation 8.
pub open spec fn edge_json(e: EdgeView) -> Seq<char> {
    seq!['{', '\n'] + spaces(10) + "\"dependency_type\": "@ + json_quoted(e.4) + seq![',', '\n']
        + spaces(10) + "\"from_crate\": "@ + json_quoted(e.2) + seq![',', '\n']
        + spaces(10) + "\"to_crate\": "@ + json_quoted(e.3) + seq!['\n'] + spaces(8) + seq!['}']
}

/// The JSON object of a cycle, at indentation 4.
pub open spec fn cycle_json(c: CycleView) -> Seq<char> {
    seq!['{', '\n'] + spaces(6) + "\"edges\": "@ + json_list(c.1.map_values(|e: EdgeView| edge_json(e)), 6)
        + seq![',', '\n'] + spaces(6) + "\"workspaces\": "@ + json_list(c.0.map_values(|n: Seq<char>| json_quoted(n)), 6)
        + seq!['\n'] + spaces(4) + seq!['}']
}

/// The whole JSON report of the detected cycles.
pub open spec fn json_report_text(cycles: Seq<CycleView>) -> Seq<char> {
    seq!['{', '\n'] + spaces(2) + "\"cycle_count\": "@ + decimal(cycles.len()) + seq![',', '\n']
        + spaces(2) + "\"cycles\": "@ + json_list(cycles.map_values(|c: CycleView| cycle_json(c)), 2) + seq![',', '\n']
        + spaces(2) + "\"has_cycles\": "@ + json_bool(cycles.len() > 0) + seq!['\n', '}']
}

/// JSON report generator.
pub struct JsonReportGenerator;

impl Default for JsonReportGenerator {
    fn default() -> (r: Self)
        ensures
            r == JsonReportGenerator,
    {
        JsonReportGenerator::new()
    }
}

fn push_edge_json(out: &mut String, e: &CycleEdge)
    ensures
        final(out)@ == old(out)@ + edge_json(e@),
{
    push_char(out, '{');
    push_char(out, '\n');
    push_spaces(out, 10);
    push_str(out, "\"dependency_type\": ");
    let q = json_quote(e.dependency_type.as_str());
    push_str(out, q.as_str());
    push_char(out, ',');
    push_char(out, '\n');
    push_spaces(out, 10);
    push_str(out, "\"from_crate\": ");
    let q = json_quote(e.from_crate.as_str());
    push_str(out, q.as_str());
    push_char(out, ',');
    push_char(out, '\n');
    push_spaces(out, 10);
    push_str(out, "\"to_crate\": ");
    let q = json_quote(e.to_crate.as_str());
    push_str(out, q.as_str());
    push_char(out, '\n');
    push_spaces(out, 8);
    push_char(out, '}');
    assert(final(out)@ =~= old(out)@ + edge_json(e@));
}

fn push_edge_list(out: &mut String, edges: &[CycleEdge])
    ensures
        final(out)@ == old(out)@ + json_list(edges@.map_values(|e: CycleEdge| e@).map_values(|e: EdgeView| edge_json(e)), 6),
{
    let ghost iv = edges@.map_values(|e: CycleEdge| e@).map_values(|e: EdgeView| edge_json(e));
    if edges.len() == 0 {
        push_char(out, '[');
        push_char(out, ']');
        assert(final(out)@ =~= old(out)@ + json_list(iv, 6));
        return;
    }
    push_char(out, '[');
    let ghost head = out@;
    let ghost parts = Seq::new(iv.len(), |i: int| list_item(iv, 6, i));
    for i in 0..edges.len()
        invariant
            iv == edges@.map_values(|e: CycleEdge| e@).map_values(|e: EdgeView| edge_json(e)),
            parts == Seq::new(iv.len(), |i: int| list_item(iv, 6, i)),
            out@ == head + concat_all(parts.take(i as int)),
    {
        let ghost before = out@;
        push_item_start(out, 6, i);
        push_edge_json(out, &edges[i]);
        assert(out@ =~= before + parts[i as int]);
        proof { lemma_concat_take(parts, i as int); }
    }
    assert(parts.take(edges.len() as int) =~= parts);
    push_char(out, '\n');
    push_spaces(out, 6);
    push_char(out, ']');
    assert(final(out)@ =~= old(out)@ + json_list(iv, 6));
}

fn push_cycle_json(out: &mut String, c: &WorkspaceCycle)
    ensures
        final(out)@ == old(out)@ + cycle_json(c@),
{
    push_char(out, '{');
    push_char(out, '\n');
    push_spaces(out, 6);
    push_str(out, "\"edges\": ");
    let edges = c.edges();
    push_edge_list(out, edges);
    push_char(out, ',');
    push_char(out, '\n');
    push_spaces(out, 6);
    push_str(out, "\"workspaces\": ");
    let names = c.workspace_names();
    push_string_list(out, names, 6);
    push_char(out, '\n');
    push_spaces(out, 4);
    push_char(out, '}');
    assert(names@.map_values(|s: String| json_quoted(s@)) =~= c@.0.map_values(|n: Seq<char>| json_quoted(n)));
    assert(edges@.map_values(|e: CycleEdge| e@) =~= c@.1);
    assert(final(out)@ =~= old(out)@ + cycle_json(c@));
}

fn push_cycle_list(out: &mut String, cycles: &[WorkspaceCycle])
    ensures
        final(out)@ == old(out)@ + json_list(cycles@.map_values(|c: WorkspaceCycle| c@).map_values(|c: CycleView| cycle_json(c)), 2),
{
    let ghost iv = cycles@.map_values(|c: WorkspaceCycle| c@).map_values(|c: CycleView| cycle_json(c));
    if cycles.len() == 0 {
        push_char(out, '[');
        push_char(out, ']');
        assert(final(out)@ =~= old(out)@ + json_list(iv, 2));
        return;
    }
    push_char(out, '[');
    let ghost head = out@;
    let ghost parts = Seq::new(iv.len(), |i: int| list_item(iv, 2, i));
    for i in 0..cycles.len()
        invariant
            iv == cycles@.map_values(|c: WorkspaceCycle| c@).map_values(|c: CycleView| cycle_json(c)),
            parts == Seq::new(iv.len(), |i: int| list_item(iv, 2, i)),
            out@ == head + concat_all(parts.take(i as int)),
    {
        let ghost before = out@;
        push_item_start(out, 2, i);
        push_cycle_json(out, &cycles[i]);
        assert(out@ =~= before + parts[i as int]);
        proof { lemma_concat_take(parts, i as int); }
    }
    assert(parts.take(cycles.len() as int) =~= parts);
    push_char(out, '\n');
    push_spaces(out, 2);
    push_char(out, ']');
    assert(final(out)@ =~= old(out)@ + json_list(iv, 2));
}

impl JsonReportGenerator {
    pub fn new() -> (r: Self)
        ensures
            r == JsonReportGenerator,
    {
        JsonReportGenerator
    }

    /// The JSON text of the detected cycles.
    pub fn report_text(&self, detector: &CycleDetector) -> (r: String)
        ensures
            r@ == json_report_text(detector@),
    {
        let cycles = detector.cycles();
        let mut out = String::new();
        push_char(&mut out, '{');
        push_char(&mut out, '\n');
        push_spaces(&mut out, 2);
        push_str(&mut out, "\"cycle_count\": ");
        push_usize(&mut out, detector.cycle_count());
        push_char(&mut out, ',');
        push_char(&mut out, '\n');
        push_spaces(&mut out, 2);
        push_str(&mut out, "\"cycles\": ");
        push_cycle_list(&mut out, cycles);
        push_char(&mut out, ',');
        push_char(&mut out, '\n');
        push_spaces(&mut out, 2);
        push_str(&mut out, "\"has_cycles\": ");
        push_bool(&mut out, detector.has_cycles());
        push_char(&mut out, '\n');
        push_char(&mut out, '}');
        assert(out@ =~= json_report_text(detector@));
        out
    }
}

impl ReportGenerator for JsonReportGenerator {
    open spec fn is_report(&self, cycles: Seq<CycleView>, text: Seq<char>) -> bool {
        text == json_report_text(cycles)
    }

    fn generate_report(&self, detector: &CycleDetector) -> (r: Result<String, FerrisWheelError>)
        ensures
            r matches Ok(s) && s@ == json_report_text(detector@),
    {
        Ok(self.report_text(detector))
    }
}

} // verus!
