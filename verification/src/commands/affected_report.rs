//! The reports of the `ripples` command: the affected crates and
//! workspaces as text, JSON, JUnit XML or GitHub annotations.

use vstd::prelude::*;

use crate::commands::affected_analysis::{
    id_views, row_views, workspace_rows, AffectedAnalysis, AffectedCrate, AffectedJsonReport, AffectedResult, AffectedWorkspace,
    CrateRow,
};
use crate::commands::deps::first_workspace;
use crate::config::AffectedConfig;
use crate::error::FerrisWheelError;
use crate::json_text::{
    bool_text, json_bool, json_field, json_list, json_quote, json_quoted, list_item, push_item_start, push_json_field,
    push_spaces, push_string_list, spaces,
};
use crate::text::{
    concat_all, contains_str, decimal, dup, insert_ordered, join, lemma_concat_take, line, ordered, push_char, push_line, push_newline,
    push_str, push_usize, seq_join, views,
};

verus! {

/// The rows of the directly affected crates among `rows`, in order.
pub open spec fn direct_rows(rows: Seq<CrateRow>) -> Seq<CrateRow>
    decreases rows.len(),
{
    if rows.len() == 0 {
        Seq::empty()
    } else if rows.last().2 {
        direct_rows(rows.drop_last()).push(rows.last())
    } else {
        direct_rows(rows.drop_last())
    }
}

/// The workspace entries among `ws` whose name is in `names`, in order.
pub open spec fn rows_named(ws: Seq<(Seq<char>, Seq<char>)>, names: Seq<Seq<char>>) -> Seq<(Seq<char>, Seq<char>)>
    decreases ws.len(),
{
    if ws.len() == 0 {
        Seq::empty()
    } else if names.contains(ws.last().0) {
        rows_named(ws.drop_last(), names).push(ws.last())
    } else {
        rows_named(ws.drop_last(), names)
    }
}

/// The JSON object of a reported crate, laid out at indentation 4.
pub open spec fn crate_json(c: CrateRow) -> Seq<char> {
    "{\n"@ + json_field("name"@, json_quoted(c.0), false) + json_field("workspace"@, json_quoted(c.1), false)
        + json_field("is_directly_affected"@, json_bool(c.2), false) + json_field("is_standalone"@, json_bool(c.3), true)
        + spaces(4) + "}"@
}

/// The JSON object of a reported workspace, laid out at indentation 4.
pub open spec fn workspace_json(w: (Seq<char>, Seq<char>)) -> Seq<char> {
    "{\n"@ + json_field("name"@, json_quoted(w.0), false) + json_field("path"@, json_quoted(w.1), true) + spaces(4) + "}"@
}

/// The pretty-printed JSON text of a report with these crate rows,
/// workspace entries, directly affected crate names and directly affected
/// workspace entries.
pub open spec fn json_text_of(rows: Seq<CrateRow>, ws: Seq<(Seq<char>, Seq<char>)>, direct_names: Seq<Seq<char>>,
    direct_ws: Seq<(Seq<char>, Seq<char>)>) -> Seq<char>
{
    "{\n  \"affected_crates\": "@ + json_list(rows.map_values(|c: CrateRow| crate_json(c)), 2)
        + ",\n  \"affected_workspaces\": "@ + json_list(
        ws.map_values(|w: (Seq<char>, Seq<char>)| workspace_json(w)),
        2,
    ) + ",\n  \"directly_affected_crates\": "@ + json_list(
        direct_names.map_values(|s: Seq<char>| json_quoted(s)),
        2,
    ) + ",\n  \"directly_affected_workspaces\": "@ + json_list(
        direct_ws.map_values(|w: (Seq<char>, Seq<char>)| workspace_json(w)),
        2,
    ) + "\n}"@
}

/// The pretty-printed JSON text of a report.
pub open spec fn report_json(r: AffectedJsonReport) -> Seq<char> {
    json_text_of(row_views(r.affected_crates@), workspace_rows(r.affected_workspaces@), views(r.directly_affected_crates@),
        workspace_rows(r.directly_affected_workspaces@))
}

/// The JSON report of a result: all affected crates and workspaces, or
/// only the directly affected ones where `direct_only` holds.
pub open spec fn affected_json_text(result: AffectedResult, a: &AffectedAnalysis, direct_only: bool) -> Seq<char> {
    let full = result.to_json_report_spec(a);
    json_text_of(
        if direct_only { direct_rows(full.0) } else { full.0 },
        if direct_only { rows_named(full.1, views(result.directly_affected_workspaces@)) } else { full.1 },
        full.2,
        full.3,
    )
}

fn push_crate_json(output: &mut String, c: &AffectedCrate)
    ensures
        final(output)@ == old(output)@ + crate_json((c.name@, c.workspace@, c.is_directly_affected, c.is_standalone)),
{
    let ghost before = output@;
    let name = json_quote(c.name.as_str());
    let workspace = json_quote(c.workspace.as_str());
    let direct = bool_text(c.is_directly_affected);
    let standalone = bool_text(c.is_standalone);
    push_str(output, "{\n");
    push_json_field(output, "name", name.as_str(), false);
    push_json_field(output, "workspace", workspace.as_str(), false);
    push_json_field(output, "is_directly_affected", direct.as_str(), false);
    push_json_field(output, "is_standalone", standalone.as_str(), true);
    push_spaces(output, 4);
    push_str(output, "}");
    assert(output@ =~= before + crate_json((c.name@, c.workspace@, c.is_directly_affected, c.is_standalone)));
}

fn push_workspace_json(output: &mut String, w: &AffectedWorkspace)
    ensures
        final(output)@ == old(output)@ + workspace_json((w.name@, w.path@)),
{
    let ghost before = output@;
    let name = json_quote(w.name.as_str());
    let path = json_quote(w.path.as_str());
    push_str(output, "{\n");
    push_json_field(output, "name", name.as_str(), false);
    push_json_field(output, "path", path.as_str(), true);
    push_spaces(output, 4);
    push_str(output, "}");
    assert(output@ =~= before + workspace_json((w.name@, w.path@)));
}

fn push_crate_list(output: &mut String, items: &Vec<AffectedCrate>)
    ensures
        final(output)@ == old(output)@ + json_list(row_views(items@).map_values(|c: CrateRow| crate_json(c)), 2),
{
    let ghost entries = row_views(items@).map_values(|c: CrateRow| crate_json(c));
    let ghost head = output@;
    if items.len() == 0 {
        push_char(output, '[');
        push_char(output, ']');
        assert(output@ =~= head + json_list(entries, 2));
        return;
    }
    push_char(output, '[');
    let ghost start = output@;
    let ghost parts = Seq::new(entries.len(), |i: int| list_item(entries, 2, i));
    for i in 0..items.len()
        invariant
            entries == row_views(items@).map_values(|c: CrateRow| crate_json(c)),
            parts == Seq::new(entries.len(), |i: int| list_item(entries, 2, i)),
            output@ == start + concat_all(parts.take(i as int)),
    {
        let ghost before = output@;
        push_item_start(output, 2, i);
        push_crate_json(output, &items[i]);
        assert(output@ =~= before + parts[i as int]);
        proof { lemma_concat_take(parts, i as int); }
    }
    assert(parts.take(items.len() as int) =~= parts);
    push_char(output, '\n');
    push_spaces(output, 2);
    push_char(output, ']');
    assert(output@ =~= head + json_list(entries, 2));
}

fn push_workspace_list(output: &mut String, items: &Vec<AffectedWorkspace>)
    ensures
        final(output)@ == old(output)@ + json_list(
            workspace_rows(items@).map_values(|w: (Seq<char>, Seq<char>)| workspace_json(w)),
            2,
        ),
{
    let ghost entries = workspace_rows(items@).map_values(|w: (Seq<char>, Seq<char>)| workspace_json(w));
    let ghost head = output@;
    if items.len() == 0 {
        push_char(output, '[');
        push_char(output, ']');
        assert(output@ =~= head + json_list(entries, 2));
        return;
    }
    push_char(output, '[');
    let ghost start = output@;
    let ghost parts = Seq::new(entries.len(), |i: int| list_item(entries, 2, i));
    for i in 0..items.len()
        invariant
            entries == workspace_rows(items@).map_values(|w: (Seq<char>, Seq<char>)| workspace_json(w)),
            parts == Seq::new(entries.len(), |i: int| list_item(entries, 2, i)),
            output@ == start + concat_all(parts.take(i as int)),
    {
        let ghost before = output@;
        push_item_start(output, 2, i);
        push_workspace_json(output, &items[i]);
        assert(output@ =~= before + parts[i as int]);
        proof { lemma_concat_take(parts, i as int); }
    }
    assert(parts.take(items.len() as int) =~= parts);
    push_char(output, '\n');
    push_spaces(output, 2);
    push_char(output, ']');
    assert(output@ =~= head + json_list(entries, 2));
}

impl AffectedJsonReport {
    /// The report as pretty-printed JSON.
    pub fn to_json_text(&self) -> (r: String)
        ensures
            r@ == report_json(*self),
    {
        let mut output = String::new();
        push_str(&mut output, "{\n  \"affected_crates\": ");
        push_crate_list(&mut output, &self.affected_crates);
        push_str(&mut output, ",\n  \"affected_workspaces\": ");
        push_workspace_list(&mut output, &self.affected_workspaces);
        push_str(&mut output, ",\n  \"directly_affected_crates\": ");
        push_string_list(&mut output, self.directly_affected_crates.as_slice(), 2);
        assert(views(self.directly_affected_crates@).map_values(|s: Seq<char>| json_quoted(s))
            =~= self.directly_affected_crates@.map_values(|s: String| json_quoted(s@)));
        push_str(&mut output, ",\n  \"directly_affected_workspaces\": ");
        push_workspace_list(&mut output, &self.directly_affected_workspaces);
        push_str(&mut output, "\n}");
        assert(output@ =~= report_json(*self));
        output
    }
}

/// The JSON report of a result: in `direct_only` mode, only the directly
/// affected crates, and only the affected workspaces among the directly
/// affected ones.
pub fn affected_json_report(result: &AffectedResult, analysis: &AffectedAnalysis, direct_only: bool) -> (r: AffectedJsonReport)
    requires
        analysis.wf(),
    ensures
        ({
            let full = result.to_json_report_spec(analysis);
            &&& row_views(r.affected_crates@) == (if direct_only {
                direct_rows(full.0)
            } else {
                full.0
            })
            &&& workspace_rows(r.affected_workspaces@) == (if direct_only {
                rows_named(full.1, views(result.directly_affected_workspaces@))
            } else {
                full.1
            })
            &&& views(r.directly_affected_crates@) == full.2
            &&& workspace_rows(r.directly_affected_workspaces@) == full.3
        }),
{
    let full = result.to_json_report(analysis);
    if !direct_only {
        return full;
    }
    let mut crates: Vec<AffectedCrate> = Vec::new();
    for i in 0..full.affected_crates.len()
        invariant
            row_views(crates@) == direct_rows(row_views(full.affected_crates@).take(i as int)),
    {
        let c = &full.affected_crates[i];
        let ghost rows = row_views(full.affected_crates@);
        assert(rows.take(i + 1).drop_last() =~= rows.take(i as int));
        assert(rows.take(i + 1).last() == rows[i as int]);
        if c.is_directly_affected {
            crates.push(AffectedCrate {
                name: dup(&c.name),
                workspace: dup(&c.workspace),
                is_directly_affected: c.is_directly_affected,
                is_standalone: c.is_standalone,
            });
            assert(row_views(crates@) =~= direct_rows(rows.take(i + 1)));
        }
    }
    assert(row_views(full.affected_crates@).take(full.affected_crates.len() as int) =~= row_views(full.affected_crates@));
    let mut workspaces: Vec<AffectedWorkspace> = Vec::new();
    for i in 0..full.affected_workspaces.len()
        invariant
            workspace_rows(workspaces@) == rows_named(
                workspace_rows(full.affected_workspaces@).take(i as int),
                views(result.directly_affected_workspaces@),
            ),
    {
        let w = &full.affected_workspaces[i];
        let ghost rows = workspace_rows(full.affected_workspaces@);
        assert(rows.take(i + 1).drop_last() =~= rows.take(i as int));
        assert(rows.take(i + 1).last() == rows[i as int]);
        if contains_str(result.directly_affected_workspaces.as_slice(), w.name.as_str()) {
            workspaces.push(AffectedWorkspace { name: dup(&w.name), path: dup(&w.path) });
            assert(workspace_rows(workspaces@) =~= rows_named(rows.take(i + 1), views(result.directly_affected_workspaces@)));
        }
    }
    assert(workspace_rows(full.affected_workspaces@).take(full.affected_workspaces.len() as int)
        =~= workspace_rows(full.affected_workspaces@));
    AffectedJsonReport {
        affected_crates: crates,
        affected_workspaces: workspaces,
        directly_affected_crates: full.directly_affected_crates,
        directly_affected_workspaces: full.directly_affected_workspaces,
    }
}

/// The JSON report text of a result.
pub fn generate_json_report(result: &AffectedResult, analysis: &AffectedAnalysis, config: &AffectedConfig) -> (r: Result<
    String,
    FerrisWheelError,
>)
    requires
        analysis.wf(),
    ensures
        r matches Ok(s) && s@ == affected_json_text(*result, analysis, config.direct_only),
{
    let report = affected_json_report(result, analysis, config.direct_only);
    let text = report.to_json_text();
    Ok(text)
}

/// The names of the crates of `ids` that are not in `direct`, in order.
pub open spec fn indirect_names(ids: Seq<(Seq<char>, Seq<char>)>, direct: Set<(Seq<char>, Seq<char>)>) -> Seq<Seq<char>>
    decreases ids.len(),
{
    if ids.len() == 0 {
        Seq::empty()
    } else if direct.contains(ids.last()) {
        indirect_names(ids.drop_last(), direct)
    } else {
        indirect_names(ids.drop_last(), direct).push(ids.last().0)
    }
}

/// The names of `ws` that are not in `direct`, in order.
pub open spec fn names_not_in(ws: Seq<Seq<char>>, direct: Seq<Seq<char>>) -> Seq<Seq<char>>
    decreases ws.len(),
{
    if ws.len() == 0 {
        Seq::empty()
    } else if direct.contains(ws.last()) {
        names_not_in(ws.drop_last(), direct)
    } else {
        names_not_in(ws.drop_last(), direct).push(ws.last())
    }
}

/// The lines of a workspace in the text report: its name and, where a
/// workspace of that name exists, its path.
pub open spec fn workspace_lines(a: &AffectedAnalysis, w: Seq<char>, suffix: Seq<char>) -> Seq<char> {
    let i = first_workspace(a.workspaces@, w, a.workspaces@.len());
    line("    📦 "@ + w + suffix) + if i >= 0 { line("      📍 Path: "@ + a.workspaces@[i].0@) } else { Seq::empty() }
}

/// The lines listing crate names.
pub open spec fn crate_lines(names: Seq<Seq<char>>, suffix: Seq<char>) -> Seq<char> {
    concat_all(names.map_values(|c: Seq<char>| line("    - "@ + c + suffix)))
}

/// The section of the text report on the directly affected crates and
/// workspaces.
pub open spec fn direct_section(result: AffectedResult, a: &AffectedAnalysis, show_crates: bool) -> Seq<char> {
    let direct = id_views(result.directly_affected_crates@);
    let dws = views(result.directly_affected_workspaces@);
    (if show_crates {
        line("  Crates: "@ + decimal(direct.len())) + crate_lines(ordered(direct.map_values(|x: (Seq<char>, Seq<char>)| x.0)), ""@)
    } else {
        Seq::empty()
    })
        + line("  Workspaces: "@ + decimal(dws.len()))
        + concat_all(dws.map_values(|w: Seq<char>| workspace_lines(a, w, ""@)))
}

/// The section of the text report on the crates and workspaces affected
/// through reverse dependencies.
pub open spec fn indirect_section(result: AffectedResult, a: &AffectedAnalysis, show_crates: bool) -> Seq<char> {
    let direct = id_views(result.directly_affected_crates@);
    let all = id_views(result.all_affected_crates@);
    let dws = views(result.directly_affected_workspaces@);
    let aws = views(result.all_affected_workspaces@);
    line("\n🔄 All affected (including reverse dependencies):"@)
        + (if show_crates {
            line("  Crates: "@ + decimal(all.len())) + crate_lines(ordered(indirect_names(all, direct.to_set())), " (indirect)"@)
        } else {
            Seq::empty()
        })
        + line("  Workspaces: "@ + decimal(aws.len()))
        + concat_all(names_not_in(aws, dws).map_values(|w: Seq<char>| workspace_lines(a, w, " (indirect)"@)))
}

/// The text report of a result.
pub open spec fn human_affected(result: AffectedResult, a: &AffectedAnalysis, files: nat, show_crates: bool, direct_only: bool) -> Seq<char> {
    line("\n📁 Analyzing "@ + decimal(files) + " changed files"@)
        + line("\n🎯 Directly affected:"@)
        + direct_section(result, a, show_crates)
        + (if direct_only { Seq::empty() } else { indirect_section(result, a, show_crates) })
}

fn push_crate_lines(output: &mut String, names: &Vec<String>, suffix: &str)
    ensures
        final(output)@ == old(output)@ + crate_lines(views(names@), suffix@),
{
    let ghost lines = views(names@).map_values(|c: Seq<char>| line("    - "@ + c + suffix@));
    let ghost head = output@;
    for i in 0..names.len()
        invariant
            lines == views(names@).map_values(|c: Seq<char>| line("    - "@ + c + suffix@)),
            output@ == head + concat_all(lines.take(i as int)),
    {
        let ghost before = output@;
        push_str(output, "    - ");
        push_str(output, names[i].as_str());
        push_line(output, suffix);
        assert(output@ =~= before + lines[i as int]);
        proof { lemma_concat_take(lines, i as int); }
    }
    assert(lines.take(names.len() as int) =~= lines);
}

fn push_workspace_lines(output: &mut String, analysis: &AffectedAnalysis, w: &str, suffix: &str)
    ensures
        final(output)@ == old(output)@ + workspace_lines(analysis, w@, suffix@),
{
    let ghost before = output@;
    push_str(output, "    📦 ");
    push_str(output, w);
    push_line(output, suffix);
    assert(output@ =~= before + line("    📦 "@ + w@ + suffix@));
    let ghost mid = output@;
    let mut j: usize = 0;
    while j < analysis.workspaces.len()
        invariant
            before == old(output)@,
            mid == before + line("    📦 "@ + w@ + suffix@),
            output@ == mid,
            j <= analysis.workspaces@.len(),
            first_workspace(analysis.workspaces@, w@, j as nat) < 0,
        decreases analysis.workspaces@.len() - j,
    {
        if crate::text::str_eq(analysis.workspaces[j].1.name.as_str(), w) {
            proof {
                crate::commands::deps::lemma_first_workspace_stable(analysis.workspaces@, w@, (j + 1) as nat,
                    analysis.workspaces@.len());
            }
            push_str(output, "      📍 Path: ");
            push_line(output, analysis.workspaces[j].0.as_str());
            assert(output@ =~= before + workspace_lines(analysis, w@, suffix@));
            return;
        }
        j = j + 1;
    }
    assert(output@ =~= before + workspace_lines(analysis, w@, suffix@));
}

fn push_workspace_list_lines(output: &mut String, analysis: &AffectedAnalysis, ws: &Vec<String>, suffix: &str)
    ensures
        final(output)@ == old(output)@ + concat_all(views(ws@).map_values(|w: Seq<char>| workspace_lines(analysis, w, suffix@))),
{
    let ghost parts = views(ws@).map_values(|w: Seq<char>| workspace_lines(analysis, w, suffix@));
    let ghost head = output@;
    for i in 0..ws.len()
        invariant
            parts == views(ws@).map_values(|w: Seq<char>| workspace_lines(analysis, w, suffix@)),
            output@ == head + concat_all(parts.take(i as int)),
    {
        push_workspace_lines(output, analysis, ws[i].as_str(), suffix);
        proof { lemma_concat_take(parts, i as int); }
    }
    assert(parts.take(ws.len() as int) =~= parts);
}

/// The text report of a result: the number of changed files; the directly
/// affected crates (when asked for) and workspaces with their paths; and,
/// unless only direct effects are asked for, the crates and workspaces
/// affected through reverse dependencies.
pub fn generate_human_report(result: &AffectedResult, analysis: &AffectedAnalysis, config: &AffectedConfig) -> (r: Result<
    String,
    FerrisWheelError,
>)
    ensures
        r matches Ok(s) && s@ == human_affected(*result, analysis, config.files@.len(), config.show_crates, config.direct_only),
{
    let mut output = String::new();
    push_str(&mut output, "\n📁 Analyzing ");
    push_usize(&mut output, config.files.len());
    push_line(&mut output, " changed files");
    push_line(&mut output, "\n🎯 Directly affected:");
    assert(output@ =~= line("\n📁 Analyzing "@ + decimal(config.files@.len()) + " changed files"@) + line("\n🎯 Directly affected:"@));
    push_direct_section(&mut output, result, analysis, config.show_crates);
    if !config.direct_only {
        push_indirect_section(&mut output, result, analysis, config.show_crates);
    }
    assert(output@ =~= human_affected(*result, analysis, config.files@.len(), config.show_crates, config.direct_only));
    Ok(output)
}

fn push_direct_section(output: &mut String, result: &AffectedResult, analysis: &AffectedAnalysis, show_crates: bool)
    ensures
        final(output)@ == old(output)@ + direct_section(*result, analysis, show_crates),
{
    let ghost direct = id_views(result.directly_affected_crates@);
    let ghost before = output@;
    if show_crates {
        push_str(output, "  Crates: ");
        push_usize(output, result.directly_affected_crates.len());
        push_newline(output);
        let ghost names = direct.map_values(|x: (Seq<char>, Seq<char>)| x.0);
        let mut sorted: Vec<String> = Vec::new();
        for i in 0..result.directly_affected_crates.len()
            invariant
                direct == id_views(result.directly_affected_crates@),
                names == direct.map_values(|x: (Seq<char>, Seq<char>)| x.0),
                views(sorted@) == ordered(names.take(i as int)),
        {
            insert_ordered(&mut sorted, dup(&result.directly_affected_crates[i].name));
            assert(names.take(i + 1).drop_last() =~= names.take(i as int));
        }
        assert(names.take(result.directly_affected_crates.len() as int) =~= names);
        push_crate_lines(output, &sorted, "");
    }
    push_str(output, "  Workspaces: ");
    push_usize(output, result.directly_affected_workspaces.len());
    push_newline(output);
    push_workspace_list_lines(output, analysis, &result.directly_affected_workspaces, "");
    assert(output@ =~= before + direct_section(*result, analysis, show_crates));
}

fn push_indirect_section(output: &mut String, result: &AffectedResult, analysis: &AffectedAnalysis, show_crates: bool)
    ensures
        final(output)@ == old(output)@ + indirect_section(*result, analysis, show_crates),
{
    let ghost direct = id_views(result.directly_affected_crates@);
    let ghost all = id_views(result.all_affected_crates@);
    let ghost dws = views(result.directly_affected_workspaces@);
    let ghost aws = views(result.all_affected_workspaces@);
    let ghost before = output@;
    push_line(output, "\n🔄 All affected (including reverse dependencies):");
    if show_crates {
        push_str(output, "  Crates: ");
        push_usize(output, result.all_affected_crates.len());
        push_newline(output);
        let ghost dset = direct.to_set();
        let mut sorted: Vec<String> = Vec::new();
        for i in 0..result.all_affected_crates.len()
            invariant
                direct == id_views(result.directly_affected_crates@),
                all == id_views(result.all_affected_crates@),
                dset == direct.to_set(),
                views(sorted@) == ordered(indirect_names(all.take(i as int), dset)),
        {
            let c = &result.all_affected_crates[i];
            let is_direct = crate::commands::affected_analysis::contains_id(&result.directly_affected_crates, c);
            assert(all.take(i + 1).drop_last() =~= all.take(i as int));
            assert(all.take(i + 1).last() == c@);
            assert(dset.contains(c@) == direct.contains(c@));
            if !is_direct {
                insert_ordered(&mut sorted, dup(&c.name));
                assert(indirect_names(all.take(i + 1), dset).drop_last() =~= indirect_names(all.take(i as int), dset));
            }
        }
        assert(all.take(result.all_affected_crates.len() as int) =~= all);
        push_crate_lines(output, &sorted, " (indirect)");
    }
    push_str(output, "  Workspaces: ");
    push_usize(output, result.all_affected_workspaces.len());
    push_newline(output);
    let mut indirect: Vec<String> = Vec::new();
    for i in 0..result.all_affected_workspaces.len()
        invariant
            dws == views(result.directly_affected_workspaces@),
            aws == views(result.all_affected_workspaces@),
            views(indirect@) == names_not_in(aws.take(i as int), dws),
    {
        let w = &result.all_affected_workspaces[i];
        assert(aws.take(i + 1).drop_last() =~= aws.take(i as int));
        assert(aws.take(i + 1).last() == w@);
        if !contains_str(result.directly_affected_workspaces.as_slice(), w.as_str()) {
            indirect.push(dup(w));
            assert(views(indirect@) =~= names_not_in(aws.take(i + 1), dws));
        }
    }
    assert(aws.take(result.all_affected_workspaces.len() as int) =~= aws);
    push_workspace_list_lines(output, analysis, &indirect, " (indirect)");
    assert(output@ =~= before + indirect_section(*result, analysis, show_crates));
}

/// The GitHub report of a result: the number of files and of affected
/// workspaces (only directly affected ones in `direct_only` mode), then
/// their names.
pub open spec fn github_affected(result: AffectedResult, files: nat, direct_only: bool) -> Seq<char> {
    let ws = if direct_only { views(result.directly_affected_workspaces@) } else { views(result.all_affected_workspaces@) };
    line("::notice title=Affected Analysis::Analyzed "@ + decimal(files) + " files, found "@ + decimal(ws.len())
        + " affected workspace"@ + (if ws.len() == 1 { Seq::empty() } else { "s"@ }))
        + (if ws.len() > 0 { line("::notice title=Affected Workspaces::"@ + seq_join(ws, ", "@)) } else { Seq::empty() })
}

/// The GitHub report of a result.
pub fn generate_github_report(result: &AffectedResult, config: &AffectedConfig) -> (r: Result<String, FerrisWheelError>)
    ensures
        r matches Ok(s) && s@ == github_affected(*result, config.files@.len(), config.direct_only),
{
    let workspaces = if config.direct_only {
        &result.directly_affected_workspaces
    } else {
        &result.all_affected_workspaces
    };
    let mut output = String::new();
    push_str(&mut output, "::notice title=Affected Analysis::Analyzed ");
    push_usize(&mut output, config.files.len());
    push_str(&mut output, " files, found ");
    push_usize(&mut output, workspaces.len());
    push_str(&mut output, " affected workspace");
    if workspaces.len() == 1 {
        push_newline(&mut output);
    } else {
        push_line(&mut output, "s");
    }
    if workspaces.len() > 0 {
        push_str(&mut output, "::notice title=Affected Workspaces::");
        let joined = join(workspaces.as_slice(), ", ");
        push_line(&mut output, joined.as_str());
    }
    assert(output@ =~= github_affected(*result, config.files@.len(), config.direct_only));
    Ok(output)
}

/// The JUnit report of a result.
pub open spec fn junit_affected(result: AffectedResult, files: nat, direct_only: bool) -> Seq<char> {
    line("<?xml version=\"1.0\" encoding=\"UTF-8\"?>"@)
        + line("<testsuites name=\"affected-analysis\" tests=\"1\" failures=\"0\">"@)
        + line("  <testsuite name=\"file-analysis\" tests=\"1\" failures=\"0\">"@)
        + line("    <testcase name=\"analyze-changed-files\" classname=\"ferris-wheel\">"@)
        + line("      <system-out>"@)
        + line("        Files analyzed: "@ + decimal(files))
        + line("        Directly affected crates: "@ + decimal(result.directly_affected_crates@.len()))
        + line("        Directly affected workspaces: "@ + decimal(result.directly_affected_workspaces@.len()))
        + (if direct_only {
            Seq::empty()
        } else {
            line("        All affected crates: "@ + decimal(result.all_affected_crates@.len()))
                + line("        All affected workspaces: "@ + decimal(result.all_affected_workspaces@.len()))
        })
        + line("      </system-out>"@) + line("    </testcase>"@) + line("  </testsuite>"@) + line("</testsuites>"@)
}

/// The JUnit report of a result: one passing test case with the counts.
pub fn generate_junit_report(result: &AffectedResult, config: &AffectedConfig) -> (r: Result<String, FerrisWheelError>)
    ensures
        r matches Ok(s) && s@ == junit_affected(*result, config.files@.len(), config.direct_only),
{
    let mut output = String::new();
    push_line(&mut output, "<?xml version=\"1.0\" encoding=\"UTF-8\"?>");
    push_line(&mut output, "<testsuites name=\"affected-analysis\" tests=\"1\" failures=\"0\">");
    push_line(&mut output, "  <testsuite name=\"file-analysis\" tests=\"1\" failures=\"0\">");
    push_line(&mut output, "    <testcase name=\"analyze-changed-files\" classname=\"ferris-wheel\">");
    push_line(&mut output, "      <system-out>");
    let ghost s0 = output@;
    push_str(&mut output, "        Files analyzed: ");
    push_usize(&mut output, config.files.len());
    push_newline(&mut output);
    push_str(&mut output, "        Directly affected crates: ");
    push_usize(&mut output, result.directly_affected_crates.len());
    push_newline(&mut output);
    push_str(&mut output, "        Directly affected workspaces: ");
    push_usize(&mut output, result.directly_affected_workspaces.len());
    push_newline(&mut output);
    if !config.direct_only {
        push_str(&mut output, "        All affected crates: ");
        push_usize(&mut output, result.all_affected_crates.len());
        push_newline(&mut output);
        push_str(&mut output, "        All affected workspaces: ");
        push_usize(&mut output, result.all_affected_workspaces.len());
        push_newline(&mut output);
    }
    push_line(&mut output, "      </system-out>");
    push_line(&mut output, "    </testcase>");
    push_line(&mut output, "  </testsuite>");
    push_line(&mut output, "</testsuites>");
    assert(output@ =~= junit_affected(*result, config.files@.len(), config.direct_only));
    Ok(output)
}

} // verus!
