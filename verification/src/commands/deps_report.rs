//! The reports of the `lineup` command: for each workspace asked about, its
//! direct, reverse or transitive dependencies, as text, JSON, JUnit XML or
//! GitHub annotations.

use vstd::prelude::*;

use crate::commands::deps::{
    direct_list, first_workspace, reverse_list, transitive_list, workspace_name_views, WorkspaceDependencyAnalysis,
};
use crate::error::FerrisWheelError;
use crate::json_text::{
    bool_text, json_bool, json_field, json_list, json_quote, json_quoted, list_item, push_bool, push_item_start, push_json_field,
    push_spaces, push_string_list, spaces,
};
use crate::text::{opt_view, concat_all, decimal, dup, join, lemma_concat_take, line, ordered, push_char, push_line, push_newline, push_str, push_usize, seq_join, to_owned, views};

verus! {

/// The dependencies of workspace `x` that a report lists: reverse ones,
/// else transitive ones, else direct ones.
pub open spec fn deps_for(a: &WorkspaceDependencyAnalysis, x: Seq<char>, reverse: bool, transitive: bool) -> Seq<Seq<char>> {
    if reverse {
        reverse_list(a.names(), a.arc_list(), x)
    } else if transitive {
        transitive_list(a.names(), a.arc_list(), x)
    } else {
        direct_list(a.names(), a.arc_list(), x)
    }
}

/// The workspaces a report covers: the one asked for, or all of them by name.
pub open spec fn listed_workspaces(a: &WorkspaceDependencyAnalysis, filter: Option<Seq<char>>) -> Seq<Seq<char>> {
    match filter {
        Some(f) => seq![f],
        None => ordered(workspace_name_views(a.workspaces@)),
    }
}

/// The path of the first workspace named `x`, if any.
pub open spec fn path_for(a: &WorkspaceDependencyAnalysis, x: Seq<char>) -> Option<Seq<char>> {
    let i = first_workspace(a.workspaces@, x, a.workspaces@.len());
    if i < 0 { None } else { Some(a.workspaces@[i].0@) }
}

/// Whether the first workspace named `x` is a standalone crate; `false`
/// where there is none.
pub open spec fn standalone_for(a: &WorkspaceDependencyAnalysis, x: Seq<char>) -> bool {
    let i = first_workspace(a.workspaces@, x, a.workspaces@.len());
    i >= 0 && a.workspaces@[i].1.is_standalone
}

/// The heading of the dependency list in the text report.
pub open spec fn human_heading(reverse: bool, transitive: bool) -> Seq<char> {
    if reverse {
        "  ⬆️  Reverse dependencies (who depends on this):"@
    } else if transitive {
        "  ⬇️  All transitive dependencies:"@
    } else {
        "  ⬇️  Direct dependencies:"@
    }
}

/// The lines listing dependencies, or `(none)`.
pub open spec fn dep_lines(deps: Seq<Seq<char>>) -> Seq<char> {
    if deps.len() == 0 {
        line("    (none)"@)
    } else {
        concat_all(deps.map_values(|d: Seq<char>| line("    - "@ + d)))
    }
}

/// The block of one workspace in the text report.
#[verifier::opaque]
pub open spec fn human_block(a: &WorkspaceDependencyAnalysis, x: Seq<char>, reverse: bool, transitive: bool) -> Seq<char> {
    line("\n📦 Workspace: "@ + x)
        + match path_for(a, x) {
            Some(p) => line("  📍 Path: "@ + p),
            None => Seq::empty(),
        }
        + line(human_heading(reverse, transitive))
        + dep_lines(deps_for(a, x, reverse, transitive))
}

/// The name of the kind of dependencies listed.
pub open spec fn dep_kind(reverse: bool, transitive: bool) -> Seq<char> {
    if reverse { "reverse"@ } else if transitive { "transitive"@ } else { "direct"@ }
}

/// The JSON object of one workspace, laid out at indentation 4.
#[verifier::opaque]
pub open spec fn json_entry(a: &WorkspaceDependencyAnalysis, x: Seq<char>, reverse: bool, transitive: bool) -> Seq<char> {
    "{\n"@
        + json_field("name"@, json_quoted(x), false)
        + json_field("path"@, json_quoted(
            match path_for(a, x) {
                Some(p) => p,
                None => "(unknown)"@,
            },
        ), false)
        + json_field("dependencies"@, json_list(deps_for(a, x, reverse, transitive).map_values(|d: Seq<char>| json_quoted(d)), 6), false)
        + json_field("reverse"@, json_bool(reverse), false)
        + json_field("transitive"@, json_bool(transitive), false)
        + json_field("is_standalone"@, json_bool(standalone_for(a, x)), true)
        + spaces(4) + "}"@
}

/// The line of one workspace in the JUnit report.
#[verifier::opaque]
pub open spec fn junit_line(a: &WorkspaceDependencyAnalysis, x: Seq<char>, reverse: bool, transitive: bool) -> Seq<char> {
    line("  "@ + x + ": "@ + decimal(deps_for(a, x, reverse, transitive).len()) + " dependencies"@)
}

/// The annotation of one workspace in the GitHub report.
#[verifier::opaque]
pub open spec fn github_line(a: &WorkspaceDependencyAnalysis, x: Seq<char>, reverse: bool, transitive: bool) -> Seq<char> {
    let deps = deps_for(a, x, reverse, transitive);
    line("::notice title="@ + x + "::"@ + decimal(deps.len()) + " "@ + dep_kind(reverse, transitive)
        + " dependencies: "@ + seq_join(deps, ", "@))
}

/// The text report.
pub open spec fn deps_human_text(a: &WorkspaceDependencyAnalysis, filter: Option<Seq<char>>, reverse: bool, transitive: bool) -> Seq<char> {
    concat_all(listed_workspaces(a, filter).map_values(|x: Seq<char>| human_block(a, x, reverse, transitive)))
}

/// The JSON report.
pub open spec fn deps_json_text(a: &WorkspaceDependencyAnalysis, filter: Option<Seq<char>>, reverse: bool, transitive: bool) -> Seq<char> {
    "{\n  \"workspaces\": "@ + json_list(
        listed_workspaces(a, filter).map_values(|x: Seq<char>| json_entry(a, x, reverse, transitive)),
        2,
    ) + "\n}"@
}

/// The JUnit report.
pub open spec fn deps_junit_text(a: &WorkspaceDependencyAnalysis, filter: Option<Seq<char>>, reverse: bool, transitive: bool) -> Seq<char> {
    line("<?xml version=\"1.0\" encoding=\"UTF-8\"?>"@)
        + line("<testsuites name=\"workspace-dependencies\" tests=\"1\" failures=\"0\">"@)
        + line("  <testsuite name=\"dependency-analysis\" tests=\"1\" failures=\"0\">"@)
        + line("    <testcase name=\"analyze-workspace-dependencies\" classname=\"ferris-wheel\">"@)
        + line("Workspace dependency analysis results:"@)
        + concat_all(listed_workspaces(a, filter).map_values(|x: Seq<char>| junit_line(a, x, reverse, transitive)))
        + line("    </testcase>"@) + line("  </testsuite>"@) + line("</testsuites>"@)
}

/// The GitHub report.
pub open spec fn deps_github_text(a: &WorkspaceDependencyAnalysis, filter: Option<Seq<char>>, reverse: bool, transitive: bool) -> Seq<char> {
    line("::notice title=Workspace Dependencies::Analyzed "@ + decimal(listed_workspaces(a, filter).len()) + " workspace"@
        + (if listed_workspaces(a, filter).len() == 1 { ""@ } else { "s"@ }))
        + concat_all(listed_workspaces(a, filter).map_values(|x: Seq<char>| github_line(a, x, reverse, transitive)))
}

/// One workspace in the JSON report of the `lineup` command.
pub struct WorkspaceDepsEntry {
    pub name: String,
    pub path: String,
    pub dependencies: Vec<String>,
    pub reverse: bool,
    pub transitive: bool,
    pub is_standalone: bool,
}

/// The JSON report of the `lineup` command, as data.
pub struct WorkspaceDepsJsonReport {
    pub workspaces: Vec<WorkspaceDepsEntry>,
}

/// Whether `e` is the entry of workspace `x`: its name, its path (or
/// `(unknown)`), its listed dependencies, the kind asked for, and whether
/// it is a standalone crate.
pub open spec fn is_entry_for(e: WorkspaceDepsEntry, a: &WorkspaceDependencyAnalysis, x: Seq<char>, reverse: bool, transitive: bool) -> bool {
    &&& e.name@ == x
    &&& e.path@ == match path_for(a, x) {
        Some(p) => p,
        None => "(unknown)"@,
    }
    &&& views(e.dependencies@) == deps_for(a, x, reverse, transitive)
    &&& e.reverse == reverse
    &&& e.transitive == transitive
    &&& e.is_standalone == standalone_for(a, x)
}

/// Writes the reports of a workspace dependency analysis.
pub struct WorkspaceDepsReportGenerator {
    pub workspace_filter: Option<String>,
    pub reverse: bool,
    pub transitive: bool,
}

impl WorkspaceDepsReportGenerator {
    /// A generator for one workspace, or all of them, listing reverse,
    /// transitive or direct dependencies.
    pub fn new(workspace: Option<&str>, reverse: bool, transitive: bool) -> (r: Self)
        ensures
            opt_view(r.workspace_filter) == match workspace {
                Some(w) => Some(w@),
                None => None,
            },
            r.reverse == reverse,
            r.transitive == transitive,
    {
        let workspace_filter = match workspace {
            Some(w) => Some(to_owned(w)),
            None => None,
        };
        WorkspaceDepsReportGenerator { workspace_filter, reverse, transitive }
    }

    /// The listed dependencies of one workspace.
    pub open spec fn deps_spec(&self, a: &WorkspaceDependencyAnalysis, x: Seq<char>) -> Seq<Seq<char>> {
        deps_for(a, x, self.reverse, self.transitive)
    }

    fn listed(&self, analysis: &WorkspaceDependencyAnalysis) -> (r: Vec<String>)
        ensures
            views(r@) == listed_workspaces(analysis, opt_view(self.workspace_filter)),
    {
        match &self.workspace_filter {
            Some(f) => {
                let mut v: Vec<String> = Vec::new();
                v.push(dup(f));
                assert(views(v@) =~= seq![f@]);
                v
            },
            None => analysis.workspace_names(),
        }
    }

    fn deps(&self, analysis: &WorkspaceDependencyAnalysis, workspace: &str) -> (r: Vec<String>)
        requires
            analysis.wf(),
        ensures
            views(r@) == self.deps_spec(analysis, workspace@),
    {
        if self.reverse {
            analysis.get_reverse_dependencies(workspace)
        } else if self.transitive {
            analysis.get_transitive_dependencies(workspace)
        } else {
            analysis.get_direct_dependencies(workspace)
        }
    }

    fn push_human_block(&self, output: &mut String, analysis: &WorkspaceDependencyAnalysis, workspace: &str)
        requires
            analysis.wf(),
        ensures
            final(output)@ == old(output)@ + human_block(analysis, workspace@, self.reverse, self.transitive),
    {
        let ghost before = output@;
        push_str(output, "\n📦 Workspace: ");
        push_line(output, workspace);
        assert(output@ =~= before + line("\n📦 Workspace: "@ + workspace@));
        let ghost p1 = output@;
        match analysis.get_workspace_path(workspace) {
            Some(p) => {
                push_str(output, "  📍 Path: ");
                push_line(output, p.as_str());
                assert(output@ =~= p1 + line("  📍 Path: "@ + p@));
            },
            None => {},
        }
        let ghost p2 = output@;
        if self.reverse {
            push_line(output, "  ⬆️  Reverse dependencies (who depends on this):");
        } else if self.transitive {
            push_line(output, "  ⬇️  All transitive dependencies:");
        } else {
            push_line(output, "  ⬇️  Direct dependencies:");
        }
        let ghost p3 = output@;
        let deps = self.deps(analysis, workspace);
        if deps.len() == 0 {
            push_line(output, "    (none)");
        } else {
            let ghost dl = views(deps@).map_values(|d: Seq<char>| line("    - "@ + d));
            for j in 0..deps.len()
                invariant
                    dl == views(deps@).map_values(|d: Seq<char>| line("    - "@ + d)),
                    output@ == p3 + concat_all(dl.take(j as int)),
            {
                let ghost b = output@;
                push_str(output, "    - ");
                push_line(output, deps[j].as_str());
                assert(output@ =~= b + dl[j as int]);
                proof { lemma_concat_take(dl, j as int); }
            }
            assert(dl.take(deps.len() as int) =~= dl);
        }
        reveal(human_block);
        assert(output@ =~= before + human_block(analysis, workspace@, self.reverse, self.transitive));
    }

    /// The text report: for each workspace, its path and its dependencies.
    pub fn generate_human_report(&self, analysis: &WorkspaceDependencyAnalysis) -> (r: Result<String, FerrisWheelError>)
        requires
            analysis.wf(),
        ensures
            r matches Ok(s) && s@ == deps_human_text(analysis, opt_view(self.workspace_filter), self.reverse, self.transitive),
    {
        let workspaces = self.listed(analysis);
        let ghost ws = views(workspaces@);
        let ghost blocks = ws.map_values(|x: Seq<char>| human_block(analysis, x, self.reverse, self.transitive));
        let mut output = String::new();
        for i in 0..workspaces.len()
            invariant
                analysis.wf(),
                ws == views(workspaces@),
                ws == listed_workspaces(analysis, opt_view(self.workspace_filter)),
                blocks == ws.map_values(|x: Seq<char>| human_block(analysis, x, self.reverse, self.transitive)),
                output@ == concat_all(blocks.take(i as int)),
        {
            self.push_human_block(&mut output, analysis, workspaces[i].as_str());
            proof { lemma_concat_take(blocks, i as int); }
        }
        assert(blocks.take(workspaces.len() as int) =~= blocks);
        Ok(output)
    }

    /// The entry of one workspace in the JSON report.
    fn entry(&self, analysis: &WorkspaceDependencyAnalysis, workspace: &str) -> (r: WorkspaceDepsEntry)
        requires
            analysis.wf(),
        ensures
            is_entry_for(r, analysis, workspace@, self.reverse, self.transitive),
    {
        let path = match analysis.get_workspace_path(workspace) {
            Some(p) => dup(p),
            None => to_owned("(unknown)"),
        };
        let is_standalone = match analysis.get_workspace_info(workspace) {
            Some(info) => info.is_standalone(),
            None => false,
        };
        WorkspaceDepsEntry {
            name: to_owned(workspace),
            path,
            dependencies: self.deps(analysis, workspace),
            reverse: self.reverse,
            transitive: self.transitive,
            is_standalone,
        }
    }

    /// The JSON report as data: one entry for each listed workspace, in
    /// the order of the listing.
    pub fn json_report(&self, analysis: &WorkspaceDependencyAnalysis) -> (r: WorkspaceDepsJsonReport)
        requires
            analysis.wf(),
        ensures
            r.workspaces.len() == listed_workspaces(analysis, opt_view(self.workspace_filter)).len(),
            forall|i: int| 0 <= i < r.workspaces.len() ==> is_entry_for(#[trigger] r.workspaces@[i], analysis,
                listed_workspaces(analysis, opt_view(self.workspace_filter))[i], self.reverse, self.transitive),
    {
        let workspaces = self.listed(analysis);
        let ghost ws = views(workspaces@);
        let mut entries: Vec<WorkspaceDepsEntry> = Vec::new();
        for i in 0..workspaces.len()
            invariant
                analysis.wf(),
                ws == views(workspaces@),
                ws == listed_workspaces(analysis, opt_view(self.workspace_filter)),
                entries.len() == i,
                forall|k: int| 0 <= k < i ==> is_entry_for(#[trigger] entries@[k], analysis, ws[k], self.reverse, self.transitive),
        {
            let e = self.entry(analysis, workspaces[i].as_str());
            entries.push(e);
        }
        WorkspaceDepsJsonReport { workspaces: entries }
    }

    #[verifier::spinoff_prover]
    #[verifier::rlimit(40)]
    fn push_json_entry(&self, output: &mut String, analysis: &WorkspaceDependencyAnalysis, entry: &WorkspaceDepsEntry)
        requires
            is_entry_for(*entry, analysis, entry.name@, self.reverse, self.transitive),
        ensures
            final(output)@ == old(output)@ + json_entry(analysis, entry.name@, self.reverse, self.transitive),
    {
        let ghost before = output@;
        let name = json_quote(entry.name.as_str());
        let path = json_quote(entry.path.as_str());
        let mut dep_text = String::new();
        push_string_list(&mut dep_text, entry.dependencies.as_slice(), 6);
        assert(views(entry.dependencies@).map_values(|d: Seq<char>| json_quoted(d))
            =~= entry.dependencies@.map_values(|s: String| json_quoted(s@)));
        assert(dep_text@ =~= json_list(self.deps_spec(analysis, entry.name@).map_values(|d: Seq<char>| json_quoted(d)), 6));
        let rev = bool_text(entry.reverse);
        let tra = bool_text(entry.transitive);
        let sta = bool_text(entry.is_standalone);
        push_str(output, "{\n");
        push_json_field(output, "name", name.as_str(), false);
        push_json_field(output, "path", path.as_str(), false);
        let ghost mid = output@;
        assert(mid == before + "{\n"@ + json_field("name"@, name@, false) + json_field("path"@, path@, false));
        push_json_field(output, "dependencies", dep_text.as_str(), false);
        push_json_field(output, "reverse", rev.as_str(), false);
        push_json_field(output, "transitive", tra.as_str(), false);
        push_json_field(output, "is_standalone", sta.as_str(), true);
        push_spaces(output, 4);
        push_str(output, "}");
        assert(output@ == mid + json_field("dependencies"@, dep_text@, false) + json_field("reverse"@, rev@, false)
            + json_field("transitive"@, tra@, false) + json_field("is_standalone"@, sta@, true) + spaces(4) + "}"@);
        reveal(json_entry);
        assert(output@ =~= before + json_entry(analysis, entry.name@, self.reverse, self.transitive));
    }

    /// The JSON report: an object whose `workspaces` list holds, for each
    /// workspace, its name, path, dependencies, the kind asked for, and
    /// whether it is a standalone crate.
    pub fn generate_json_report(&self, analysis: &WorkspaceDependencyAnalysis) -> (r: Result<String, FerrisWheelError>)
        requires
            analysis.wf(),
        ensures
            r matches Ok(s) && s@ == deps_json_text(analysis, opt_view(self.workspace_filter), self.reverse, self.transitive),
    {
        let report = self.json_report(analysis);
        let ghost ws = listed_workspaces(analysis, opt_view(self.workspace_filter));
        let ghost entries = ws.map_values(|x: Seq<char>| json_entry(analysis, x, self.reverse, self.transitive));
        let mut output = String::new();
        push_str(&mut output, "{\n  \"workspaces\": ");
        let ghost head = output@;
        let n = report.workspaces.len();
        if n == 0 {
            push_char(&mut output, '[');
            push_char(&mut output, ']');
            assert(output@ =~= head + json_list(entries, 2));
        } else {
            push_char(&mut output, '[');
            let ghost start = output@;
            let ghost parts = Seq::new(entries.len(), |i: int| list_item(entries, 2, i));
            for i in 0..n
                invariant
                    n == report.workspaces.len(),
                    n == ws.len(),
                    forall|k: int| 0 <= k < n ==> is_entry_for(#[trigger] report.workspaces@[k], analysis, ws[k],
                        self.reverse, self.transitive),
                    entries == ws.map_values(|x: Seq<char>| json_entry(analysis, x, self.reverse, self.transitive)),
                    parts == Seq::new(entries.len(), |i: int| list_item(entries, 2, i)),
                    output@ == start + concat_all(parts.take(i as int)),
            {
                let ghost before = output@;
                push_item_start(&mut output, 2, i);
                assert(is_entry_for(report.workspaces@[i as int], analysis, ws[i as int], self.reverse, self.transitive));
                self.push_json_entry(&mut output, analysis, &report.workspaces[i]);
                assert(output@ =~= before + parts[i as int]);
                proof { lemma_concat_take(parts, i as int); }
            }
            assert(parts.take(n as int) =~= parts);
            push_char(&mut output, '\n');
            push_spaces(&mut output, 2);
            push_char(&mut output, ']');
            assert(output@ =~= head + json_list(entries, 2));
        }
        push_str(&mut output, "\n}");
        assert(output@ =~= "{\n  \"workspaces\": "@ + json_list(entries, 2) + "\n}"@);
        Ok(output)
    }

    /// The JUnit report: one passing test case that counts the
    /// dependencies of each workspace.
    pub fn generate_junit_report(&self, analysis: &WorkspaceDependencyAnalysis) -> (r: Result<String, FerrisWheelError>)
        requires
            analysis.wf(),
        ensures
            r matches Ok(s) && s@ == deps_junit_text(analysis, opt_view(self.workspace_filter), self.reverse, self.transitive),
    {
        let mut output = String::new();
        push_line(&mut output, "<?xml version=\"1.0\" encoding=\"UTF-8\"?>");
        push_line(&mut output, "<testsuites name=\"workspace-dependencies\" tests=\"1\" failures=\"0\">");
        push_line(&mut output, "  <testsuite name=\"dependency-analysis\" tests=\"1\" failures=\"0\">");
        push_line(&mut output, "    <testcase name=\"analyze-workspace-dependencies\" classname=\"ferris-wheel\">");
        let workspaces = self.listed(analysis);
        push_line(&mut output, "Workspace dependency analysis results:");
        let ghost head = output@;
        let ghost ws = views(workspaces@);
        let ghost lines = ws.map_values(|x: Seq<char>| junit_line(analysis, x, self.reverse, self.transitive));
        for i in 0..workspaces.len()
            invariant
                analysis.wf(),
                ws == views(workspaces@),
                lines == ws.map_values(|x: Seq<char>| junit_line(analysis, x, self.reverse, self.transitive)),
                output@ == head + concat_all(lines.take(i as int)),
        {
            self.push_junit_line(&mut output, analysis, workspaces[i].as_str());
            proof { lemma_concat_take(lines, i as int); }
        }
        assert(lines.take(workspaces.len() as int) =~= lines);
        push_line(&mut output, "    </testcase>");
        push_line(&mut output, "  </testsuite>");
        push_line(&mut output, "</testsuites>");
        Ok(output)
    }

    fn push_github_line(&self, output: &mut String, analysis: &WorkspaceDependencyAnalysis, workspace: &str)
        requires
            analysis.wf(),
        ensures
            final(output)@ == old(output)@ + github_line(analysis, workspace@, self.reverse, self.transitive),
    {
        let ghost before = output@;
        let deps = self.deps(analysis, workspace);
        push_str(output, "::notice title=");
        push_str(output, workspace);
        push_str(output, "::");
        push_usize(output, deps.len());
        push_str(output, " ");
        if self.reverse {
            push_str(output, "reverse");
        } else if self.transitive {
            push_str(output, "transitive");
        } else {
            push_str(output, "direct");
        }
        push_str(output, " dependencies: ");
        let joined = join(deps.as_slice(), ", ");
        push_line(output, joined.as_str());
        reveal(github_line);
        assert(output@ =~= before + github_line(analysis, workspace@, self.reverse, self.transitive));
    }

    fn push_junit_line(&self, output: &mut String, analysis: &WorkspaceDependencyAnalysis, workspace: &str)
        requires
            analysis.wf(),
        ensures
            final(output)@ == old(output)@ + junit_line(analysis, workspace@, self.reverse, self.transitive),
    {
        let ghost before = output@;
        let deps = self.deps(analysis, workspace);
        push_str(output, "  ");
        push_str(output, workspace);
        push_str(output, ": ");
        push_usize(output, deps.len());
        push_line(output, " dependencies");
        reveal(junit_line);
        assert(output@ =~= before + junit_line(analysis, workspace@, self.reverse, self.transitive));
    }

    /// The GitHub report: a notice with the number of workspaces, then one
    /// notice per workspace with its dependencies.
    pub fn generate_github_report(&self, analysis: &WorkspaceDependencyAnalysis) -> (r: Result<String, FerrisWheelError>)
        requires
            analysis.wf(),
        ensures
            r matches Ok(s) && s@ == deps_github_text(analysis, opt_view(self.workspace_filter), self.reverse, self.transitive),
    {
        let mut output = String::new();
        let workspaces = self.listed(analysis);
        push_str(&mut output, "::notice title=Workspace Dependencies::Analyzed ");
        push_usize(&mut output, workspaces.len());
        push_str(&mut output, " workspace");
        if workspaces.len() == 1 {
            push_line(&mut output, "");
        } else {
            push_line(&mut output, "s");
        }
        let ghost head = output@;
        let ghost ws = views(workspaces@);
        let ghost lines = ws.map_values(|x: Seq<char>| github_line(analysis, x, self.reverse, self.transitive));
        for i in 0..workspaces.len()
            invariant
                analysis.wf(),
                ws == views(workspaces@),
                lines == ws.map_values(|x: Seq<char>| github_line(analysis, x, self.reverse, self.transitive)),
                output@ == head + concat_all(lines.take(i as int)),
        {
            self.push_github_line(&mut output, analysis, workspaces[i].as_str());
            proof { lemma_concat_take(lines, i as int); }
        }
        assert(lines.take(workspaces.len() as int) =~= lines);
        Ok(output)
    }
}

} // verus!
