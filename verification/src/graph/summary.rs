//! The cycle summary: for each cycle its severity, workspaces, dependency
//! types, edges by direction and the directions that are easiest to break.

use vstd::prelude::*;

use crate::detector::cycle::{edge_views, CycleEdge, CycleView, DirectionGroup, DirectionMap, EdgeView, WorkspaceCycle};
use crate::graph::render_model::{count_type, cycle_severity, severity_of, CycleSeverity};
use crate::text::{
    concat_all, decimal, join, lemma_concat_take, line, push_line, push_newline, push_str, push_usize,
    seq_join, seq_lt, str_eq, str_lt, contains_str, dup, views,
};

verus! {

/// The dependency types of the edges, each once, in order of first
/// appearance.
pub open spec fn distinct_types(edges: Seq<EdgeView>) -> Seq<Seq<char>>
    decreases edges.len(),
{
    if edges.len() == 0 {
        Seq::empty()
    } else {
        let prev = distinct_types(edges.drop_last());
        let t = edges.last().4;
        if prev.contains(t) { prev } else { prev.push(t) }
    }
}

/// The order of directions: by source workspace, then target workspace.
pub open spec fn dir_lt(a: DirectionGroup, b: DirectionGroup) -> bool {
    seq_lt(a.0, b.0) || (a.0 == b.0 && seq_lt(a.1, b.1))
}

/// `order` with index `i` inserted before the first greater direction.
pub open spec fn dir_insert(order: Seq<int>, groups: Seq<DirectionGroup>, i: int) -> Seq<int>
    decreases order.len(),
{
    if order.len() == 0 {
        seq![i]
    } else if dir_lt(groups[i], groups[order[0]]) {
        seq![i] + order
    } else {
        seq![order[0]] + dir_insert(order.drop_first(), groups, i)
    }
}

/// The indices `0..n` of the directions, sorted.
pub open spec fn dir_order(groups: Seq<DirectionGroup>, n: nat) -> Seq<int>
    decreases n,
{
    if n == 0 {
        Seq::empty()
    } else {
        dir_insert(dir_order(groups, (n - 1) as nat), groups, n - 1)
    }
}

/// The directions of a cycle, sorted by source and target workspace.
pub open spec fn sorted_directions(groups: Seq<DirectionGroup>) -> Seq<DirectionGroup> {
    dir_order(groups, groups.len()).map_values(|i: int| groups[i])
}

/// The edges whose type is not `Normal`, in order.
pub open spec fn non_normal(edges: Seq<EdgeView>) -> Seq<EdgeView>
    decreases edges.len(),
{
    if edges.len() == 0 {
        Seq::empty()
    } else {
        let prev = non_normal(edges.drop_last());
        if edges.last().4 != "Normal"@ { prev.push(edges.last()) } else { prev }
    }
}

/// The suggestion lines of one direction with dev or build edges.
pub open spec fn suggestion(show: bool, d: DirectionGroup) -> Seq<char> {
    let nn = non_normal(d.2);
    if nn.len() > 0 {
        line("     - "@ + d.0 + " → "@ + d.1 + " ("@ + decimal(nn.len()) + " dev/build dependencies)"@)
            + (if show && nn.len() <= 3 {
                concat_all(nn.map_values(|e: EdgeView| line("       • "@ + e.2 + " → "@ + e.3 + " ("@ + e.4 + ")"@)))
            } else {
                Seq::empty()
            })
    } else {
        Seq::empty()
    }
}

/// The position of the first direction with the fewest edges among the
/// first `n`, or -1.
pub open spec fn fewest_upto(dirs: Seq<DirectionGroup>, n: nat) -> int
    decreases n,
{
    if n == 0 {
        -1
    } else {
        let b = fewest_upto(dirs, (n - 1) as nat);
        if b < 0 || dirs[n - 1].2.len() < dirs[b].2.len() { n - 1 } else { b }
    }
}

/// The break points of a cycle: the directions with dev or build edges, or
/// else the first direction with the fewest edges.
pub open spec fn break_points(show: bool, dirs: Seq<DirectionGroup>) -> Seq<char> {
    if exists|j: int| 0 <= j < dirs.len() && non_normal(#[trigger] dirs[j].2).len() > 0 {
        concat_all(dirs.map_values(|d: DirectionGroup| suggestion(show, d)))
    } else if dirs.len() > 0 {
        let d = dirs[fewest_upto(dirs, dirs.len())];
        line("     - "@ + d.0 + " → "@ + d.1 + " ("@ + decimal(d.2.len()) + " edges total)"@)
    } else {
        Seq::empty()
    }
}

/// The icon of a severity in the summary.
pub open spec fn severity_icon(s: CycleSeverity) -> Seq<char> {
    match s {
        CycleSeverity::Low => "⚠️"@,
        CycleSeverity::Medium => "⚠️"@,
        CycleSeverity::High => "🚨"@,
    }
}

/// The name of a severity.
pub open spec fn severity_name(s: CycleSeverity) -> Seq<char> {
    match s {
        CycleSeverity::Low => "Low"@,
        CycleSeverity::Medium => "Medium"@,
        CycleSeverity::High => "High"@,
    }
}

/// The summary block of the cycle at position `i`.
#[verifier::opaque]
pub open spec fn cycle_block(show: bool, c: CycleView, groups: Seq<DirectionGroup>, i: nat) -> Seq<char> {
    let sev = severity_of(c);
    let dirs = sorted_directions(groups);
    line(severity_icon(sev) + " Cycle #"@ + decimal(i + 1) + " (Severity: "@ + severity_name(sev) + ")"@)
        + line("  Workspaces: "@ + seq_join(c.0, " → "@))
        + line("  Total edges in cycle: "@ + decimal(c.1.len()))
        + line("  Dependency types:"@)
        + concat_all(distinct_types(c.1).map_values(|t: Seq<char>| line("    - "@ + t + ": "@ + decimal(count_type(c.1, t)))))
        + line("\n  📊 Edge breakdown by direction:"@)
        + concat_all(dirs.map_values(|d: DirectionGroup| line("    "@ + d.0 + " → "@ + d.1 + ": "@ + decimal(d.2.len()) + " edges"@)))
        + line("\n  💡 Suggested break points:"@)
        + break_points(show, dirs)
        + line(Seq::empty())
}

/// The whole cycle summary.
pub open spec fn summary_text(show: bool, cycles: Seq<WorkspaceCycle>) -> Seq<char> {
    line("\n🔄 Dependency Cycles Summary\n"@) + if cycles.len() == 0 {
        line("✅ No dependency cycles detected!"@)
    } else {
        concat_all(Seq::new(cycles.len(), |i: int| cycle_block(show, cycles[i]@, cycles[i].directions(), i as nat)))
            + line("\n📝 General recommendations:"@)
            + line("  • Focus on breaking dev/build dependencies first (easier to refactor)"@)
            + line("  • Consider extracting shared code into a separate workspace"@)
            + line("  • Break cycles at the point with the fewest dependencies"@)
    }
}

/// The dependency types of the edges, each once, in order of first
/// appearance.
pub fn types_of(edges: &[CycleEdge]) -> (r: Vec<String>)
    ensures
        views(r@) == distinct_types(edge_views(edges@)),
{
    let ghost ev = edge_views(edges@);
    let mut r: Vec<String> = Vec::new();
    for i in 0..edges.len()
        invariant
            ev == edge_views(edges@),
            views(r@) == distinct_types(ev.take(i as int)),
    {
        assert(ev.take(i + 1).drop_last() =~= ev.take(i as int));
        assert(ev.take(i + 1).last() == edges@[i as int]@);
        if !contains_str(r.as_slice(), edges[i].dependency_type.as_str()) {
            let t = dup(&edges[i].dependency_type);
            let ghost before = r@;
            r.push(t);
            assert(views(r@) =~= views(before).push(t@));
        }
    }
    assert(ev.take(edges.len() as int) =~= ev);
    r
}

/// The number of edges of type `t`.
pub fn count_of_type(edges: &[CycleEdge], t: &str) -> (r: usize)
    ensures
        r == count_type(edge_views(edges@), t@),
{
    let ghost ev = edge_views(edges@);
    let mut n: usize = 0;
    for i in 0..edges.len()
        invariant
            ev == edge_views(edges@),
            n == count_type(ev.take(i as int), t@),
            n <= i,
    {
        assert(ev.take(i + 1).drop_last() =~= ev.take(i as int));
        assert(ev.take(i + 1).last() == edges@[i as int]@);
        if str_eq(edges[i].dependency_type.as_str(), t) {
            n = n + 1;
        }
    }
    assert(ev.take(edges.len() as int) =~= ev);
    n
}

/// The edges whose type is not `Normal`.
pub fn non_normal_edges(edges: &[CycleEdge]) -> (r: Vec<&CycleEdge>)
    ensures
        r@.map_values(|e: &CycleEdge| e@) == non_normal(edge_views(edges@)),
{
    let ghost ev = edge_views(edges@);
    let mut r: Vec<&CycleEdge> = Vec::new();
    for i in 0..edges.len()
        invariant
            ev == edge_views(edges@),
            r@.map_values(|e: &CycleEdge| e@) == non_normal(ev.take(i as int)),
    {
        assert(ev.take(i + 1).drop_last() =~= ev.take(i as int));
        assert(ev.take(i + 1).last() == edges@[i as int]@);
        if !str_eq(edges[i].dependency_type.as_str(), "Normal") {
            let ghost before = r@;
            r.push(&edges[i]);
            assert(r@.map_values(|e: &CycleEdge| e@) =~= before.map_values(|e: &CycleEdge| e@).push(edges@[i as int]@));
        }
    }
    assert(ev.take(edges.len() as int) =~= ev);
    r
}

fn dir_less(map: &DirectionMap, a: usize, b: usize) -> (r: bool)
    requires
        a < map@.len(),
        b < map@.len(),
    ensures
        r == dir_lt(map@[a as int], map@[b as int]),
{
    let (af, at, _) = map.entry(a);
    let (bf, bt, _) = map.entry(b);
    str_lt(af.as_str(), bf.as_str()) || (str_eq(af.as_str(), bf.as_str()) && str_lt(at.as_str(), bt.as_str()))
}

proof fn lemma_dir_insert_at(order: Seq<int>, groups: Seq<DirectionGroup>, i: int, p: int)
    requires
        0 <= p <= order.len(),
        forall|q: int| 0 <= q < p ==> !dir_lt(groups[i], groups[#[trigger] order[q]]),
        p < order.len() ==> dir_lt(groups[i], groups[order[p]]),
    ensures
        dir_insert(order, groups, i) == order.take(p) + seq![i] + order.skip(p),
    decreases p,
{
    if p == 0 {
        assert(order.skip(0) =~= order);
        assert(order.take(0) + seq![i] + order.skip(0) =~= seq![i] + order);
    } else {
        let rest = order.drop_first();
        assert forall|q: int| 0 <= q < p - 1 implies !dir_lt(groups[i], groups[#[trigger] rest[q]]) by {
            assert(rest[q] == order[q + 1]);
        }
        if p - 1 < rest.len() {
            assert(rest[p - 1] == order[p]);
        }
        lemma_dir_insert_at(rest, groups, i, p - 1);
        assert(order.take(p) + seq![i] + order.skip(p) =~= seq![order[0]] + (rest.take(p - 1) + seq![i] + rest.skip(p - 1)));
    }
}

/// The positions of the directions of a map, sorted by direction.
pub fn direction_order(map: &DirectionMap) -> (r: Vec<usize>)
    ensures
        r@.map_values(|i: usize| i as int) == dir_order(map@, map@.len()),
        forall|j: int| 0 <= j < r@.len() ==> #[trigger] r@[j] < map@.len(),
{
    let n = map.len();
    let mut order: Vec<usize> = Vec::new();
    for i in 0..n
        invariant
            n == map@.len(),
            order@.map_values(|i: usize| i as int) == dir_order(map@, i as nat),
            forall|j: int| 0 <= j < order@.len() ==> #[trigger] order@[j] < i,
    {
        let ghost ov = order@.map_values(|i: usize| i as int);
        let mut p: usize = 0;
        while p < order.len() && !dir_less(map, i, order[p])
            invariant
                ov == order@.map_values(|i: usize| i as int),
                forall|j: int| 0 <= j < order@.len() ==> #[trigger] order@[j] < i,
                i < n,
                n == map@.len(),
                p <= order.len(),
                forall|q: int| 0 <= q < p ==> !dir_lt(map@[i as int], map@[#[trigger] ov[q]]),
            decreases order.len() - p,
        {
            assert(ov[p as int] == order@[p as int] as int);
            p = p + 1;
        }
        proof {
            if p < order.len() {
                assert(ov[p as int] == order@[p as int] as int);
            }
            lemma_dir_insert_at(ov, map@, i as int, p as int);
        }
        order.insert(p, i);
        assert(order@.map_values(|i: usize| i as int) =~= ov.take(p as int) + seq![i as int] + ov.skip(p as int));
    }
    order
}

#[verifier::spinoff_prover]
fn push_suggestion(out: &mut String, show: bool, from: &String, to: &String, edges: &Vec<CycleEdge>)
    ensures
        final(out)@ == old(out)@ + suggestion(show, (from@, to@, edge_views(edges@))),
{
    let nn = non_normal_edges(edges.as_slice());
    let ghost nv = nn@.map_values(|e: &CycleEdge| e@);
    if nn.len() > 0 {
        push_str(out, "     - ");
        push_str(out, from.as_str());
        push_str(out, " → ");
        push_str(out, to.as_str());
        push_str(out, " (");
        push_usize(out, nn.len());
        push_line(out, " dev/build dependencies)");
        let ghost head = out@;
        assert(head =~= old(out)@ + line("     - "@ + from@ + " → "@ + to@ + " ("@ + decimal(nn@.len()) + " dev/build dependencies)"@));
        let ghost lines = nv.map_values(|e: EdgeView| line("       • "@ + e.2 + " → "@ + e.3 + " ("@ + e.4 + ")"@));
        if show && nn.len() <= 3 {
            for k in 0..nn.len()
                invariant
                    nv == nn@.map_values(|e: &CycleEdge| e@),
                    lines == nv.map_values(|e: EdgeView| line("       • "@ + e.2 + " → "@ + e.3 + " ("@ + e.4 + ")"@)),
                    out@ == head + concat_all(lines.take(k as int)),
            {
                let e = nn[k];
                let ghost before = out@;
                push_str(out, "       • ");
                push_str(out, e.from_crate.as_str());
                push_str(out, " → ");
                push_str(out, e.to_crate.as_str());
                push_str(out, " (");
                push_str(out, e.dependency_type.as_str());
                push_line(out, ")");
                assert(out@ =~= before + lines[k as int]);
                proof { lemma_concat_take(lines, k as int); }
            }
            assert(lines.take(nn.len() as int) =~= lines);
        }
    }
}

#[verifier::spinoff_prover]
fn push_break_points(out: &mut String, show: bool, map: &DirectionMap, order: &Vec<usize>)
    requires
        order@.map_values(|i: usize| i as int) == dir_order(map@, map@.len()),
        forall|j: int| 0 <= j < order@.len() ==> #[trigger] order@[j] < map@.len(),
    ensures
        final(out)@ == old(out)@ + break_points(show, sorted_directions(map@)),
{
    let ghost dirs = sorted_directions(map@);
    let ghost ov = order@.map_values(|i: usize| i as int);
    assert(dirs.len() == order@.len());
    let mut found = false;
    let mut j: usize = 0;
    while j < order.len()
        invariant
            dirs == sorted_directions(map@),
            ov == order@.map_values(|i: usize| i as int),
            ov == dir_order(map@, map@.len()),
            dirs.len() == order@.len(),
            forall|q: int| 0 <= q < order@.len() ==> #[trigger] order@[q] < map@.len(),
            j <= order.len(),
            found == exists|q: int| 0 <= q < j && non_normal(#[trigger] dirs[q].2).len() > 0,
        decreases order.len() - j,
    {
        let (_, _, edges) = map.entry(order[j]);
        assert(dirs[j as int] == map@[order@[j as int] as int]);
        let nn = non_normal_edges(edges.as_slice());
        if nn.len() > 0 {
            found = true;
        }
        j = j + 1;
    }
    if found {
        let ghost lines = dirs.map_values(|d: DirectionGroup| suggestion(show, d));
        let ghost head = out@;
        for k in 0..order.len()
            invariant
                dirs == sorted_directions(map@),
                ov == order@.map_values(|i: usize| i as int),
                ov == dir_order(map@, map@.len()),
                dirs.len() == order@.len(),
                forall|q: int| 0 <= q < order@.len() ==> #[trigger] order@[q] < map@.len(),
                lines == dirs.map_values(|d: DirectionGroup| suggestion(show, d)),
                out@ == head + concat_all(lines.take(k as int)),
        {
            let (from, to, edges) = map.entry(order[k]);
            assert(dirs[k as int] == map@[order@[k as int] as int]);
            push_suggestion(out, show, from, to, edges);
            proof { lemma_concat_take(lines, k as int); }
        }
        assert(lines.take(order.len() as int) =~= lines);
    } else if order.len() > 0 {
        let mut best: usize = 0;
        let mut min_edges: usize = 0;
        let mut k: usize = 0;
        while k < order.len()
            invariant
                dirs == sorted_directions(map@),
                ov == order@.map_values(|i: usize| i as int),
                ov == dir_order(map@, map@.len()),
                dirs.len() == order@.len(),
                forall|q: int| 0 <= q < order@.len() ==> #[trigger] order@[q] < map@.len(),
                k <= order.len(),
                k == 0 ==> fewest_upto(dirs, k as nat) < 0,
                k > 0 ==> best as int == fewest_upto(dirs, k as nat) && best < k
                    && min_edges == dirs[best as int].2.len(),
            decreases order.len() - k,
        {
            let (_, _, edges) = map.entry(order[k]);
            assert(dirs[k as int] == map@[order@[k as int] as int]);
            if k == 0 || edges.len() < min_edges {
                best = k;
                min_edges = edges.len();
            }
            k = k + 1;
        }
        let (from, to, edges) = map.entry(order[best]);
        assert(dirs[best as int] == map@[order@[best as int] as int]);
        push_str(out, "     - ");
        push_str(out, from.as_str());
        push_str(out, " → ");
        push_str(out, to.as_str());
        push_str(out, " (");
        push_usize(out, edges.len());
        push_line(out, " edges total)");
    }
}

#[verifier::spinoff_prover]
fn push_type_breakdown(out: &mut String, edges: &[CycleEdge])
    ensures
        final(out)@ == old(out)@ + concat_all(distinct_types(edge_views(edges@)).map_values(
            |t: Seq<char>| line("    - "@ + t + ": "@ + decimal(count_type(edge_views(edges@), t))))),
{
    let ghost ev = edge_views(edges@);
    let types = types_of(edges);
    let ghost tv = views(types@);
    let ghost lines = tv.map_values(|t: Seq<char>| line("    - "@ + t + ": "@ + decimal(count_type(ev, t))));
    let ghost head = out@;
    for k in 0..types.len()
        invariant
            ev == edge_views(edges@),
            tv == views(types@),
            lines == tv.map_values(|t: Seq<char>| line("    - "@ + t + ": "@ + decimal(count_type(ev, t)))),
            out@ == head + concat_all(lines.take(k as int)),
    {
        let ghost before = out@;
        push_str(out, "    - ");
        push_str(out, types[k].as_str());
        push_str(out, ": ");
        push_usize(out, count_of_type(edges, types[k].as_str()));
        push_newline(out);
        assert(out@ =~= before + lines[k as int]);
        proof { lemma_concat_take(lines, k as int); }
    }
    assert(lines.take(types.len() as int) =~= lines);
}

#[verifier::spinoff_prover]
fn push_direction_lines(out: &mut String, map: &DirectionMap, order: &Vec<usize>)
    requires
        order@.map_values(|i: usize| i as int) == dir_order(map@, map@.len()),
        forall|j: int| 0 <= j < order@.len() ==> #[trigger] order@[j] < map@.len(),
    ensures
        final(out)@ == old(out)@ + concat_all(sorted_directions(map@).map_values(
            |d: DirectionGroup| line("    "@ + d.0 + " → "@ + d.1 + ": "@ + decimal(d.2.len()) + " edges"@))),
{
    let ghost dirs = sorted_directions(map@);
    let ghost lines = dirs.map_values(|d: DirectionGroup| line("    "@ + d.0 + " → "@ + d.1 + ": "@ + decimal(d.2.len()) + " edges"@));
    let ghost head = out@;
    for k in 0..order.len()
        invariant
            dirs == sorted_directions(map@),
            order@.map_values(|i: usize| i as int) == dir_order(map@, map@.len()),
            forall|q: int| 0 <= q < order@.len() ==> #[trigger] order@[q] < map@.len(),
            lines == dirs.map_values(|d: DirectionGroup| line("    "@ + d.0 + " → "@ + d.1 + ": "@ + decimal(d.2.len()) + " edges"@)),
            out@ == head + concat_all(lines.take(k as int)),
    {
        let (from, to, edges) = map.entry(order[k]);
        assert(dirs[k as int] == map@[order@[k as int] as int]);
        let ghost before = out@;
        push_str(out, "    ");
        push_str(out, from.as_str());
        push_str(out, " → ");
        push_str(out, to.as_str());
        push_str(out, ": ");
        push_usize(out, edges.len());
        push_line(out, " edges");
        assert(out@ =~= before + lines[k as int]);
        proof { lemma_concat_take(lines, k as int); }
    }
    assert(lines.take(order.len() as int) =~= lines);
}

#[verifier::spinoff_prover]
fn push_block_head(out: &mut String, cycle: &WorkspaceCycle, i: usize)
    requires
        i < usize::MAX,
    ensures
        final(out)@ == old(out)@ + line(severity_icon(severity_of(cycle@)) + " Cycle #"@ + decimal((i + 1) as nat)
            + " (Severity: "@ + severity_name(severity_of(cycle@)) + ")"@)
            + line("  Workspaces: "@ + seq_join(cycle@.0, " → "@))
            + line("  Total edges in cycle: "@ + decimal(cycle@.1.len()))
            + line("  Dependency types:"@),
{
    let severity = cycle_severity(cycle);
    let ghost s0 = out@;
    let icon = match severity {
        CycleSeverity::Low => "⚠️",
        CycleSeverity::Medium => "⚠️",
        CycleSeverity::High => "🚨",
    };
    let name = match severity {
        CycleSeverity::Low => "Low",
        CycleSeverity::Medium => "Medium",
        CycleSeverity::High => "High",
    };
    push_str(out, icon);
    push_str(out, " Cycle #");
    push_usize(out, i + 1);
    push_str(out, " (Severity: ");
    push_str(out, name);
    push_line(out, ")");
    let ghost s1 = out@;
    assert(s1 =~= s0 + line(severity_icon(severity_of(cycle@)) + " Cycle #"@ + decimal((i + 1) as nat)
        + " (Severity: "@ + severity_name(severity_of(cycle@)) + ")"@));
    push_str(out, "  Workspaces: ");
    let list = join(cycle.workspace_names(), " → ");
    push_line(out, list.as_str());
    let ghost s2 = out@;
    assert(s2 =~= s1 + line("  Workspaces: "@ + seq_join(cycle@.0, " → "@)));
    push_str(out, "  Total edges in cycle: ");
    push_usize(out, cycle.edges().len());
    push_newline(out);
    let ghost s3 = out@;
    assert(s3 =~= s2 + line("  Total edges in cycle: "@ + decimal(cycle@.1.len())));
    push_line(out, "  Dependency types:");
}

/// Appends the summary block of the cycle at position `i`.
#[verifier::spinoff_prover]
pub fn push_cycle_block(out: &mut String, show: bool, cycle: &WorkspaceCycle, i: usize)
    requires
        i < usize::MAX,
    ensures
        final(out)@ == old(out)@ + cycle_block(show, cycle@, cycle.directions(), i as nat),
{
    push_block_head(out, cycle, i);
    push_type_breakdown(out, cycle.edges());
    push_line(out, "\n  📊 Edge breakdown by direction:");
    let map = cycle.edges_by_direction();
    let order = direction_order(map);
    push_direction_lines(out, map, &order);
    push_line(out, "\n  💡 Suggested break points:");
    push_break_points(out, show, map, &order);
    push_newline(out);
    reveal(cycle_block);
    assert(final(out)@ =~= old(out)@ + cycle_block(show, cycle@, cycle.directions(), i as nat));
}

proof fn lemma_fewest_is_fewest(dirs: Seq<DirectionGroup>, n: nat)
    requires
        0 < n <= dirs.len(),
    ensures
        0 <= fewest_upto(dirs, n) < n,
        forall|k: int| 0 <= k < n ==> dirs[fewest_upto(dirs, n)].2.len() <= (#[trigger] dirs[k]).2.len(),
    decreases n,
{
    if n > 1 {
        lemma_fewest_is_fewest(dirs, (n - 1) as nat);
    } else {
        assert(fewest_upto(dirs, 0) == -1);
    }
}

/// When no direction of a cycle has dev or build edges, the one suggested
/// break point is a direction of the cycle with no more edges than any other
/// direction, shown with its edge count.
pub proof fn law_break_point_has_fewest_edges(show: bool, dirs: Seq<DirectionGroup>)
    requires
        dirs.len() > 0,
        forall|j: int| 0 <= j < dirs.len() ==> non_normal(#[trigger] dirs[j].2).len() == 0,
    ensures
        exists|j: int| 0 <= j < dirs.len()
            && (forall|k: int| 0 <= k < dirs.len() ==> (#[trigger] dirs[j]).2.len() <= (#[trigger] dirs[k]).2.len())
            && break_points(show, dirs)
                == line("     - "@ + dirs[j].0 + " → "@ + dirs[j].1 + " ("@ + decimal(dirs[j].2.len()) + " edges total)"@),
{
    lemma_fewest_is_fewest(dirs, dirs.len());
    let j = fewest_upto(dirs, dirs.len());
    assert(!exists|j: int| 0 <= j < dirs.len() && non_normal(#[trigger] dirs[j].2).len() > 0);
    assert(forall|k: int| 0 <= k < dirs.len() ==> dirs[j].2.len() <= (#[trigger] dirs[k]).2.len());
}

} // verus!
