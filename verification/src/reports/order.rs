//! The orders in which the reports list cycles and edges: cycles by their
//! first workspace name, edges by source crate then target crate; both sorts
//! are stable.

use vstd::prelude::*;

use crate::detector::cycle::{CycleEdge, CycleView, EdgeView, WorkspaceCycle};
use crate::text::{seq_lt, str_eq, str_lt};

verus! {

/// Edge order: by source crate, then target crate.
pub open spec fn crate_pair_lt(a: EdgeView, b: EdgeView) -> bool {
    seq_lt(a.2, b.2) || (a.2 == b.2 && seq_lt(a.3, b.3))
}

/// `s` with `e` inserted before the first greater edge.
pub open spec fn edge_insert(s: Seq<EdgeView>, e: EdgeView) -> Seq<EdgeView>
    decreases s.len(),
{
    if s.len() == 0 {
        seq![e]
    } else if crate_pair_lt(e, s[0]) {
        seq![e] + s
    } else {
        seq![s[0]] + edge_insert(s.drop_first(), e)
    }
}

/// The edges stably sorted by source crate, then target crate.
pub open spec fn sorted_edges(edges: Seq<EdgeView>) -> Seq<EdgeView>
    decreases edges.len(),
{
    if edges.len() == 0 {
        Seq::empty()
    } else {
        edge_insert(sorted_edges(edges.drop_last()), edges.last())
    }
}

proof fn lemma_edge_insert_at(s: Seq<EdgeView>, e: EdgeView, p: int)
    requires
        0 <= p <= s.len(),
        forall|q: int| 0 <= q < p ==> !crate_pair_lt(e, #[trigger] s[q]),
        p < s.len() ==> crate_pair_lt(e, s[p]),
    ensures
        edge_insert(s, e) == s.take(p) + seq![e] + s.skip(p),
    decreases p,
{
    if p == 0 {
        assert(s.take(0) + seq![e] + s.skip(0) =~= seq![e] + s);
    } else {
        let rest = s.drop_first();
        assert forall|q: int| 0 <= q < p - 1 implies !crate_pair_lt(e, #[trigger] rest[q]) by {
            assert(rest[q] == s[q + 1]);
        }
        if p - 1 < rest.len() {
            assert(rest[p - 1] == s[p]);
        }
        lemma_edge_insert_at(rest, e, p - 1);
        assert(s.take(p) + seq![e] + s.skip(p) =~= seq![s[0]] + (rest.take(p - 1) + seq![e] + rest.skip(p - 1)));
    }
}

fn pair_less(a: &CycleEdge, b: &CycleEdge) -> (r: bool)
    ensures
        r == crate_pair_lt(a@, b@),
{
    str_lt(a.from_crate.as_str(), b.from_crate.as_str())
        || (str_eq(a.from_crate.as_str(), b.from_crate.as_str()) && str_lt(a.to_crate.as_str(), b.to_crate.as_str()))
}

/// The views of a list of edge references.
pub open spec fn ref_views(v: Seq<&CycleEdge>) -> Seq<EdgeView> {
    v.map_values(|e: &CycleEdge| e@)
}

/// The edges stably sorted by source crate, then target crate.
pub fn sort_edges(edges: &[CycleEdge]) -> (r: Vec<&CycleEdge>)
    ensures
        ref_views(r@) == sorted_edges(edges@.map_values(|e: CycleEdge| e@)),
{
    let ghost ev = edges@.map_values(|e: CycleEdge| e@);
    let mut out: Vec<&CycleEdge> = Vec::new();
    for i in 0..edges.len()
        invariant
            ev == edges@.map_values(|e: CycleEdge| e@),
            ref_views(out@) == sorted_edges(ev.take(i as int)),
    {
        let ghost sv = ref_views(out@);
        assert(ev.take(i + 1).drop_last() =~= ev.take(i as int));
        assert(ev.take(i + 1).last() == edges@[i as int]@);
        let e = &edges[i];
        let mut p: usize = 0;
        while p < out.len() && !pair_less(e, out[p])
            invariant
                sv == ref_views(out@),
                p <= out.len(),
                forall|q: int| 0 <= q < p ==> !crate_pair_lt(e@, #[trigger] sv[q]),
            decreases out.len() - p,
        {
            p = p + 1;
        }
        proof { lemma_edge_insert_at(sv, e@, p as int); }
        out.insert(p, e);
        assert(ref_views(out@) =~= sv.take(p as int) + seq![e@] + sv.skip(p as int));
    }
    assert(ev.take(edges.len() as int) =~= ev);
    out
}

/// The first workspace name of a cycle, or the empty string.
pub open spec fn first_name(c: CycleView) -> Seq<char> {
    if c.0.len() > 0 { c.0[0] } else { Seq::empty() }
}

/// `order` with `i` inserted before the first cycle whose first name is
/// greater.
pub open spec fn cycle_insert(order: Seq<int>, cycles: Seq<CycleView>, i: int) -> Seq<int>
    decreases order.len(),
{
    if order.len() == 0 {
        seq![i]
    } else if seq_lt(first_name(cycles[i]), first_name(cycles[order[0]])) {
        seq![i] + order
    } else {
        seq![order[0]] + cycle_insert(order.drop_first(), cycles, i)
    }
}

/// The positions `0..n` of the cycles stably sorted by first name.
pub open spec fn cycle_order(cycles: Seq<CycleView>, n: nat) -> Seq<int>
    decreases n,
{
    if n == 0 {
        Seq::empty()
    } else {
        cycle_insert(cycle_order(cycles, (n - 1) as nat), cycles, n - 1)
    }
}

proof fn lemma_cycle_insert_at(order: Seq<int>, cycles: Seq<CycleView>, i: int, p: int)
    requires
        0 <= p <= order.len(),
        forall|q: int| 0 <= q < p ==> !seq_lt(first_name(cycles[i]), first_name(cycles[#[trigger] order[q]])),
        p < order.len() ==> seq_lt(first_name(cycles[i]), first_name(cycles[order[p]])),
    ensures
        cycle_insert(order, cycles, i) == order.take(p) + seq![i] + order.skip(p),
    decreases p,
{
    if p == 0 {
        assert(order.take(0) + seq![i] + order.skip(0) =~= seq![i] + order);
    } else {
        let rest = order.drop_first();
        assert forall|q: int| 0 <= q < p - 1 implies !seq_lt(first_name(cycles[i]), first_name(cycles[#[trigger] rest[q]])) by {
            assert(rest[q] == order[q + 1]);
        }
        if p - 1 < rest.len() {
            assert(rest[p - 1] == order[p]);
        }
        lemma_cycle_insert_at(rest, cycles, i, p - 1);
        assert(order.take(p) + seq![i] + order.skip(p) =~= seq![order[0]] + (rest.take(p - 1) + seq![i] + rest.skip(p - 1)));
    }
}

fn first_name_of(c: &WorkspaceCycle) -> (r: &str)
    ensures
        r@ == first_name(c@),
{
    let names = c.workspace_names();
    if names.len() > 0 {
        names[0].as_str()
    } else {
        proof { reveal_strlit(""); }
        ""
    }
}

/// The positions of the cycles stably sorted by their first workspace name.
pub fn sort_cycles(cycles: &[WorkspaceCycle]) -> (r: Vec<usize>)
    ensures
        r@.map_values(|i: usize| i as int) == cycle_order(cycles@.map_values(|c: WorkspaceCycle| c@), cycles@.len()),
        forall|j: int| 0 <= j < r@.len() ==> #[trigger] r@[j] < cycles@.len(),
{
    let ghost cv = cycles@.map_values(|c: WorkspaceCycle| c@);
    let mut order: Vec<usize> = Vec::new();
    for i in 0..cycles.len()
        invariant
            cv == cycles@.map_values(|c: WorkspaceCycle| c@),
            order@.map_values(|i: usize| i as int) == cycle_order(cv, i as nat),
            forall|j: int| 0 <= j < order@.len() ==> #[trigger] order@[j] < i,
    {
        let ghost ov = order@.map_values(|i: usize| i as int);
        let key = first_name_of(&cycles[i]);
        let mut p: usize = 0;
        while p < order.len() && !str_lt(key, first_name_of(&cycles[order[p]]))
            invariant
                cv == cycles@.map_values(|c: WorkspaceCycle| c@),
                ov == order@.map_values(|i: usize| i as int),
                forall|j: int| 0 <= j < order@.len() ==> #[trigger] order@[j] < i,
                i < cycles@.len(),
                key@ == first_name(cv[i as int]),
                p <= order.len(),
                forall|q: int| 0 <= q < p ==> !seq_lt(first_name(cv[i as int]), first_name(cv[#[trigger] ov[q]])),
            decreases order.len() - p,
        {
            assert(ov[p as int] == order@[p as int] as int);
            p = p + 1;
        }
        proof {
            if p < order.len() {
                assert(ov[p as int] == order@[p as int] as int);
            }
            lemma_cycle_insert_at(ov, cv, i as int, p as int);
        }
        order.insert(p, i);
        assert(order@.map_values(|i: usize| i as int) =~= ov.take(p as int) + seq![i as int] + ov.skip(p as int));
    }
    order
}

} // verus!
