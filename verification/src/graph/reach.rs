//! Reachability over a list of arcs between nodes `0..n`: which nodes can
//! be reached from a start node by following one arc or more.

use vstd::prelude::*;

use crate::graph::petgraph_api::{is_walk, reaches, walk_step};

verus! {

/// The arcs as pairs of integers.
pub open spec fn arc_ints(arcs: Seq<(usize, usize)>) -> Seq<(int, int)> {
    arcs.map_values(|e: (usize, usize)| (e.0 as int, e.1 as int))
}

/// Every arc joins two of the nodes `0..n`.
pub open spec fn arcs_within(arcs: Seq<(usize, usize)>, n: nat) -> bool {
    forall|k: int| 0 <= k < arcs.len() ==> (#[trigger] arcs[k]).0 < n && arcs[k].1 < n
}

/// `v` can be reached from `u` by following one arc or more.
pub open spec fn reaches_plus(arcs: Seq<(int, int)>, u: int, v: int) -> bool {
    exists|w: int| #[trigger] arcs.contains((u, w)) && reaches(arcs, w, v)
}

/// The number of `true` entries.
pub open spec fn count_true(s: Seq<bool>) -> nat
    decreases s.len(),
{
    if s.len() == 0 {
        0
    } else {
        count_true(s.drop_last()) + if s.last() { 1nat } else { 0nat }
    }
}

proof fn lemma_count_true_bound(s: Seq<bool>)
    ensures
        count_true(s) <= s.len(),
    decreases s.len(),
{
    if s.len() > 0 {
        lemma_count_true_bound(s.drop_last());
    }
}

proof fn lemma_count_true_set(s: Seq<bool>, i: int)
    requires
        0 <= i < s.len(),
        !s[i],
    ensures
        count_true(s.update(i, true)) == count_true(s) + 1,
    decreases s.len(),
{
    let t = s.update(i, true);
    if i == s.len() - 1 {
        assert(t.drop_last() =~= s.drop_last());
    } else {
        lemma_count_true_set(s.drop_last(), i);
        assert(t.drop_last() =~= s.drop_last().update(i, true));
    }
}

/// An arc out of `s` reaches its target.
pub proof fn lemma_reaches_plus_first(a: Seq<(int, int)>, s: int, t: int)
    requires
        a.contains((s, t)),
    ensures
        reaches_plus(a, s, t),
{
    let p = seq![t];
    assert forall|i: int| 0 <= i < p.len() - 1 implies #[trigger] walk_step(a, p, i) by {}
    assert(is_walk(a, p));
    assert(reaches(a, t, t));
}

/// What `s` reaches, followed by one more arc, is reached too.
pub proof fn lemma_reaches_plus_step(a: Seq<(int, int)>, s: int, u: int, t: int)
    requires
        reaches_plus(a, s, u),
        a.contains((u, t)),
    ensures
        reaches_plus(a, s, t),
{
    let w = choose|w: int| #[trigger] a.contains((s, w)) && reaches(a, w, u);
    let p = choose|p: Seq<int>| #[trigger] is_walk(a, p) && p[0] == w && p.last() == u;
    let q = p.push(t);
    assert forall|i: int| 0 <= i < q.len() - 1 implies #[trigger] walk_step(a, q, i) by {
        if i < p.len() - 1 {
            assert(walk_step(a, p, i));
            assert(q[i] == p[i] && q[i + 1] == p[i + 1]);
        } else {
            assert(q[i] == u && q[i + 1] == t);
        }
    }
    assert(is_walk(a, q));
    assert(reaches(a, w, t));
}

/// A walk that starts in a set closed under arcs stays in it.
proof fn lemma_walk_stays(arcs: Seq<(usize, usize)>, n: nat, seen: Seq<bool>, p: Seq<int>, i: int)
    requires
        seen.len() == n,
        arcs_within(arcs, n),
        is_walk(arc_ints(arcs), p),
        0 <= p[0] < n,
        seen[p[0]],
        forall|k: int| 0 <= k < arcs.len() && seen[(#[trigger] arcs[k]).0 as int] ==> seen[arcs[k].1 as int],
        0 <= i < p.len(),
    ensures
        0 <= p[i] < n,
        seen[p[i]],
    decreases i,
{
    if i > 0 {
        lemma_walk_stays(arcs, n, seen, p, i - 1);
        let a = arc_ints(arcs);
        assert(walk_step(a, p, i - 1));
        let k = choose|k: int| 0 <= k < a.len() && a[k] == (p[i - 1], p[i]);
        assert(arcs[k].0 as int == p[i - 1] && arcs[k].1 as int == p[i]);
    }
}

/// A set that holds the targets of the arcs out of `s` and is closed under
/// arcs holds every node that `s` reaches.
proof fn lemma_closed_holds(arcs: Seq<(usize, usize)>, n: nat, s: int, seen: Seq<bool>, v: int)
    requires
        seen.len() == n,
        arcs_within(arcs, n),
        forall|k: int| 0 <= k < arcs.len() && (#[trigger] arcs[k]).0 as int == s ==> seen[arcs[k].1 as int],
        forall|k: int| 0 <= k < arcs.len() && seen[(#[trigger] arcs[k]).0 as int] ==> seen[arcs[k].1 as int],
        reaches_plus(arc_ints(arcs), s, v),
    ensures
        0 <= v < n,
        seen[v],
{
    let a = arc_ints(arcs);
    let w = choose|w: int| #[trigger] a.contains((s, w)) && reaches(a, w, v);
    let k = choose|k: int| 0 <= k < a.len() && a[k] == (s, w);
    assert(arcs[k].0 as int == s && arcs[k].1 as int == w);
    let p = choose|p: Seq<int>| #[trigger] is_walk(a, p) && p[0] == w && p.last() == v;
    lemma_walk_stays(arcs, n, seen, p, p.len() - 1);
}

/// For each node `v < n`, whether `s` reaches it by one arc or more.
pub fn reachable_from(arcs: &Vec<(usize, usize)>, n: usize, s: usize) -> (r: Vec<bool>)
    requires
        arcs_within(arcs@, n as nat),
    ensures
        r@.len() == n,
        forall|v: int| 0 <= v < n ==> (r@[v] <==> reaches_plus(arc_ints(arcs@), s as int, v)),
{
    let ghost a = arc_ints(arcs@);
    let mut seen: Vec<bool> = Vec::new();
    for i in 0..n
        invariant
            seen@.len() == i,
            forall|j: int| 0 <= j < i ==> !seen@[j],
    {
        seen.push(false);
    }
    proof { lemma_count_true_bound(seen@); }
    let mut stack: Vec<usize> = Vec::new();
    for k in 0..arcs.len()
        invariant
            a == arc_ints(arcs@),
            arcs_within(arcs@, n as nat),
            seen@.len() == n,
            count_true(seen@) <= n,
            forall|v: int| 0 <= v < n && seen@[v] ==> reaches_plus(a, s as int, v),
            forall|j: int| 0 <= j < k && (#[trigger] arcs@[j]).0 == s ==> seen@[arcs@[j].1 as int],
            forall|j: int| 0 <= j < stack@.len() ==> (#[trigger] stack@[j]) < n && seen@[stack@[j] as int],
            forall|j: int| 0 <= j < arcs@.len() && seen@[(#[trigger] arcs@[j]).0 as int]
                && !stack@.contains(arcs@[j].0) ==> seen@[arcs@[j].1 as int],
    {
        let (x, t) = arcs[k];
        if x == s && !seen[t] {
            proof {
                assert(a[k as int] == (s as int, t as int));
                lemma_reaches_plus_first(a, s as int, t as int);
                lemma_count_true_set(seen@, t as int);
                lemma_count_true_bound(seen@.update(t as int, true));
            }
            let ghost st1 = stack@;
            seen.set(t, true);
            stack.push(t);
            assert forall|y: usize| st1.contains(y) implies stack@.contains(y) by {
                let j = choose|j: int| 0 <= j < st1.len() && st1[j] == y;
                assert(stack@[j] == y);
            }
            assert(stack@[stack@.len() - 1] == t);
        }
    }
    while stack.len() > 0
        invariant
            a == arc_ints(arcs@),
            arcs_within(arcs@, n as nat),
            seen@.len() == n,
            count_true(seen@) <= n,
            forall|v: int| 0 <= v < n && seen@[v] ==> reaches_plus(a, s as int, v),
            forall|j: int| 0 <= j < arcs@.len() && (#[trigger] arcs@[j]).0 == s ==> seen@[arcs@[j].1 as int],
            forall|j: int| 0 <= j < stack@.len() ==> (#[trigger] stack@[j]) < n && seen@[stack@[j] as int],
            forall|j: int| 0 <= j < arcs@.len() && seen@[(#[trigger] arcs@[j]).0 as int]
                && !stack@.contains(arcs@[j].0) ==> seen@[arcs@[j].1 as int],
        decreases n - count_true(seen@) + stack@.len(),
    {
        let ghost m0 = n - count_true(seen@) + stack@.len();
        let ghost st0 = stack@;
        let u = stack.pop().unwrap();
        assert(st0[st0.len() - 1] == u);
        assert forall|x: usize| st0.contains(x) && x != u implies stack@.contains(x) by {
            let j = choose|j: int| 0 <= j < st0.len() && st0[j] == x;
            assert(stack@[j] == x);
        }
        for k in 0..arcs.len()
            invariant
                a == arc_ints(arcs@),
                arcs_within(arcs@, n as nat),
                seen@.len() == n,
                count_true(seen@) <= n,
                u < n,
                seen@[u as int],
                n - count_true(seen@) + stack@.len() == m0 - 1,
                forall|v: int| 0 <= v < n && seen@[v] ==> reaches_plus(a, s as int, v),
                forall|j: int| 0 <= j < arcs@.len() && (#[trigger] arcs@[j]).0 == s ==> seen@[arcs@[j].1 as int],
                forall|j: int| 0 <= j < stack@.len() ==> (#[trigger] stack@[j]) < n && seen@[stack@[j] as int],
                forall|j: int| 0 <= j < arcs@.len() && seen@[(#[trigger] arcs@[j]).0 as int]
                    && arcs@[j].0 != u && !stack@.contains(arcs@[j].0) ==> seen@[arcs@[j].1 as int],
                forall|j: int| 0 <= j < k && (#[trigger] arcs@[j]).0 == u ==> seen@[arcs@[j].1 as int],
        {
            let (x, t) = arcs[k];
            if x == u && !seen[t] {
                proof {
                    assert(a[k as int] == (u as int, t as int));
                    lemma_reaches_plus_step(a, s as int, u as int, t as int);
                    lemma_count_true_set(seen@, t as int);
                    lemma_count_true_bound(seen@.update(t as int, true));
                }
                let ghost st1 = stack@;
                seen.set(t, true);
                stack.push(t);
                assert forall|y: usize| st1.contains(y) implies stack@.contains(y) by {
                    let j = choose|j: int| 0 <= j < st1.len() && st1[j] == y;
                    assert(stack@[j] == y);
                }
                assert(stack@[stack@.len() - 1] == t);
            }
        }
        assert forall|j: int| 0 <= j < arcs@.len() && seen@[(#[trigger] arcs@[j]).0 as int]
            && !stack@.contains(arcs@[j].0) implies seen@[arcs@[j].1 as int] by {
            if arcs@[j].0 == u {
                assert(0 <= j < arcs@.len());
            }
        }
    }
    assert forall|v: int| 0 <= v < n implies (seen@[v] <==> reaches_plus(a, s as int, v)) by {
        if reaches_plus(a, s as int, v) {
            lemma_closed_holds(arcs@, n as nat, s as int, seen@, v);
        }
    }
    seen
}

} // verus!
