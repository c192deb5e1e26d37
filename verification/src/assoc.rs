//! Association lists keyed by strings: the maps of the analysis, kept as
//! lists of (key, value) entries in insertion order, each key once.

use vstd::prelude::*;

use crate::text::{insert_sorted_unique, sorted_insert, str_eq, strictly_sorted, views};

verus! {

/// The position of the first entry with key `k` among the first `n`, or -1.
pub open spec fn key_index<V>(m: Seq<(String, V)>, k: Seq<char>, n: nat) -> int
    decreases n,
{
    if n == 0 {
        -1
    } else {
        let i = key_index(m, k, (n - 1) as nat);
        if i >= 0 { i } else if m[n - 1].0@ == k { n - 1 } else { -1 }
    }
}

/// The position of the entry with key `k`, or -1.
pub open spec fn find<V>(m: Seq<(String, V)>, k: Seq<char>) -> int {
    key_index(m, k, m.len())
}

pub proof fn lemma_key_index_props<V>(m: Seq<(String, V)>, k: Seq<char>, n: nat)
    requires
        n <= m.len(),
    ensures
        -1 <= key_index(m, k, n) < n,
        key_index(m, k, n) >= 0 ==> m[key_index(m, k, n)].0@ == k,
        key_index(m, k, n) < 0 ==> forall|j: int| 0 <= j < n ==> (#[trigger] m[j]).0@ != k,
    decreases n,
{
    if n > 0 {
        lemma_key_index_props(m, k, (n - 1) as nat);
    }
}

pub proof fn lemma_key_index_stable<V>(m: Seq<(String, V)>, k: Seq<char>, a: nat, b: nat)
    requires
        a <= b,
        key_index(m, k, a) >= 0,
    ensures
        key_index(m, k, b) == key_index(m, k, a),
    decreases b - a,
{
    if a < b {
        lemma_key_index_stable(m, k, a, (b - 1) as nat);
    }
}

/// The position of the entry with key `k`.
pub fn find_key<V>(m: &Vec<(String, V)>, k: &str) -> (r: Option<usize>)
    ensures
        r matches Some(i) ==> i < m@.len() && i as int == find(m@, k@),
        r is None ==> find(m@, k@) < 0,
{
    let mut i: usize = 0;
    while i < m.len()
        invariant
            i <= m.len(),
            key_index(m@, k@, i as nat) < 0,
        decreases m.len() - i,
    {
        if str_eq(m[i].0.as_str(), k) {
            proof { lemma_key_index_stable(m@, k@, (i + 1) as nat, m@.len()); }
            return Some(i);
        }
        i = i + 1;
    }
    None
}

/// `m` with the value of key `k` set to `v`: replaced in place when the key
/// is present, else appended.
pub open spec fn put<V>(m: Seq<(String, V)>, k: String, v: V) -> Seq<(String, V)> {
    let i = find(m, k@);
    if i >= 0 { m.update(i, (m[i].0, v)) } else { m.push((k, v)) }
}

/// Sets the value of key `k` to `v`.
pub fn put_entry<V>(m: &mut Vec<(String, V)>, k: String, v: V)
    ensures
        final(m)@ == put(old(m)@, k, v),
{
    match find_key(m, k.as_str()) {
        Some(i) => {
            proof { lemma_key_index_props(old(m)@, k@, old(m)@.len()); }
            let (key, _) = m.remove(i);
            m.insert(i, (key, v));
            assert(m@ =~= put(old(m)@, k, v));
        },
        None => {
            m.push((k, v));
        },
    }
}

/// The position of the first entry with key `k` among the first `n` of a
/// viewed list map, or -1.
pub open spec fn vkey_index(m: Seq<(Seq<char>, Seq<Seq<char>>)>, k: Seq<char>, n: nat) -> int
    decreases n,
{
    if n == 0 {
        -1
    } else {
        let i = vkey_index(m, k, (n - 1) as nat);
        if i >= 0 { i } else if m[n - 1].0 == k { n - 1 } else { -1 }
    }
}

proof fn lemma_vkey_index(m: Seq<(String, Vec<String>)>, k: Seq<char>, n: nat)
    requires
        n <= m.len(),
    ensures
        key_index(m, k, n) == vkey_index(list_views(m), k, n),
    decreases n,
{
    if n > 0 {
        lemma_vkey_index(m, k, (n - 1) as nat);
    }
}

/// A viewed list map with `x` appended to the list of key `k` (a new entry
/// when absent).
pub open spec fn push_to(m: Seq<(Seq<char>, Seq<Seq<char>>)>, k: Seq<char>, x: Seq<char>) -> Seq<(Seq<char>, Seq<Seq<char>>)> {
    let i = vkey_index(m, k, m.len());
    if i >= 0 { m.update(i, (m[i].0, m[i].1.push(x))) } else { m.push((k, seq![x])) }
}

/// Appends `x` to the list of key `k`.
pub fn push_entry(m: &mut Vec<(String, Vec<String>)>, k: String, x: String)
    ensures
        list_views(final(m)@) == push_to(list_views(old(m)@), k@, x@),
{
    proof { lemma_vkey_index(old(m)@, k@, old(m)@.len()); }
    match find_key(m, k.as_str()) {
        Some(i) => {
            proof { lemma_key_index_props(old(m)@, k@, old(m)@.len()); }
            let (key, mut list) = m.remove(i);
            let ghost before = list@;
            list.push(x);
            assert(views(list@) =~= views(before).push(x@));
            m.insert(i, (key, list));
            assert(list_views(m@) =~= push_to(list_views(old(m)@), k@, x@));
        },
        None => {
            let mut list: Vec<String> = Vec::new();
            list.push(x);
            assert(views(list@) =~= seq![x@]);
            m.push((k, list));
            assert(list_views(m@) =~= push_to(list_views(old(m)@), k@, x@));
        },
    }
}

/// A viewed list map with `x` added to the sorted set of key `k` (a new
/// entry when absent).
pub open spec fn add_to(m: Seq<(Seq<char>, Seq<Seq<char>>)>, k: Seq<char>, x: Seq<char>) -> Seq<(Seq<char>, Seq<Seq<char>>)> {
    let i = vkey_index(m, k, m.len());
    if i >= 0 { m.update(i, (m[i].0, sorted_insert(m[i].1, x))) } else { m.push((k, seq![x])) }
}

/// Every list of the map is strictly sorted.
pub open spec fn sets_sorted(m: Seq<(String, Vec<String>)>) -> bool {
    forall|i: int| 0 <= i < m.len() ==> strictly_sorted(views(#[trigger] m[i].1@))
}

/// Adds `x` to the sorted set of key `k`.
pub fn add_entry(m: &mut Vec<(String, Vec<String>)>, k: String, x: String)
    ensures
        list_views(final(m)@) == add_to(list_views(old(m)@), k@, x@),
        sets_sorted(old(m)@) ==> sets_sorted(final(m)@),
{
    proof { lemma_vkey_index(old(m)@, k@, old(m)@.len()); }
    match find_key(m, k.as_str()) {
        Some(i) => {
            proof { lemma_key_index_props(old(m)@, k@, old(m)@.len()); }
            let (key, mut list) = m.remove(i);
            assert(old(m)@[i as int].1 == list);
            insert_sorted_unique(&mut list, x);
            m.insert(i, (key, list));
            assert(list_views(m@) =~= add_to(list_views(old(m)@), k@, x@));
            proof {
                if sets_sorted(old(m)@) {
                    assert forall|j: int| 0 <= j < m@.len() implies strictly_sorted(views(#[trigger] m@[j].1@)) by {
                        if j != i {
                            assert(m@[j] == old(m)@[j]);
                        }
                    }
                }
            }
        },
        None => {
            let mut list: Vec<String> = Vec::new();
            list.push(x);
            assert(views(list@) =~= seq![x@]);
            m.push((k, list));
            assert(list_views(m@) =~= add_to(list_views(old(m)@), k@, x@));
            proof {
                if sets_sorted(old(m)@) {
                    assert forall|j: int| 0 <= j < m@.len() implies strictly_sorted(views(#[trigger] m@[j].1@)) by {
                        if j < old(m)@.len() {
                            assert(m@[j] == old(m)@[j]);
                        }
                    }
                }
            }
        },
    }
}

/// The views of a list of (string, string list) entries.
pub open spec fn list_views(m: Seq<(String, Vec<String>)>) -> Seq<(Seq<char>, Seq<Seq<char>>)> {
    m.map_values(|e: (String, Vec<String>)| (e.0@, views(e.1@)))
}

/// The views of a list of (string, string) entries.
pub open spec fn str_pairs(m: Seq<(String, String)>) -> Seq<(Seq<char>, Seq<char>)> {
    m.map_values(|e: (String, String)| (e.0@, e.1@))
}

/// A viewed string map with key `k` set to `v`: replaced in place when
/// present, else appended.
pub open spec fn put_str(m: Seq<(Seq<char>, Seq<char>)>, k: Seq<char>, v: Seq<char>) -> Seq<(Seq<char>, Seq<char>)> {
    let i = skey_index(m, k, m.len());
    if i >= 0 { m.update(i, (m[i].0, v)) } else { m.push((k, v)) }
}

/// The position of the first entry with key `k` among the first `n` of a
/// viewed string map, or -1.
pub open spec fn skey_index(m: Seq<(Seq<char>, Seq<char>)>, k: Seq<char>, n: nat) -> int
    decreases n,
{
    if n == 0 {
        -1
    } else {
        let i = skey_index(m, k, (n - 1) as nat);
        if i >= 0 { i } else if m[n - 1].0 == k { n - 1 } else { -1 }
    }
}

proof fn lemma_skey_index(m: Seq<(String, String)>, k: Seq<char>, n: nat)
    requires
        n <= m.len(),
    ensures
        key_index(m, k, n) == skey_index(str_pairs(m), k, n),
    decreases n,
{
    if n > 0 {
        lemma_skey_index(m, k, (n - 1) as nat);
    }
}

/// Sets the value of key `k` to `v` in a string map.
pub fn put_str_entry(m: &mut Vec<(String, String)>, k: String, v: String)
    ensures
        str_pairs(final(m)@) == put_str(str_pairs(old(m)@), k@, v@),
{
    proof { lemma_skey_index(old(m)@, k@, old(m)@.len()); }
    let ghost kv = k@;
    put_entry(m, k, v);
    proof { lemma_key_index_props(old(m)@, kv, old(m)@.len()); }
    assert(str_pairs(m@) =~= put_str(str_pairs(old(m)@), kv, v@));
}

} // verus!
