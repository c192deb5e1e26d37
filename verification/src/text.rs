//! Text building blocks shared by the reports and renderers: appending
//! characters, decimal numbers, joining, ordering and comparing strings.

use vstd::prelude::*;

verus! {

/// The character of a decimal digit.
pub open spec fn digit_char(d: nat) -> char {
    if d == 0 { '0' } else if d == 1 { '1' } else if d == 2 { '2' } else if d == 3 { '3' }
    else if d == 4 { '4' } else if d == 5 { '5' } else if d == 6 { '6' } else if d == 7 { '7' }
    else if d == 8 { '8' } else { '9' }
}

/// The decimal representation of a natural number, without leading zeros.
pub open spec fn decimal(n: nat) -> Seq<char>
    decreases n,
{
    if n < 10 {
        seq![digit_char(n)]
    } else {
        decimal(n / 10).push(digit_char(n % 10))
    }
}

/// Calls `String::push`: appends one character.
#[verifier::external_body]
pub(crate) fn push_char(s: &mut String, c: char)
    ensures
        final(s)@ == old(s)@.push(c),
{
    s.push(c);
}

/// Appends a string slice.
pub fn push_str(s: &mut String, t: &str)
    ensures
        final(s)@ == old(s)@ + t@,
{
    s.append(t);
}

/// A new string holding a copy of `t`.
pub fn to_owned(t: &str) -> (r: String)
    ensures
        r@ == t@,
{
    String::from_str(t)
}

/// A copy of a string.
pub fn dup(t: &String) -> (r: String)
    ensures
        r@ == t@,
{
    t.clone()
}

fn digit(d: usize) -> (c: char)
    requires
        d < 10,
    ensures
        c == digit_char(d as nat),
{
    if d == 0 { '0' } else if d == 1 { '1' } else if d == 2 { '2' } else if d == 3 { '3' }
    else if d == 4 { '4' } else if d == 5 { '5' } else if d == 6 { '6' } else if d == 7 { '7' }
    else if d == 8 { '8' } else { '9' }
}

/// Appends the decimal representation of `n`.
pub fn push_usize(s: &mut String, n: usize)
    ensures
        final(s)@ == old(s)@ + decimal(n as nat),
    decreases n,
{
    if n >= 10 {
        push_usize(s, n / 10);
    }
    push_char(s, digit(n % 10));
    assert(decimal(n as nat) == if n < 10 { seq![digit_char(n as nat)] } else {
        decimal((n / 10) as nat).push(digit_char((n % 10) as nat))
    });
}

/// The decimal representation of `n` as a string.
pub fn usize_to_string(n: usize) -> (r: String)
    ensures
        r@ == decimal(n as nat),
{
    let mut s = String::new();
    push_usize(&mut s, n);
    s
}

/// `items` joined with `sep` between consecutive items.
pub open spec fn seq_join(items: Seq<Seq<char>>, sep: Seq<char>) -> Seq<char>
    decreases items.len(),
{
    if items.len() == 0 {
        Seq::empty()
    } else if items.len() == 1 {
        items[0]
    } else {
        seq_join(items.drop_last(), sep) + sep + items.last()
    }
}

/// The views of a sequence of strings.
pub open spec fn views(v: Seq<String>) -> Seq<Seq<char>> {
    v.map_values(|s: String| s@)
}

/// Joins `items` with `sep`.
pub fn join(items: &[String], sep: &str) -> (r: String)
    ensures
        r@ == seq_join(views(items@), sep@),
{
    let mut out = String::new();
    let ghost all = views(items@);
    for i in 0..items.len()
        invariant
            all == views(items@),
            out@ == seq_join(all.take(i as int), sep@),
    {
        assert(all.take(i + 1).drop_last() =~= all.take(i as int));
        if i != 0 {
            push_str(&mut out, sep);
        }
        push_str(&mut out, items[i].as_str());
    }
    assert(all.take(items.len() as int) =~= all);
    out
}

/// Joins the first `m` of `items` with `sep`.
pub fn join_first(items: &[String], m: usize, sep: &str) -> (r: String)
    requires
        m <= items@.len(),
    ensures
        r@ == seq_join(views(items@).take(m as int), sep@),
{
    let mut out = String::new();
    let ghost all = views(items@);
    for i in 0..m
        invariant
            m <= items@.len(),
            all == views(items@),
            out@ == seq_join(all.take(i as int), sep@),
    {
        assert(all.take(i + 1).drop_last() =~= all.take(i as int));
        if i != 0 {
            push_str(&mut out, sep);
        }
        push_str(&mut out, items[i].as_str());
    }
    out
}

/// Strict lexicographic order on character sequences, comparing code points;
/// this is the order of `str` and `String`.
pub open spec fn seq_lt(a: Seq<char>, b: Seq<char>) -> bool
    decreases a.len(),
{
    if a.len() == 0 {
        b.len() > 0
    } else if b.len() == 0 {
        false
    } else if a[0] != b[0] {
        (a[0] as int) < (b[0] as int)
    } else {
        seq_lt(a.drop_first(), b.drop_first())
    }
}

pub proof fn lemma_seq_lt_irreflexive(a: Seq<char>)
    ensures
        !seq_lt(a, a),
    decreases a.len(),
{
    if a.len() > 0 {
        lemma_seq_lt_irreflexive(a.drop_first());
    }
}

pub proof fn lemma_seq_lt_transitive(a: Seq<char>, b: Seq<char>, c: Seq<char>)
    requires
        seq_lt(a, b),
        seq_lt(b, c),
    ensures
        seq_lt(a, c),
    decreases a.len(),
{
    if a.len() > 0 && b.len() > 0 && c.len() > 0 && a[0] == b[0] && b[0] == c[0] {
        lemma_seq_lt_transitive(a.drop_first(), b.drop_first(), c.drop_first());
    }
}

pub proof fn lemma_seq_lt_total(a: Seq<char>, b: Seq<char>)
    ensures
        a == b || seq_lt(a, b) || seq_lt(b, a),
    decreases a.len(),
{
    if a.len() > 0 && b.len() > 0 && a[0] == b[0] {
        lemma_seq_lt_total(a.drop_first(), b.drop_first());
        if a.drop_first() == b.drop_first() {
            assert(a =~= seq![a[0]] + a.drop_first());
            assert(b =~= seq![b[0]] + b.drop_first());
        }
    } else if a.len() == 0 && b.len() == 0 {
        assert(a =~= b);
    }
}

pub proof fn lemma_seq_lt_asymmetric(a: Seq<char>, b: Seq<char>)
    requires
        seq_lt(a, b),
    ensures
        !seq_lt(b, a),
{
    if seq_lt(b, a) {
        lemma_seq_lt_transitive(a, b, a);
        lemma_seq_lt_irreflexive(a);
    }
}

/// Whether `a` comes strictly before `b`.
pub fn str_lt(a: &str, b: &str) -> (r: bool)
    ensures
        r == seq_lt(a@, b@),
{
    let la = a.unicode_len();
    let lb = b.unicode_len();
    let mut i: usize = 0;
    assert(a@.skip(0) =~= a@);
    assert(b@.skip(0) =~= b@);
    while i < la && i < lb
        invariant
            la == a@.len(),
            lb == b@.len(),
            i <= la,
            i <= lb,
            seq_lt(a@, b@) == seq_lt(a@.skip(i as int), b@.skip(i as int)),
        decreases la - i,
    {
        let ca = a.get_char(i);
        let cb = b.get_char(i);
        assert(a@.skip(i as int)[0] == ca);
        assert(b@.skip(i as int)[0] == cb);
        if ca != cb {
            return (ca as u32) < (cb as u32);
        }
        assert(a@.skip(i as int).drop_first() =~= a@.skip(i + 1));
        assert(b@.skip(i as int).drop_first() =~= b@.skip(i + 1));
        i = i + 1;
    }
    i == la && i < lb
}

/// Whether two string slices hold the same characters.
pub fn str_eq(a: &str, b: &str) -> (r: bool)
    ensures
        r == (a@ == b@),
{
    let la = a.unicode_len();
    let lb = b.unicode_len();
    if la != lb {
        return false;
    }
    let mut i: usize = 0;
    while i < la
        invariant
            la == a@.len(),
            lb == b@.len(),
            la == lb,
            i <= la,
            a@.take(i as int) == b@.take(i as int),
        decreases la - i,
    {
        if a.get_char(i) != b.get_char(i) {
            assert(a@[i as int] != b@[i as int]);
            return false;
        }
        assert(a@.take(i + 1) =~= a@.take(i as int).push(a@[i as int]));
        assert(b@.take(i + 1) =~= b@.take(i as int).push(b@[i as int]));
        i = i + 1;
    }
    assert(a@ =~= a@.take(la as int));
    assert(b@ =~= b@.take(lb as int));
    true
}

/// Whether `hay` contains `needle` as a contiguous part.
pub open spec fn seq_contains_sub(hay: Seq<char>, needle: Seq<char>) -> bool {
    exists|i: int| 0 <= i && i + needle.len() <= hay.len() && #[trigger] hay.subrange(i, i + needle.len()) == needle
}

/// Whether `hay` contains `needle` as a contiguous part (`str::contains`).
pub fn str_contains(hay: &str, needle: &str) -> (r: bool)
    ensures
        r == seq_contains_sub(hay@, needle@),
{
    let lh = hay.unicode_len();
    let ln = needle.unicode_len();
    if ln > lh {
        assert forall|i: int| 0 <= i && i + needle@.len() <= hay@.len() implies
            #[trigger] hay@.subrange(i, i + needle@.len()) != needle@ by {}
        return false;
    }
    let mut i: usize = 0;
    let mut found = false;
    while i <= lh - ln && !found
        invariant
            lh == hay@.len(),
            ln == needle@.len(),
            ln <= lh,
            i <= lh - ln + 1,
            found ==> i <= lh - ln,
            found ==> hay@.subrange(i as int, i + ln) == needle@,
            forall|j: int| 0 <= j < i ==> #[trigger] hay@.subrange(j, j + ln) != needle@,
        decreases lh - i, if found { 0int } else { 1int },
    {
        let mut k: usize = 0;
        let mut same = true;
        assert(hay@.subrange(i as int, i as int) =~= needle@.take(0));
        while k < ln
            invariant
                lh == hay@.len(),
                ln == needle@.len(),
                i + ln <= lh,
                k <= ln,
                same == (hay@.subrange(i as int, i + k) == needle@.take(k as int)),
            decreases ln - k,
        {
            if same {
                let c1 = hay.get_char(i + k);
                let c2 = needle.get_char(k);
                assert(hay@.subrange(i as int, i + k + 1) =~= hay@.subrange(i as int, i + k).push(c1));
                assert(needle@.take(k + 1) =~= needle@.take(k as int).push(c2));
                if c1 != c2 {
                    same = false;
                    assert(hay@.subrange(i as int, i + k + 1)[k as int] != needle@.take(k + 1)[k as int]);
                }
            } else {
                assert(hay@.subrange(i as int, i + k + 1).take(k as int) =~= hay@.subrange(i as int, i + k));
                assert(needle@.take(k + 1).take(k as int) =~= needle@.take(k as int));
            }
            k = k + 1;
        }
        assert(needle@.take(ln as int) =~= needle@);
        if same {
            found = true;
        } else if i == lh - ln {
            assert forall|j: int| 0 <= j && j + needle@.len() <= hay@.len() implies
                #[trigger] hay@.subrange(j, j + needle@.len()) != needle@ by {
                if j == i {} else {}
            }
            return false;
        } else {
            i = i + 1;
        }
    }
    if found {
        return true;
    }
    assert forall|j: int| 0 <= j && j + needle@.len() <= hay@.len() implies
        #[trigger] hay@.subrange(j, j + needle@.len()) != needle@ by {}
    false
}


/// Whether a sequence of strings is in strictly increasing order.
pub open spec fn strictly_sorted(s: Seq<Seq<char>>) -> bool {
    forall|i: int, j: int| 0 <= i < j < s.len() ==> seq_lt(#[trigger] s[i], #[trigger] s[j])
}

/// `s` with `x` added at its place in the order, unless already present.
pub open spec fn sorted_insert(s: Seq<Seq<char>>, x: Seq<char>) -> Seq<Seq<char>>
    decreases s.len(),
{
    if s.len() == 0 {
        seq![x]
    } else if s[0] == x {
        s
    } else if seq_lt(x, s[0]) {
        seq![x] + s
    } else {
        seq![s[0]] + sorted_insert(s.drop_first(), x)
    }
}

/// The distinct strings of `items`, in increasing order.
pub open spec fn sorted_set(items: Seq<Seq<char>>) -> Seq<Seq<char>>
    decreases items.len(),
{
    if items.len() == 0 {
        Seq::empty()
    } else {
        sorted_insert(sorted_set(items.drop_last()), items.last())
    }
}

proof fn lemma_sorted_insert_at(s: Seq<Seq<char>>, x: Seq<char>, i: int)
    requires
        0 <= i <= s.len(),
        forall|k: int| 0 <= k < i ==> seq_lt(#[trigger] s[k], x),
        i < s.len() ==> !seq_lt(s[i], x),
    ensures
        sorted_insert(s, x) == (if i < s.len() && s[i] == x { s } else { s.insert(i, x) }),
    decreases s.len(),
{
    if s.len() == 0 {
        assert(s.insert(i, x) =~= seq![x]);
    } else if i == 0 {
        if s[0] == x {
        } else {
            lemma_seq_lt_total(x, s[0]);
            assert(s.insert(0, x) =~= seq![x] + s);
        }
    } else {
        assert(seq_lt(s[0], x));
        lemma_seq_lt_asymmetric(s[0], x);
        lemma_seq_lt_irreflexive(x);
        let t = s.drop_first();
        assert forall|k: int| 0 <= k < i - 1 implies seq_lt(#[trigger] t[k], x) by {
            assert(t[k] == s[k + 1]);
        }
        lemma_sorted_insert_at(t, x, i - 1);
        if i < s.len() && s[i] == x {
            assert(seq![s[0]] + t =~= s);
        } else {
            assert(seq![s[0]] + t.insert(i - 1, x) =~= s.insert(i, x));
        }
    }
}

/// Inserting keeps the order strict and adds exactly `x` to the set.
pub proof fn lemma_sorted_insert_props(s: Seq<Seq<char>>, x: Seq<char>)
    requires
        strictly_sorted(s),
    ensures
        strictly_sorted(sorted_insert(s, x)),
        sorted_insert(s, x).to_set() == s.to_set().insert(x),
    decreases s.len(),
{
    let r = sorted_insert(s, x);
    if s.len() == 0 {
        assert(r.to_set() =~= s.to_set().insert(x)) by {
            assert(r[0] == x);
        }
    } else if s[0] == x {
        assert(r.to_set() =~= s.to_set().insert(x)) by {
            assert(s.contains(x));
        }
    } else if seq_lt(x, s[0]) {
        assert forall|i: int, j: int| 0 <= i < j < r.len() implies seq_lt(#[trigger] r[i], #[trigger] r[j]) by {
            if i == 0 {
                if j > 1 {
                    lemma_seq_lt_transitive(x, s[0], s[j - 1]);
                }
            } else {
                assert(r[i] == s[i - 1] && r[j] == s[j - 1]);
            }
        }
        assert(r.to_set() =~= s.to_set().insert(x)) by {
            assert forall|y| r.to_set().contains(y) implies s.to_set().insert(x).contains(y) by {
                let k = choose|k: int| 0 <= k < r.len() && r[k] == y;
                if k > 0 { assert(s[k - 1] == y); }
            }
            assert forall|y| s.to_set().insert(x).contains(y) implies r.to_set().contains(y) by {
                if y == x { assert(r[0] == x); } else {
                    let k = choose|k: int| 0 <= k < s.len() && s[k] == y;
                    assert(r[k + 1] == y);
                }
            }
        }
    } else {
        let t = s.drop_first();
        assert forall|a: int, b: int| 0 <= a < b < t.len() implies seq_lt(#[trigger] t[a], #[trigger] t[b]) by {
            assert(t[a] == s[a + 1] && t[b] == s[b + 1]);
        }
        lemma_sorted_insert_props(t, x);
        let rt = sorted_insert(t, x);
        lemma_seq_lt_total(x, s[0]);
        assert forall|i: int, j: int| 0 <= i < j < r.len() implies seq_lt(#[trigger] r[i], #[trigger] r[j]) by {
            if i == 0 {
                assert(r[j] == rt[j - 1]);
                assert(rt.to_set().contains(rt[j - 1]));
                if rt[j - 1] != x {
                    let k = choose|k: int| 0 <= k < t.len() && t[k] == rt[j - 1];
                    assert(s[k + 1] == t[k]);
                }
            } else {
                assert(r[i] == rt[i - 1] && r[j] == rt[j - 1]);
            }
        }
        assert(r.to_set() =~= s.to_set().insert(x)) by {
            assert forall|y| r.to_set().contains(y) implies s.to_set().insert(x).contains(y) by {
                let k = choose|k: int| 0 <= k < r.len() && r[k] == y;
                if k > 0 {
                    assert(rt.to_set().contains(y));
                    if y != x {
                        let m = choose|m: int| 0 <= m < t.len() && t[m] == y;
                        assert(s[m + 1] == y);
                    }
                }
            }
            assert forall|y| s.to_set().insert(x).contains(y) implies r.to_set().contains(y) by {
                if y == x {
                    assert(rt.to_set().contains(x));
                    let m = choose|m: int| 0 <= m < rt.len() && rt[m] == x;
                    assert(r[m + 1] == x);
                } else {
                    let k = choose|k: int| 0 <= k < s.len() && s[k] == y;
                    if k == 0 { assert(r[0] == y); } else {
                        assert(t[k - 1] == y);
                        assert(rt.to_set().contains(y));
                        let m = choose|m: int| 0 <= m < rt.len() && rt[m] == y;
                        assert(r[m + 1] == y);
                    }
                }
            }
        }
    }
}

/// `sorted_set` is strictly increasing and holds exactly the given strings.
pub proof fn lemma_sorted_set_props(items: Seq<Seq<char>>)
    ensures
        strictly_sorted(sorted_set(items)),
        sorted_set(items).to_set() == items.to_set(),
    decreases items.len(),
{
    if items.len() == 0 {
        assert(sorted_set(items).to_set() =~= items.to_set());
    } else {
        lemma_sorted_set_props(items.drop_last());
        lemma_sorted_insert_props(sorted_set(items.drop_last()), items.last());
        assert(items.to_set() =~= items.drop_last().to_set().insert(items.last())) by {
            assert(items =~= items.drop_last().push(items.last()));
        }
    }
}

/// Adds `x` to `v` before the first string that does not come before it,
/// unless that string is `x`: its place, when `v` is strictly increasing.
pub fn insert_sorted_unique(v: &mut Vec<String>, x: String)
    ensures
        views(final(v)@) == sorted_insert(views(old(v)@), x@),
        strictly_sorted(views(old(v)@)) ==> strictly_sorted(views(final(v)@)),
{
    let ghost s = views(v@);
    let mut i: usize = 0;
    while i < v.len() && str_lt(v[i].as_str(), x.as_str())
        invariant
            s == views(v@),
            s == views(old(v)@),
            i <= v.len(),
            forall|k: int| 0 <= k < i ==> seq_lt(#[trigger] s[k], x@),
        decreases v.len() - i,
    {
        i = i + 1;
    }
    proof {
        lemma_sorted_insert_at(s, x@, i as int);
        if strictly_sorted(s) {
            lemma_sorted_insert_props(s, x@);
        }
    }
    if i < v.len() && str_eq(v[i].as_str(), x.as_str()) {
        return;
    }
    v.insert(i, x);
    assert(views(v@) =~= s.insert(i as int, x@));
}

/// `s` with `x` inserted after every string that does not come after it.
pub open spec fn ordered_insert(s: Seq<Seq<char>>, x: Seq<char>) -> Seq<Seq<char>>
    decreases s.len(),
{
    if s.len() == 0 {
        seq![x]
    } else if seq_lt(x, s[0]) {
        seq![x] + s
    } else {
        seq![s[0]] + ordered_insert(s.drop_first(), x)
    }
}

/// The strings of `items`, repetitions kept, in increasing order.
pub open spec fn ordered(items: Seq<Seq<char>>) -> Seq<Seq<char>>
    decreases items.len(),
{
    if items.len() == 0 {
        Seq::empty()
    } else {
        ordered_insert(ordered(items.drop_last()), items.last())
    }
}

proof fn lemma_ordered_insert_at(s: Seq<Seq<char>>, x: Seq<char>, i: int)
    requires
        0 <= i <= s.len(),
        forall|k: int| 0 <= k < i ==> !seq_lt(x, #[trigger] s[k]),
        i < s.len() ==> seq_lt(x, s[i]),
    ensures
        ordered_insert(s, x) == s.insert(i, x),
    decreases s.len(),
{
    if s.len() == 0 {
        assert(s.insert(i, x) =~= seq![x]);
    } else if i == 0 {
        assert(s.insert(0, x) =~= seq![x] + s);
    } else {
        assert(!seq_lt(x, s[0]));
        let t = s.drop_first();
        assert forall|k: int| 0 <= k < i - 1 implies !seq_lt(x, #[trigger] t[k]) by {
            assert(t[k] == s[k + 1]);
        }
        lemma_ordered_insert_at(t, x, i - 1);
        assert(seq![s[0]] + t.insert(i - 1, x) =~= s.insert(i, x));
    }
}

/// Inserts `x` into `v` after every string that does not come after it.
pub fn insert_ordered(v: &mut Vec<String>, x: String)
    ensures
        views(final(v)@) == ordered_insert(views(old(v)@), x@),
{
    let ghost s = views(v@);
    let mut i: usize = 0;
    while i < v.len() && !str_lt(x.as_str(), v[i].as_str())
        invariant
            s == views(v@),
            s == views(old(v)@),
            i <= v.len(),
            forall|k: int| 0 <= k < i ==> !seq_lt(x@, #[trigger] s[k]),
        decreases v.len() - i,
    {
        i = i + 1;
    }
    proof {
        lemma_ordered_insert_at(s, x@, i as int);
    }
    v.insert(i, x);
    assert(views(v@) =~= s.insert(i as int, x@));
}

/// The view of an optional string.
pub open spec fn opt_view(s: Option<String>) -> Option<Seq<char>> {
    match s {
        Some(t) => Some(t@),
        None => None,
    }
}

/// The parts concatenated in order.
pub open spec fn concat_all(parts: Seq<Seq<char>>) -> Seq<char>
    decreases parts.len(),
{
    if parts.len() == 0 {
        Seq::empty()
    } else {
        concat_all(parts.drop_last()) + parts.last()
    }
}

/// Concatenating one more part appends it.
pub proof fn lemma_concat_take(parts: Seq<Seq<char>>, i: int)
    requires
        0 <= i < parts.len(),
    ensures
        concat_all(parts.take(i + 1)) == concat_all(parts.take(i)) + parts[i],
{
    assert(parts.take(i + 1).drop_last() =~= parts.take(i));
}

/// A line: the text followed by a newline.
pub open spec fn line(t: Seq<char>) -> Seq<char> {
    t.push('\n')
}

/// Appends `t` and a newline.
pub fn push_line(s: &mut String, t: &str)
    ensures
        final(s)@ == old(s)@ + line(t@),
{
    push_str(s, t);
    push_char(s, '\n');
    assert(final(s)@ =~= old(s)@ + line(t@));
}

/// Appends a newline.
pub fn push_newline(s: &mut String)
    ensures
        final(s)@ == old(s)@.push('\n'),
{
    push_char(s, '\n');
}

/// Whether the list of strings holds `x`.
pub fn contains_str(v: &[String], x: &str) -> (r: bool)
    ensures
        r == views(v@).contains(x@),
{
    let mut i: usize = 0;
    while i < v.len()
        invariant
            i <= v.len(),
            forall|k: int| 0 <= k < i ==> (#[trigger] views(v@)[k]) != x@,
        decreases v.len() - i,
    {
        if str_eq(v[i].as_str(), x) {
            assert(views(v@)[i as int] == x@);
            return true;
        }
        i = i + 1;
    }
    false
}

/// A copy of a list of strings.
pub fn dup_all(v: &[String]) -> (r: Vec<String>)
    ensures
        views(r@) == views(v@),
{
    let mut r: Vec<String> = Vec::new();
    for i in 0..v.len()
        invariant
            r@.len() == i,
            views(r@) == views(v@).take(i as int),
    {
        let n = dup(&v[i]);
        let ghost before = r@;
        r.push(n);
        assert(r@ == before.push(n));
        assert(views(r@) =~= views(v@).take(i + 1)) by {
            assert(views(r@)[i as int] == n@);
        }
    }
    assert(views(v@).take(v.len() as int) =~= views(v@));
    r
}

} // verus!
