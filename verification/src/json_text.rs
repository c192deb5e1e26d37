//! Pretty-printed JSON text, laid out as `serde_json::to_string_pretty` lays
//! it out: two spaces per level, `[]` for an empty list, one item per line
//! otherwise. String values are quoted by `serde_json` itself.

use vstd::prelude::*;

use crate::text::{concat_all, decimal, lemma_concat_take, push_char, push_str, push_usize};

verus! {

/// `n` spaces.
pub open spec fn spaces(n: nat) -> Seq<char> {
    Seq::new(n, |i: int| ' ')
}

/// Appends `n` spaces.
pub fn push_spaces(out: &mut String, n: usize)
    ensures
        final(out)@ == old(out)@ + spaces(n as nat),
{
    let ghost start = out@;
    for i in 0..n
        invariant
            out@ == start + spaces(i as nat),
    {
        push_char(out, ' ');
        assert(spaces((i + 1) as nat) =~= spaces(i as nat).push(' '));
    }
}

/// The hexadecimal digit of a number below 16, in lower case.
pub open spec fn hex_digit(n: int) -> char {
    if n < 10 { ((n + 48) as u32) as char } else { ((n + 87) as u32) as char }
}

/// How JSON writes one character inside a string: quote, backslash and the
/// control characters escaped, everything else as it is.
pub open spec fn json_char(c: char) -> Seq<char> {
    if c == '"' {
        seq!['\\', '"']
    } else if c == '\\' {
        seq!['\\', '\\']
    } else if c == '\n' {
        seq!['\\', 'n']
    } else if c == '\r' {
        seq!['\\', 'r']
    } else if c == '\t' {
        seq!['\\', 't']
    } else if c == '\x08' {
        seq!['\\', 'b']
    } else if c == '\x0c' {
        seq!['\\', 'f']
    } else if (c as int) < 0x20 {
        seq!['\\', 'u', '0', '0', hex_digit((c as int) / 16), hex_digit((c as int) % 16)]
    } else {
        seq![c]
    }
}

/// A string as a JSON string literal.
pub open spec fn json_quoted(s: Seq<char>) -> Seq<char> {
    seq!['"'] + concat_all(s.map_values(|c: char| json_char(c))) + seq!['"']
}

/// Calls `serde_json::to_string` on a string slice: its JSON string
/// literal. Serialising a `str` into a `String` cannot fail; the error arm
/// is never taken.
#[verifier::external_body]
pub(crate) fn json_quote(s: &str) -> (r: String)
    ensures
        r@ == json_quoted(s@),
{
    match serde_json::to_string(s) {
        Ok(v) => v,
        Err(_) => String::new(),
    }
}

/// A JSON list at indentation `ind` whose items are already laid out for
/// indentation `ind + 2`.
pub open spec fn json_list(items: Seq<Seq<char>>, ind: nat) -> Seq<char> {
    if items.len() == 0 {
        seq!['[', ']']
    } else {
        seq!['['] + concat_all(Seq::new(items.len(), |i: int| list_item(items, ind, i))) + seq!['\n'] + spaces(ind)
            + seq![']']
    }
}

/// The `i`-th item of a JSON list with its separator and indentation.
pub open spec fn list_item(items: Seq<Seq<char>>, ind: nat, i: int) -> Seq<char> {
    (if i == 0 { seq!['\n'] } else { seq![',', '\n'] }) + spaces(ind + 2) + items[i]
}

/// A JSON boolean.
pub open spec fn json_bool(b: bool) -> Seq<char> {
    if b { "true"@ } else { "false"@ }
}

/// Appends a JSON boolean.
pub fn push_bool(out: &mut String, b: bool)
    ensures
        final(out)@ == old(out)@ + json_bool(b),
{
    if b {
        push_str(out, "true");
    } else {
        push_str(out, "false");
    }
}

/// Appends the opening of a JSON list item: its separator and indentation.
pub fn push_item_start(out: &mut String, ind: usize, i: usize)
    requires
        ind + 2 <= usize::MAX,
    ensures
        final(out)@ == old(out)@ + (if i == 0 { seq!['\n'] } else { seq![',', '\n'] }) + spaces((ind + 2) as nat),
{
    let ghost start = out@;
    if i != 0 {
        push_char(out, ',');
    }
    push_char(out, '\n');
    assert(out@ =~= start + (if i == 0 { seq!['\n'] } else { seq![',', '\n'] }));
    push_spaces(out, ind + 2);
}

/// Appends a list of strings as a JSON list at indentation `ind`.
pub fn push_string_list(out: &mut String, items: &[String], ind: usize)
    requires
        ind + 2 <= usize::MAX,
    ensures
        final(out)@ == old(out)@ + json_list(items@.map_values(|s: String| json_quoted(s@)), ind as nat),
{
    let ghost iv = items@.map_values(|s: String| json_quoted(s@));
    if items.len() == 0 {
        push_char(out, '[');
        push_char(out, ']');
        assert(final(out)@ =~= old(out)@ + json_list(iv, ind as nat));
        return;
    }
    push_char(out, '[');
    let ghost head = out@;
    let ghost parts = Seq::new(iv.len(), |i: int| list_item(iv, ind as nat, i));
    for i in 0..items.len()
        invariant
            ind + 2 <= usize::MAX,
            iv == items@.map_values(|s: String| json_quoted(s@)),
            parts == Seq::new(iv.len(), |i: int| list_item(iv, ind as nat, i)),
            out@ == head + concat_all(parts.take(i as int)),
    {
        let ghost before = out@;
        push_item_start(out, ind, i);
        let q = json_quote(items[i].as_str());
        push_str(out, q.as_str());
        assert(out@ =~= before + parts[i as int]);
        proof { lemma_concat_take(parts, i as int); }
    }
    assert(parts.take(items.len() as int) =~= parts);
    push_char(out, '\n');
    push_spaces(out, ind);
    push_char(out, ']');
    assert(final(out)@ =~= old(out)@ + json_list(iv, ind as nat));
}

/// One field of a JSON object that is an item of a top-level list: its
/// indentation, key, value and the separator that follows.
pub open spec fn json_field(key: Seq<char>, value: Seq<char>, last: bool) -> Seq<char> {
    spaces(6) + "\""@ + key + "\": "@ + value + (if last { "\n"@ } else { ",\n"@ })
}

/// Appends one field of a list item's JSON object.
pub fn push_json_field(output: &mut String, key: &str, value: &str, last: bool)
    ensures
        final(output)@ == old(output)@ + json_field(key@, value@, last),
{
    let ghost before = output@;
    push_spaces(output, 6);
    push_str(output, "\"");
    push_str(output, key);
    push_str(output, "\": ");
    push_str(output, value);
    if last {
        push_str(output, "\n");
    } else {
        push_str(output, ",\n");
    }
    assert(output@ =~= before + json_field(key@, value@, last));
}

/// A JSON boolean as a string.
pub fn bool_text(b: bool) -> (r: String)
    ensures
        r@ == json_bool(b),
{
    let mut s = String::new();
    push_bool(&mut s, b);
    assert(s@ =~= json_bool(b));
    s
}

} // verus!
