//! String manipulation utilities.

use vstd::prelude::*;

use crate::text::{push_char, to_owned};

verus! {

/// The word, with an `s` appended unless the count is one.
pub open spec fn plural_of(word: Seq<char>, count: nat) -> Seq<char> {
    if count == 1 { word } else { word.push('s') }
}

/// Pluralize a word based on count.
pub fn pluralize(word: &str, count: usize) -> (r: String)
    ensures
        r@ == plural_of(word@, count as nat),
{
    let mut r = to_owned(word);
    if count != 1 {
        push_char(&mut r, 's');
    }
    r
}

} // verus!
