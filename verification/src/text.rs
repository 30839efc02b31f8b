//! What this library takes on trust about `String`, and small verified
//! helpers for moving between strings and their characters.

use vstd::prelude::*;

verus! {

/// Specification of `String::push` of the standard library, which vstd leaves
/// without one. Taken on trust from its documentation: the call appends the
/// character `c` to the end of the string and changes nothing else.
pub assume_specification[ String::push ](text: &mut String, c: char)
    ensures
        final(text)@ == old(text)@.push(c),
;

/// Whether `text` reads exactly as `literal`.
pub fn reads_as(text: &String, literal: &str) -> (same: bool)
    ensures
        same == (text@ == literal@),
{
    let other = String::from_str(literal);
    *text == other
}

/// The characters of `text`, in order.
pub fn chars_of(text: &str) -> (chars: Vec<char>)
    ensures
        chars@ == text@,
{
    let mut chars: Vec<char> = Vec::new();
    let source = text.chars();
    for c in iter: source
        invariant
            iter.seq() == text@,
            chars@ == iter.seq().take(iter.index() as int),
    {
        chars.push(c);
    }
    chars
}

} // verus!
