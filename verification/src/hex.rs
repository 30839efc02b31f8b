//! Lowercase base-16 numerals.

use vstd::prelude::*;

verus! {

/// The lowercase hex digit for a value below 16.
pub open spec fn hex_digit(d: nat) -> char
    recommends
        d < 16,
{
    if d < 10 {
        (48 + d) as char
    } else {
        (87 + d) as char
    }
}

/// The base-16 numeral of `n`, most significant digit first, padded with
/// zeros on the left to at least `width` digits. It is never cut: a number
/// that needs more than `width` digits gets them all.
pub open spec fn hex_numeral(n: nat, width: nat) -> Seq<char>
    decreases n, width,
{
    if n < 16 && width <= 1 {
        seq![hex_digit(n)]
    } else {
        hex_numeral(n / 16, if width > 0 { (width - 1) as nat } else { 0 }).push(hex_digit(n % 16))
    }
}

/// A numeral is never empty and never shorter than the width asked for.
pub proof fn lemma_numeral_min_len(n: nat, width: nat)
    ensures
        hex_numeral(n, width).len() >= 1,
        hex_numeral(n, width).len() >= width,
    decreases n, width,
{
    if !(n < 16 && width <= 1) {
        lemma_numeral_min_len(n / 16, if width > 0 { (width - 1) as nat } else { 0 });
    }
}

/// The numeral of a byte at width two is its two digits, high one first.
pub proof fn lemma_byte_numeral(byte: u8)
    ensures
        hex_numeral(byte as nat, 2) == seq![
            hex_digit(byte as nat / 16),
            hex_digit(byte as nat % 16),
        ],
{
    reveal_with_fuel(hex_numeral, 3);
    assert(hex_numeral(byte as nat, 2) =~= seq![
        hex_digit(byte as nat / 16),
        hex_digit(byte as nat % 16),
    ]);
}

/// A number below `16^8` has exactly eight digits at width eight.
pub proof fn lemma_offset_numeral_len(n: nat)
    requires
        n < 0x1_0000_0000,
    ensures
        hex_numeral(n, 8).len() == 8,
{
    reveal_with_fuel(hex_numeral, 9);
}

/// The executable hex digit.
pub fn hex_digit_char(d: u8) -> (c: char)
    requires
        d < 16,
    ensures
        c == hex_digit(d as nat),
{
    if d < 10 {
        (48 + d) as char
    } else {
        (87 + d) as char
    }
}

/// Appends the numeral of `n`, at least `width` digits wide, to `text`.
pub fn push_hex(text: &mut String, n: usize, width: usize)
    ensures
        final(text)@ == old(text)@ + hex_numeral(n as nat, width as nat),
    decreases n, width,
{
    if n >= 16 || width > 1 {
        push_hex(text, n / 16, if width > 0 { width - 1 } else { 0 });
    }
    text.push(hex_digit_char((n % 16) as u8));
}

} // verus!
