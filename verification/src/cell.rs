//! The coloured text of one byte: its hex cell and its ASCII cell.

use vstd::prelude::*;
use crate::category::{category_of, classify, color_of, escape_of, glyph, glyph_of, reset_escape};
use crate::hex::{hex_digit, hex_numeral, lemma_byte_numeral, push_hex};

verus! {

/// The hex cell of `byte`: two lowercase hex digits in the colour of the
/// byte's category, followed by the reset.
pub open spec fn hex_text(byte: u8) -> Seq<char> {
    escape_of(color_of(category_of(byte))) + hex_numeral(byte as nat, 2) + reset_escape()
}

/// The ASCII cell of `byte`: its glyph in the colour of the byte's category,
/// followed by the reset.
pub open spec fn char_text(byte: u8) -> Seq<char> {
    escape_of(color_of(category_of(byte))).push(glyph_of(byte)) + reset_escape()
}

/// A hex cell is an escape of five characters, two hex digits and the reset
/// of four; an ASCII cell is the same escape, one glyph and the reset.
pub proof fn lemma_cell_shape(byte: u8)
    ensures
        hex_text(byte) == escape_of(color_of(category_of(byte))) + seq![
            hex_digit(byte as nat / 16),
            hex_digit(byte as nat % 16),
        ] + reset_escape(),
        hex_text(byte).len() == 11,
        char_text(byte).len() == 10,
{
    lemma_byte_numeral(byte);
    reveal_strlit("\x1b[31m");
    reveal_strlit("\x1b[32m");
    reveal_strlit("\x1b[33m");
    reveal_strlit("\x1b[34m");
    reveal_strlit("\x1b[35m");
    reveal_strlit("\x1b[0m");
}

/// Appends the hex cell of `byte` to `text`.
pub fn push_hex_text(text: &mut String, byte: u8)
    ensures
        final(text)@ == old(text)@ + hex_text(byte),
{
    text.append(classify(byte).color().escape());
    push_hex(text, byte as usize, 2);
    text.append("\x1b[0m");
    assert(text@ =~= old(text)@ + hex_text(byte));
}

/// Appends the ASCII cell of `byte` to `text`.
pub fn push_char_text(text: &mut String, byte: u8)
    ensures
        final(text)@ == old(text)@ + char_text(byte),
{
    text.append(classify(byte).color().escape());
    text.push(glyph(byte));
    text.append("\x1b[0m");
    assert(text@ =~= old(text)@ + char_text(byte));
}

/// The coloured two-digit hex text of `elem`.
pub fn color_code_hex(elem: u8) -> (text: String)
    ensures
        text@ == hex_text(elem),
{
    let mut text = String::new();
    push_hex_text(&mut text, elem);
    assert(text@ =~= hex_text(elem));
    text
}

/// The coloured ASCII-column text of `elem`.
pub fn color_code_char(elem: u8) -> (text: String)
    ensures
        text@ == char_text(elem),
{
    let mut text = String::new();
    push_char_text(&mut text, elem);
    assert(text@ =~= char_text(elem));
    text
}

} // verus!
