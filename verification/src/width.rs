//! The width of a text on the terminal: the number of its characters that
//! take up a column, which leaves out the colour escapes. With it, the law
//! that every row is as wide as the frame around the table.

use vstd::prelude::*;
use crate::category::{category_of, color_of, escape_of, glyph_of, reset_escape, Color};
use crate::cell::{char_text, hex_text};
use crate::frame::{footer_rule_text, header_rule_text, header_titles_text};
use crate::hex::{hex_digit, hex_numeral, lemma_offset_numeral_len};
use crate::range::AlignedRange;
use crate::row::{ascii_cell, ascii_cells, hex_cell, hex_cells, offset_column, row_text};

verus! {

/// Whether the reader is inside an escape after the character `c`: an escape
/// begins with the character ESC and ends with the next `m`.
pub open spec fn inside_after(inside: bool, c: char) -> bool {
    if inside {
        c != 'm'
    } else {
        c == '\x1b'
    }
}

/// Whether a reader that starts `s` inside an escape, or outside of one, is
/// inside an escape at its end.
pub open spec fn ends_inside(s: Seq<char>, inside: bool) -> bool
    decreases s.len(),
{
    if s.len() == 0 {
        inside
    } else {
        ends_inside(s.drop_first(), inside_after(inside, s[0]))
    }
}

/// The number of characters of `s` that belong to no escape, for a reader
/// that starts inside an escape or outside of one.
pub open spec fn width_from(s: Seq<char>, inside: bool) -> nat
    decreases s.len(),
{
    if s.len() == 0 {
        0
    } else {
        let here: nat = if inside || s[0] == '\x1b' {
            0
        } else {
            1
        };
        here + width_from(s.drop_first(), inside_after(inside, s[0]))
    }
}

/// The number of columns that `s` takes up on the terminal.
pub open spec fn width(s: Seq<char>) -> nat {
    width_from(s, false)
}

/// Whether every escape that begins in `s` also ends in it.
pub open spec fn closed(s: Seq<char>) -> bool {
    !ends_inside(s, false)
}

/// Reading two texts one after the other is reading the second from where
/// the first one ends.
pub proof fn lemma_width_concat(a: Seq<char>, b: Seq<char>, inside: bool)
    ensures
        width_from(a + b, inside) == width_from(a, inside) + width_from(b, ends_inside(a, inside)),
        ends_inside(a + b, inside) == ends_inside(b, ends_inside(a, inside)),
    decreases a.len(),
{
    if a.len() == 0 {
        assert(a + b =~= b);
    } else {
        assert((a + b).drop_first() =~= a.drop_first() + b);
        lemma_width_concat(a.drop_first(), b, inside_after(inside, a[0]));
    }
}

/// The width of two closed texts joined is the sum of their widths, and the
/// join is closed.
pub proof fn lemma_join(a: Seq<char>, b: Seq<char>)
    requires
        closed(a),
        closed(b),
    ensures
        width(a + b) == width(a) + width(b),
        closed(a + b),
{
    lemma_width_concat(a, b, false);
}

/// A text without the character ESC is as wide as it is long.
pub proof fn lemma_plain(s: Seq<char>)
    requires
        forall|i: int| 0 <= i < s.len() ==> s[i] != '\x1b',
    ensures
        width(s) == s.len(),
        closed(s),
    decreases s.len(),
{
    if s.len() > 0 {
        lemma_plain(s.drop_first());
    }
}

/// The rest of an escape, up to its `m`, takes up no column and ends it.
proof fn lemma_escape_rest(s: Seq<char>)
    requires
        s.len() >= 1,
        s.last() == 'm',
        forall|i: int| 0 <= i < s.len() - 1 ==> s[i] != 'm',
    ensures
        width_from(s, true) == 0,
        !ends_inside(s, true),
    decreases s.len(),
{
    let rest = s.drop_first();
    if s.len() > 1 {
        assert(s[0] != 'm');
        assert(rest.last() == s.last());
        assert forall|i: int| 0 <= i < rest.len() - 1 implies rest[i] != 'm' by {
            assert(rest[i] == s[i + 1]);
        }
        lemma_escape_rest(rest);
        assert(inside_after(true, s[0]));
    } else {
        assert(s[0] == 'm');
        assert(!inside_after(true, s[0]));
        assert(rest.len() == 0);
        assert(width_from(rest, false) == 0);
        assert(!ends_inside(rest, false));
    }
}

/// A single escape takes up no column.
pub proof fn lemma_escape(s: Seq<char>)
    requires
        s.len() >= 2,
        s[0] == '\x1b',
        s.last() == 'm',
        forall|i: int| 0 <= i < s.len() - 1 ==> s[i] != 'm',
    ensures
        width(s) == 0,
        closed(s),
{
    lemma_escape_rest(s.drop_first());
    assert(inside_after(false, s[0]));
    assert(width_from(s, false) == width_from(s.drop_first(), true));
    assert(ends_inside(s, false) == ends_inside(s.drop_first(), true));
}

/// The colour escapes and the reset take up no column.
pub proof fn lemma_color_escapes(color: Color)
    ensures
        width(escape_of(color)) == 0,
        closed(escape_of(color)),
        width(reset_escape()) == 0,
        closed(reset_escape()),
{
    reveal_strlit("\x1b[31m");
    reveal_strlit("\x1b[32m");
    reveal_strlit("\x1b[33m");
    reveal_strlit("\x1b[34m");
    reveal_strlit("\x1b[35m");
    reveal_strlit("\x1b[36m");
    reveal_strlit("\x1b[0m");
    lemma_escape(escape_of(color));
    lemma_escape(reset_escape());
}

/// A hex numeral holds hex digits only, so it is as wide as it is long.
pub proof fn lemma_numeral_plain(n: nat, min_len: nat)
    ensures
        forall|i: int|
            0 <= i < hex_numeral(n, min_len).len() ==> hex_numeral(n, min_len)[i] != '\x1b',
        width(hex_numeral(n, min_len)) == hex_numeral(n, min_len).len(),
        closed(hex_numeral(n, min_len)),
    decreases n, min_len,
{
    assert(hex_digit(n % 16) != '\x1b');
    if !(n < 16 && min_len <= 1) {
        lemma_numeral_plain(n / 16, if min_len > 0 { (min_len - 1) as nat } else { 0 });
    }
    lemma_plain(hex_numeral(n, min_len));
}

/// The hex text of a byte is two columns wide, its ASCII text one.
pub proof fn lemma_cell_text_width(byte: u8)
    ensures
        width(hex_text(byte)) == 2,
        closed(hex_text(byte)),
        width(char_text(byte)) == 1,
        closed(char_text(byte)),
{
    let escape = escape_of(color_of(category_of(byte)));
    let digits = hex_numeral(byte as nat, 2);
    lemma_color_escapes(color_of(category_of(byte)));
    lemma_numeral_plain(byte as nat, 2);
    reveal_with_fuel(hex_numeral, 3);
    lemma_join(escape, digits);
    lemma_join(escape + digits, reset_escape());
    let shown = seq![glyph_of(byte)];
    assert(glyph_of(byte) != '\x1b');
    lemma_plain(shown);
    assert(escape.push(glyph_of(byte)) =~= escape + shown);
    lemma_join(escape, shown);
    lemma_join(escape + shown, reset_escape());
}

/// A hex cell is three columns wide and an ASCII cell one, shown or blank.
pub proof fn lemma_cell_width(buffer: Seq<u8>, range: AlignedRange, offset: int)
    ensures
        width(hex_cell(buffer, range, offset)) == 3,
        closed(hex_cell(buffer, range, offset)),
        width(ascii_cell(buffer, range, offset)) == 1,
        closed(ascii_cell(buffer, range, offset)),
{
    reveal_strlit(" ");
    reveal_strlit("   ");
    lemma_plain(" "@);
    lemma_plain("   "@);
    lemma_cell_text_width(buffer[offset]);
    lemma_join(" "@, hex_text(buffer[offset]));
}

/// The first `count` cells of a row take three columns each in the hex part
/// and one each in the ASCII part, besides the separator after the eighth.
pub proof fn lemma_cells_width(buffer: Seq<u8>, range: AlignedRange, row: int, count: nat)
    ensures
        width(hex_cells(buffer, range, row, count)) == 3 * count + if count >= 8 {
            2nat
        } else {
            0nat
        },
        closed(hex_cells(buffer, range, row, count)),
        width(ascii_cells(buffer, range, row, count)) == count + if count >= 8 {
            1nat
        } else {
            0nat
        },
        closed(ascii_cells(buffer, range, row, count)),
    decreases count,
{
    let none = Seq::<char>::empty();
    lemma_plain(none);
    if count > 0 {
        let before = (count - 1) as nat;
        lemma_cells_width(buffer, range, row, before);
        lemma_cell_width(buffer, range, row + count - 1);
        reveal_strlit(" \u{2506}");
        reveal_strlit("\u{2506}");
        lemma_plain(" \u{2506}"@);
        lemma_plain("\u{2506}"@);
        let hex_front = hex_cells(buffer, range, row, before);
        let hex_here = hex_cell(buffer, range, row + count - 1);
        lemma_join(hex_front, hex_here);
        lemma_join(hex_front + hex_here, " \u{2506}"@);
        lemma_join(hex_front + hex_here, none);
        let ascii_front = ascii_cells(buffer, range, row, before);
        let ascii_here = ascii_cell(buffer, range, row + count - 1);
        lemma_join(ascii_front, ascii_here);
        lemma_join(ascii_front + ascii_here, "\u{2506}"@);
        lemma_join(ascii_front + ascii_here, none);
    }
}

/// Every row whose offset has eight hex digits is 80 columns wide, whatever
/// the buffer and the window.
pub proof fn lemma_row_width(buffer: Seq<u8>, range: AlignedRange, row: int)
    requires
        0 <= row < 0x1_0000_0000,
    ensures
        width(row_text(buffer, range, row)) == 80,
        closed(row_text(buffer, range, row)),
{
    let border = "\u{2502}"@;
    let inner = " \u{2502}"@;
    reveal_strlit("\u{2502}");
    reveal_strlit(" \u{2502}");
    lemma_plain(border);
    lemma_plain(inner);
    lemma_color_escapes(Color::Cyan);
    lemma_numeral_plain(row as nat, 8);
    lemma_offset_numeral_len(row as nat);
    let numeral = hex_numeral(row as nat, 8);
    lemma_join(border, escape_of(Color::Cyan));
    lemma_join(border + escape_of(Color::Cyan), numeral);
    lemma_join(border + escape_of(Color::Cyan) + numeral, reset_escape());
    lemma_join(border + escape_of(Color::Cyan) + numeral + reset_escape(), border);
    assert(width(offset_column(row)) == 10);
    lemma_cells_width(buffer, range, row, 16);
    let hex_part = hex_cells(buffer, range, row, 16);
    let ascii_part = ascii_cells(buffer, range, row, 16);
    lemma_join(offset_column(row), hex_part);
    lemma_join(offset_column(row) + hex_part, inner);
    lemma_join(offset_column(row) + hex_part + inner, ascii_part);
    lemma_join(offset_column(row) + hex_part + inner + ascii_part, border);
}

/// The three lines of the frame are 80 columns wide.
pub proof fn lemma_frame_is_row_wide()
    ensures
        width(header_rule_text()) == 80,
        width(header_titles_text()) == 80,
        width(footer_rule_text()) == 80,
{
    reveal_strlit(
        "┌────────┬─────────────────────────┬─────────────────────────┬─────────────────┐",
    );
    reveal_strlit(
        "│  hexx  │  0  1  2  3  4  5  6  7 ┆  8  9  A  B  C  D  E  F │      Ascii      │",
    );
    reveal_strlit(
        "└────────┴─────────────────────────┴─────────────────────────┴────────┴────────┘",
    );
    lemma_plain(header_rule_text());
    lemma_plain(header_titles_text());
    lemma_plain(footer_rule_text());
}

} // verus!
