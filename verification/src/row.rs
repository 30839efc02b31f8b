//! Rendering the rows of the table: an offset column, sixteen hex cells and
//! sixteen ASCII cells per row, with blank cells outside the window.

use vstd::prelude::*;
use crate::category::{escape_of, reset_escape, Color};
use crate::cell::{char_text, hex_text, push_char_text, push_hex_text};
use crate::hex::{hex_numeral, lemma_offset_numeral_len, push_hex};
use crate::range::{row_count, row_offset, AlignedRange};

verus! {

/// Whether the cell at `offset` shows a byte: the offset lies inside the
/// window, and the buffer has a byte there.
pub open spec fn shown(buffer_len: nat, range: AlignedRange, offset: int) -> bool {
    range.contains(offset) && offset < buffer_len
}

/// The hex cell at `offset`: a space and the coloured hex text of the byte
/// where one is shown, else three spaces.
pub open spec fn hex_cell(buffer: Seq<u8>, range: AlignedRange, offset: int) -> Seq<char> {
    if shown(buffer.len(), range, offset) {
        " "@ + hex_text(buffer[offset])
    } else {
        "   "@
    }
}

/// The ASCII cell at `offset`: the coloured glyph of the byte where one is
/// shown, else one space.
pub open spec fn ascii_cell(buffer: Seq<u8>, range: AlignedRange, offset: int) -> Seq<char> {
    if shown(buffer.len(), range, offset) {
        char_text(buffer[offset])
    } else {
        " "@
    }
}

/// The first `count` hex cells of the row at `row`, with the separator that
/// follows the eighth.
pub open spec fn hex_cells(buffer: Seq<u8>, range: AlignedRange, row: int, count: nat) -> Seq<
    char,
>
    decreases count,
{
    if count == 0 {
        Seq::empty()
    } else {
        hex_cells(buffer, range, row, (count - 1) as nat) + hex_cell(
            buffer,
            range,
            row + count - 1,
        ) + if count == 8 {
            " \u{2506}"@
        } else {
            Seq::empty()
        }
    }
}

/// The first `count` ASCII cells of the row at `row`, with the separator that
/// follows the eighth.
pub open spec fn ascii_cells(buffer: Seq<u8>, range: AlignedRange, row: int, count: nat) -> Seq<
    char,
>
    decreases count,
{
    if count == 0 {
        Seq::empty()
    } else {
        ascii_cells(buffer, range, row, (count - 1) as nat) + ascii_cell(
            buffer,
            range,
            row + count - 1,
        ) + if count == 8 {
            "\u{2506}"@
        } else {
            Seq::empty()
        }
    }
}

/// The offset column of the row at `row`: between two borders, the offset as
/// a lowercase hex numeral of at least eight digits in the accent colour.
pub open spec fn offset_column(row: int) -> Seq<char> {
    "\u{2502}"@ + escape_of(Color::Cyan) + hex_numeral(row as nat, 8) + reset_escape()
        + "\u{2502}"@
}

/// The text of the row that begins at offset `row`: the offset column, the
/// sixteen hex cells, a border, the sixteen ASCII cells and the closing border.
pub open spec fn row_text(buffer: Seq<u8>, range: AlignedRange, row: int) -> Seq<char> {
    offset_column(row) + hex_cells(buffer, range, row, 16) + " \u{2502}"@ + ascii_cells(
        buffer,
        range,
        row,
        16,
    ) + "\u{2502}"@
}

/// The rows of a range over a buffer, first row first.
pub open spec fn rendered_rows(buffer: Seq<u8>, range: AlignedRange) -> Seq<Seq<char>> {
    Seq::new(row_count(range), |index: int| row_text(buffer, range, row_offset(range, index)))
}

/// Whether column `column` of the row at `row` shows a byte.
fn cell_shown(buffer_len: usize, range: &AlignedRange, row: usize, column: usize) -> (yes: bool)
    ensures
        yes == shown(buffer_len as nat, *range, row + column),
        yes ==> row + column < buffer_len,
{
    let limit: usize = if range.end < buffer_len {
        range.end
    } else {
        buffer_len
    };
    row < limit && column < limit - row && (row >= range.start || column >= range.start - row)
}

/// Renders the row that begins at offset `row`, whether or not the range has
/// such a row: cells outside the window come out blank.
pub fn render_row_at(buffer: &[u8], range: &AlignedRange, row: usize) -> (text: String)
    ensures
        text@ == row_text(buffer@, *range, row as int),
{
    let mut text = String::new();
    text.append("\u{2502}");
    text.append(Color::Cyan.escape());
    push_hex(&mut text, row, 8);
    text.append("\x1b[0m");
    text.append("\u{2502}");
    assert(text@ =~= offset_column(row as int));
    let mut column: usize = 0;
    while column < 16
        invariant
            column <= 16,
            text@ == offset_column(row as int) + hex_cells(
                buffer@,
                *range,
                row as int,
                column as nat,
            ),
        decreases 16 - column,
    {
        if cell_shown(buffer.len(), range, row, column) {
            text.append(" ");
            push_hex_text(&mut text, buffer[row + column]);
        } else {
            text.append("   ");
        }
        if column == 7 {
            text.append(" \u{2506}");
        }
        column += 1;
        assert(text@ =~= offset_column(row as int) + hex_cells(
            buffer@,
            *range,
            row as int,
            column as nat,
        ));
    }
    text.append(" \u{2502}");
    let ghost hex_part = text@;
    let mut column: usize = 0;
    while column < 16
        invariant
            column <= 16,
            text@ == hex_part + ascii_cells(buffer@, *range, row as int, column as nat),
        decreases 16 - column,
    {
        if cell_shown(buffer.len(), range, row, column) {
            push_char_text(&mut text, buffer[row + column]);
        } else {
            text.append(" ");
        }
        if column == 7 {
            text.append("\u{2506}");
        }
        column += 1;
        assert(text@ =~= hex_part + ascii_cells(buffer@, *range, row as int, column as nat));
    }
    text.append("\u{2502}");
    assert(text@ =~= row_text(buffer@, *range, row as int));
    text
}

/// Renders row `index` of the range, counting from zero; `None` when the
/// range has no such row.
pub fn render_row(buffer: &[u8], range: &AlignedRange, index: usize) -> (row: Option<String>)
    ensures
        index < row_count(*range) ==> row.is_some() && row.unwrap()@ == rendered_rows(
            buffer@,
            *range,
        )[index as int],
        index >= row_count(*range) ==> row.is_none(),
{
    if index < range.rows() {
        Some(render_row_at(buffer, range, range.aligned_start + 16 * index))
    } else {
        None
    }
}

/// Renders every row of the range, first row first.
pub fn render_rows(buffer: &[u8], range: &AlignedRange) -> (rows: Vec<String>)
    ensures
        rows.deep_view() == rendered_rows(buffer@, *range),
        rows@.len() == row_count(*range),
        forall|index: int|
            0 <= index < rows@.len() ==> (#[trigger] rows@[index])@ == row_text(
                buffer@,
                *range,
                row_offset(*range, index),
            ),
{
    let count = range.rows();
    let mut rows: Vec<String> = Vec::new();
    let mut index: usize = 0;
    while index < count
        invariant
            index <= count,
            count == row_count(*range),
            rows@.len() == index,
            forall|k: int|
                0 <= k < index ==> (#[trigger] rows@[k])@ == row_text(
                    buffer@,
                    *range,
                    row_offset(*range, k),
                ),
        decreases count - index,
    {
        let row = render_row_at(buffer, range, range.aligned_start + 16 * index);
        rows.push(row);
        index += 1;
    }
    assert(rows.deep_view() =~= rendered_rows(buffer@, *range));
    rows
}

/// The offset column of a row below `16^8` holds exactly eight digits, and is
/// nineteen characters long with its borders and escapes.
pub proof fn lemma_offset_column_width(row: int)
    requires
        0 <= row < 0x1_0000_0000,
    ensures
        hex_numeral(row as nat, 8).len() == 8,
        offset_column(row).len() == 19,
{
    lemma_offset_numeral_len(row as nat);
    reveal_strlit("\u{2502}");
    reveal_strlit("\x1b[36m");
    reveal_strlit("\x1b[0m");
}

/// A cell outside the window is blank whatever byte the buffer holds there:
/// three spaces in the hex columns, one in the ASCII columns.
pub proof fn lemma_padding_is_blank(buffer: Seq<u8>, range: AlignedRange, offset: int)
    requires
        offset < range.start || offset >= range.end,
    ensures
        hex_cell(buffer, range, offset) == "   "@,
        ascii_cell(buffer, range, offset) == " "@,
{
}

/// A row depends on the buffer only through the bytes inside the window: two
/// buffers of one length that agree there give the same row.
pub proof fn lemma_row_ignores_outside(
    first: Seq<u8>,
    second: Seq<u8>,
    range: AlignedRange,
    row: int,
)
    requires
        first.len() == second.len(),
        forall|offset: int|
            range.contains(offset) && offset < first.len() ==> first[offset] == second[offset],
    ensures
        row_text(first, range, row) == row_text(second, range, row),
{
    lemma_cells_ignore_outside(first, second, range, row, 16);
}

/// The cells of a row depend on the buffer only through the bytes inside the
/// window.
pub proof fn lemma_cells_ignore_outside(
    first: Seq<u8>,
    second: Seq<u8>,
    range: AlignedRange,
    row: int,
    count: nat,
)
    requires
        first.len() == second.len(),
        forall|offset: int|
            range.contains(offset) && offset < first.len() ==> first[offset] == second[offset],
    ensures
        hex_cells(first, range, row, count) == hex_cells(second, range, row, count),
        ascii_cells(first, range, row, count) == ascii_cells(second, range, row, count),
    decreases count,
{
    if count > 0 {
        lemma_cells_ignore_outside(first, second, range, row, (count - 1) as nat);
    }
}

/// Rendering is a function of the buffer and the range: any two results of
/// `render_rows` for the same buffer and range are the same rows.
pub proof fn lemma_render_is_repeatable(
    first: Vec<String>,
    second: Vec<String>,
    buffer: Seq<u8>,
    range: AlignedRange,
)
    requires
        first.deep_view() == rendered_rows(buffer, range),
        second.deep_view() == rendered_rows(buffer, range),
    ensures
        first.deep_view() == second.deep_view(),
        first@.len() == second@.len(),
        forall|index: int| 0 <= index < first@.len() ==> first@[index]@ == second@[index]@,
{
    assert(first.deep_view().len() == first@.len());
    assert(second.deep_view().len() == second@.len());
    assert forall|index: int| 0 <= index < first@.len() implies first@[index]@ == second@[index]@ by {
        assert(first.deep_view()[index] == first@[index]@);
        assert(second.deep_view()[index] == second@[index]@);
    }
}

} // verus!
