//! Byte categories: the semantic class of a byte value, which fixes the
//! colour of its hex cell and the glyph of its ASCII cell.

use vstd::prelude::*;

verus! {

/// The class a byte value falls in.
#[derive(Clone, Copy, Debug, PartialEq, Eq, Structural)]
pub enum ByteCategory {
    /// The value 0.
    Zero,
    /// Values 1 to 32: control characters and the space.
    Control,
    /// Values 48 to 57: the ASCII digits.
    Digit,
    /// Values 33 to 47 and 58 to 126: the other printable ASCII characters.
    Printable,
    /// Values 127 to 255: DEL and everything outside ASCII.
    Extended,
}

/// A terminal colour of the table.
#[derive(Clone, Copy, Debug, PartialEq, Eq, Structural)]
pub enum Color {
    Red,
    Green,
    Yellow,
    Blue,
    Magenta,
    /// The accent colour of the offset column.
    Cyan,
}

/// The category of `byte`, by the first rule that matches.
pub open spec fn category_of(byte: u8) -> ByteCategory {
    if byte == 0 {
        ByteCategory::Zero
    } else if 1 <= byte <= 32 {
        ByteCategory::Control
    } else if 48 <= byte <= 57 {
        ByteCategory::Digit
    } else if 127 <= byte <= 255 {
        ByteCategory::Extended
    } else {
        ByteCategory::Printable
    }
}

/// The colour a category is shown in.
pub open spec fn color_of(category: ByteCategory) -> Color {
    match category {
        ByteCategory::Zero => Color::Red,
        ByteCategory::Control => Color::Yellow,
        ByteCategory::Digit => Color::Magenta,
        ByteCategory::Printable => Color::Green,
        ByteCategory::Extended => Color::Blue,
    }
}

/// The escape sequence that switches the terminal to `color`.
pub open spec fn escape_of(color: Color) -> Seq<char> {
    match color {
        Color::Red => "\x1b[31m"@,
        Color::Green => "\x1b[32m"@,
        Color::Yellow => "\x1b[33m"@,
        Color::Blue => "\x1b[34m"@,
        Color::Magenta => "\x1b[35m"@,
        Color::Cyan => "\x1b[36m"@,
    }
}

/// The escape sequence that switches colouring off again.
pub open spec fn reset_escape() -> Seq<char> {
    "\x1b[0m"@
}

/// The character that stands for `byte` in the ASCII column: the byte itself
/// where it is a digit or another printable character, else the glyph of its
/// category.
pub open spec fn glyph_of(byte: u8) -> char {
    match category_of(byte) {
        ByteCategory::Zero => '\u{22c4}',
        ByteCategory::Control => '\u{d7}',
        ByteCategory::Extended => '\u{2022}',
        ByteCategory::Digit | ByteCategory::Printable => byte as char,
    }
}

/// Classifies one byte.
pub fn classify(byte: u8) -> (category: ByteCategory)
    ensures
        category == category_of(byte),
{
    match byte {
        0 => ByteCategory::Zero,
        1..=32 => ByteCategory::Control,
        48..=57 => ByteCategory::Digit,
        127..=255 => ByteCategory::Extended,
        _ => ByteCategory::Printable,
    }
}

impl ByteCategory {
    /// The colour this category is shown in.
    pub fn color(self) -> (color: Color)
        ensures
            color == color_of(self),
    {
        match self {
            ByteCategory::Zero => Color::Red,
            ByteCategory::Control => Color::Yellow,
            ByteCategory::Digit => Color::Magenta,
            ByteCategory::Printable => Color::Green,
            ByteCategory::Extended => Color::Blue,
        }
    }
}

impl Color {
    /// The escape sequence that switches the terminal to this colour.
    pub fn escape(self) -> (code: &'static str)
        ensures
            code@ == escape_of(self),
    {
        match self {
            Color::Red => "\x1b[31m",
            Color::Green => "\x1b[32m",
            Color::Yellow => "\x1b[33m",
            Color::Blue => "\x1b[34m",
            Color::Magenta => "\x1b[35m",
            Color::Cyan => "\x1b[36m",
        }
    }
}

/// The character shown for `byte` in the ASCII column.
pub fn glyph(byte: u8) -> (c: char)
    ensures
        c == glyph_of(byte),
{
    match classify(byte) {
        ByteCategory::Zero => '\u{22c4}',
        ByteCategory::Control => '\u{d7}',
        ByteCategory::Extended => '\u{2022}',
        ByteCategory::Digit | ByteCategory::Printable => byte as char,
    }
}

/// The five categories split the byte values among them: every byte lies in
/// the value range of exactly one category, and that is the one `category_of`
/// names.
pub proof fn lemma_categories_partition(byte: u8)
    ensures
        category_of(byte) == ByteCategory::Zero <==> byte == 0,
        category_of(byte) == ByteCategory::Control <==> 1 <= byte <= 32,
        category_of(byte) == ByteCategory::Digit <==> 48 <= byte <= 57,
        category_of(byte) == ByteCategory::Printable <==> (33 <= byte <= 47 || 58 <= byte <= 126),
        category_of(byte) == ByteCategory::Extended <==> 127 <= byte <= 255,
{
}

} // verus!
