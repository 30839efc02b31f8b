//! The fixed lines around the rows: the top of the table with its column
//! titles, and the bottom rule.

use vstd::prelude::*;

verus! {

/// The rule that opens the table.
pub open spec fn header_rule_text() -> Seq<char> {
    "┌────────┬─────────────────────────┬─────────────────────────┬─────────────────┐"@
}

/// The line of column titles: the program's name over the offsets, one hex
/// digit over each hex column, and `Ascii` over the ASCII columns.
pub open spec fn header_titles_text() -> Seq<char> {
    "│  hexx  │  0  1  2  3  4  5  6  7 ┆  8  9  A  B  C  D  E  F │      Ascii      │"@
}

/// The rule that closes the table.
pub open spec fn footer_rule_text() -> Seq<char> {
    "└────────┴─────────────────────────┴─────────────────────────┴────────┴────────┘"@
}

/// The rule that opens the table.
pub fn header_rule() -> (line: String)
    ensures
        line@ == header_rule_text(),
{
    String::from_str(
        "┌────────┬─────────────────────────┬─────────────────────────┬─────────────────┐",
    )
}

/// The line of column titles.
pub fn header_titles() -> (line: String)
    ensures
        line@ == header_titles_text(),
{
    String::from_str(
        "│  hexx  │  0  1  2  3  4  5  6  7 ┆  8  9  A  B  C  D  E  F │      Ascii      │",
    )
}

/// The rule that closes the table.
pub fn footer_rule() -> (line: String)
    ensures
        line@ == footer_rule_text(),
{
    String::from_str(
        "└────────┴─────────────────────────┴─────────────────────────┴────────┴────────┘",
    )
}

} // verus!
