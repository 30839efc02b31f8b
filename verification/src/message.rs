//! The texts shown in place of a table: the usage, and what went wrong.

use vstd::prelude::*;
use crate::category::{escape_of, reset_escape, Color};

verus! {

/// The usage text.
pub open spec fn usage() -> Seq<char> {
    "A simple hex viewer written in Rust\n\
Usage: hexx [options] filename\n\
\n\
Options:\n\
-s, --start:\n        Specify the START index, processing of the file will start from here\n\
\n\
-e, --end:\n        Specify the END index, processing of the file will end here\n\
\n\
-h, --help:\n        Print this help message\n\
\n\
Examples:\n        hexx -s 100 filename.bin\n        hexx --start 10 --end 0x40 filename.bin"@
}

/// An error line: the message behind `ERROR: `, in red.
pub open spec fn error_line(message: Seq<char>) -> Seq<char> {
    escape_of(Color::Red) + "ERROR: "@ + message + reset_escape()
}

/// The note on an argument that was taken for an option and not known.
pub open spec fn unknown_option_line(arg: Seq<char>) -> Seq<char> {
    "Invalid option "@ + arg
}

/// The error line on a start value that is no number.
pub open spec fn invalid_start_line(value: Seq<char>) -> Seq<char> {
    error_line("Invalid argument given for start: "@ + value)
}

/// The error line on an end value that is no number.
pub open spec fn invalid_end_line(value: Seq<char>) -> Seq<char> {
    error_line("Invalid argument given for end: "@ + value)
}

/// The note on an option whose value is missing.
pub open spec fn missing_value_line() -> Seq<char> {
    "Error while parsing commandline argument"@
}

/// The usage text.
pub fn usage_text() -> (text: String)
    ensures
        text@ == usage(),
{
    String::from_str(
        "A simple hex viewer written in Rust\n\
Usage: hexx [options] filename\n\
\n\
Options:\n\
-s, --start:\n        Specify the START index, processing of the file will start from here\n\
\n\
-e, --end:\n        Specify the END index, processing of the file will end here\n\
\n\
-h, --help:\n        Print this help message\n\
\n\
Examples:\n        hexx -s 100 filename.bin\n        hexx --start 10 --end 0x40 filename.bin",
    )
}

/// The error line for `message`.
pub fn error_text(message: &str) -> (text: String)
    ensures
        text@ == error_line(message@),
{
    let mut text = String::new();
    text.append(Color::Red.escape());
    text.append("ERROR: ");
    text.append(message);
    text.append("\x1b[0m");
    assert(text@ =~= error_line(message@));
    text
}

/// The note on the unknown option `arg`.
pub fn unknown_option_text(arg: &str) -> (text: String)
    ensures
        text@ == unknown_option_line(arg@),
{
    String::from_str("Invalid option ").concat(arg)
}

/// The error line on the start value `value`.
pub fn invalid_start_text(value: &str) -> (text: String)
    ensures
        text@ == invalid_start_line(value@),
{
    let message = String::from_str("Invalid argument given for start: ").concat(value);
    error_text(message.as_str())
}

/// The error line on the end value `value`.
pub fn invalid_end_text(value: &str) -> (text: String)
    ensures
        text@ == invalid_end_line(value@),
{
    let message = String::from_str("Invalid argument given for end: ").concat(value);
    error_text(message.as_str())
}

/// The note on an option whose value is missing.
pub fn missing_value_text() -> (text: String)
    ensures
        text@ == missing_value_line(),
{
    String::from_str("Error while parsing commandline argument")
}

} // verus!
