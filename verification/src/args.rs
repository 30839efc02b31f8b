//! Reading the command line: the options that set the window, and the name
//! of the file, which is always the last argument.

use vstd::prelude::*;
use crate::number::{parse_number, parsed};
use crate::text::reads_as;

verus! {

/// What the command line asks for.
#[derive(Debug)]
pub struct FileInfo {
    /// The file to show.
    pub filename: String,
    /// The requested first offset; zero where none was given.
    pub start: usize,
    /// The requested end offset; zero, for "to the end", where none was given.
    pub end: usize,
}

/// What the command line asks for, as plain values.
pub struct Request {
    pub filename: Seq<char>,
    pub start: usize,
    pub end: usize,
}

impl View for FileInfo {
    type V = Request;

    open spec fn view(&self) -> Request {
        Request { filename: self.filename@, start: self.start, end: self.end }
    }
}

/// Why a command line names no file to show.
#[derive(Clone, Copy, Debug, PartialEq, Eq, Structural)]
pub enum ArgError {
    /// Nothing follows the program's name.
    MissingFilename,
    /// The help option was given.
    HelpRequested,
    /// An option that takes a value stands last before the filename, so that
    /// nothing is left for its value.
    MissingValue,
    /// The value of the start option, at this index, is no number that fits
    /// the machine word.
    InvalidStart(usize),
    /// The value of the end option, at this index, is no number that fits
    /// the machine word.
    InvalidEnd(usize),
}

/// The outcome of reading a command line.
#[derive(Debug)]
pub struct Parsed {
    /// The indices of the arguments that were taken for options and not
    /// known, in the order in which they were met. Each is skipped.
    pub unknown: Vec<usize>,
    /// The request, or the reason there is none.
    pub result: Result<FileInfo, ArgError>,
}

/// The outcome of reading a command line, as plain values.
pub struct Scan {
    pub unknown: Seq<usize>,
    pub result: Result<Request, ArgError>,
}

/// Whether `arg` is the option that sets the start.
pub open spec fn is_start_option(arg: Seq<char>) -> bool {
    arg == "-s"@ || arg == "--start"@
}

/// Whether `arg` is the option that sets the end.
pub open spec fn is_end_option(arg: Seq<char>) -> bool {
    arg == "-e"@ || arg == "--end"@
}

/// Whether `arg` is the option that asks for help.
pub open spec fn is_help_option(arg: Seq<char>) -> bool {
    arg == "-h"@ || arg == "--help"@
}

/// Reads the options from index `at` on, with the window and the unknown
/// options gathered so far. Every argument before the last is an option or
/// the value of the option before it; the last one is the filename, whatever
/// it looks like.
pub open spec fn scan_from(
    args: Seq<Seq<char>>,
    at: int,
    start: usize,
    end: usize,
    unknown: Seq<usize>,
) -> Scan
    decreases args.len() - at,
{
    if at < 0 || at >= args.len() - 1 {
        Scan {
            unknown,
            result: Ok(Request { filename: args.last(), start, end }),
        }
    } else if is_start_option(args[at]) {
        if at + 1 >= args.len() - 1 {
            Scan { unknown, result: Err(ArgError::MissingValue) }
        } else {
            match parsed(args[at + 1]) {
                Some(value) => scan_from(args, at + 2, value, end, unknown),
                None => Scan { unknown, result: Err(ArgError::InvalidStart((at + 1) as usize)) },
            }
        }
    } else if is_end_option(args[at]) {
        if at + 1 >= args.len() - 1 {
            Scan { unknown, result: Err(ArgError::MissingValue) }
        } else {
            match parsed(args[at + 1]) {
                Some(value) => scan_from(args, at + 2, start, value, unknown),
                None => Scan { unknown, result: Err(ArgError::InvalidEnd((at + 1) as usize)) },
            }
        }
    } else if is_help_option(args[at]) {
        Scan { unknown, result: Err(ArgError::HelpRequested) }
    } else {
        scan_from(args, at + 1, start, end, unknown.push(at as usize))
    }
}

/// The outcome of reading the command line `args`, whose first entry is the
/// program's name.
pub open spec fn scan(args: Seq<Seq<char>>) -> Scan {
    if args.len() <= 1 {
        Scan { unknown: Seq::empty(), result: Err(ArgError::MissingFilename) }
    } else {
        scan_from(args, 1, 0, 0, Seq::empty())
    }
}

/// Whether an executable outcome is the one the plain values describe.
pub open spec fn agrees(parsed: Parsed, scan: Scan) -> bool {
    &&& parsed.unknown@ == scan.unknown
    &&& match (parsed.result, scan.result) {
        (Ok(info), Ok(request)) => info@ == request,
        (Err(error), Err(expected)) => error == expected,
        _ => false,
    }
}

/// Reads a command line, the program's name first.
///
/// The last argument is the filename. Before it, `-s` or `--start` and `-e`
/// or `--end` each take the next argument as a number, `-h` or `--help` ends
/// the reading, and anything else is noted as unknown and skipped. A later
/// value for the same option replaces an earlier one.
pub fn parse_arguments(argv: &Vec<String>) -> (parsed: Parsed)
    ensures
        agrees(parsed, scan(argv.deep_view())),
{
    let ghost args = argv.deep_view();
    let argc = argv.len();
    let mut unknown: Vec<usize> = Vec::new();
    if argc <= 1 {
        return Parsed { unknown, result: Err(ArgError::MissingFilename) };
    }
    let mut start: usize = 0;
    let mut end: usize = 0;
    let mut at: usize = 1;
    while at < argc - 1
        invariant
            1 <= at <= argc - 1,
            argc == argv@.len(),
            args == argv.deep_view(),
            args.len() == argc,
            scan(args) == scan_from(args, at as int, start, end, unknown@),
        decreases argc - at,
    {
        assert(args[at as int] == argv@[at as int]@);
        assert(args[at + 1] == argv@[at + 1]@);
        let is_start = reads_as(&argv[at], "-s") || reads_as(&argv[at], "--start");
        let is_end = reads_as(&argv[at], "-e") || reads_as(&argv[at], "--end");
        if is_start || is_end {
            at += 1;
            if at >= argc - 1 {
                return Parsed { unknown, result: Err(ArgError::MissingValue) };
            }
            match parse_number(argv[at].as_str()) {
                Some(value) => {
                    if is_start {
                        start = value;
                    } else {
                        end = value;
                    }
                },
                None => {
                    let error = if is_start {
                        ArgError::InvalidStart(at)
                    } else {
                        ArgError::InvalidEnd(at)
                    };
                    return Parsed { unknown, result: Err(error) };
                },
            }
        } else if reads_as(&argv[at], "-h") || reads_as(&argv[at], "--help") {
            return Parsed { unknown, result: Err(ArgError::HelpRequested) };
        } else {
            unknown.push(at);
        }
        at += 1;
    }
    assert(args.last() == argv@[argc - 1]@);
    let filename = argv[argc - 1].clone();
    Parsed { unknown, result: Ok(FileInfo { filename, start, end }) }
}

} // verus!
