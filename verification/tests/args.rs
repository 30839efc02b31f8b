use hexx::args::{parse_arguments, ArgError, Parsed};

fn line(args: &[&str]) -> Vec<String> {
    args.iter().map(|arg| arg.to_string()).collect()
}

fn request(parsed: &Parsed) -> (String, usize, usize) {
    match &parsed.result {
        Ok(info) => (info.filename.clone(), info.start, info.end),
        Err(error) => panic!("no request: {:?}", error),
    }
}

fn failure(parsed: &Parsed) -> ArgError {
    match &parsed.result {
        Ok(info) => panic!("a request: {:?}", info),
        Err(error) => *error,
    }
}

#[test]
fn a_filename_alone() {
    let parsed = parse_arguments(&line(&["hexx", "file.bin"]));
    assert_eq!(request(&parsed), ("file.bin".to_string(), 0, 0));
    assert!(parsed.unknown.is_empty());
}

#[test]
fn start_and_end_in_both_spellings() {
    let parsed = parse_arguments(&line(&["hexx", "-s", "100", "file.bin"]));
    assert_eq!(request(&parsed), ("file.bin".to_string(), 100, 0));
    let parsed = parse_arguments(&line(&["hexx", "--start", "10", "--end", "0x40", "file.bin"]));
    assert_eq!(request(&parsed), ("file.bin".to_string(), 10, 64));
    let parsed = parse_arguments(&line(&["hexx", "-e", "32", "-s", "0x10", "f"]));
    assert_eq!(request(&parsed), ("f".to_string(), 16, 32));
    assert!(parsed.unknown.is_empty());
}

#[test]
fn a_later_value_replaces_an_earlier_one() {
    let parsed = parse_arguments(&line(&["hexx", "-s", "1", "--start", "2", "-e", "9", "-e", "8", "f"]));
    assert_eq!(request(&parsed), ("f".to_string(), 2, 8));
}

#[test]
fn nothing_after_the_name_of_the_program() {
    let parsed = parse_arguments(&line(&["hexx"]));
    assert_eq!(failure(&parsed), ArgError::MissingFilename);
    let parsed = parse_arguments(&line(&[]));
    assert_eq!(failure(&parsed), ArgError::MissingFilename);
    assert!(parsed.unknown.is_empty());
}

#[test]
fn help_before_the_filename() {
    let parsed = parse_arguments(&line(&["hexx", "-h", "file.bin"]));
    assert_eq!(failure(&parsed), ArgError::HelpRequested);
    let parsed = parse_arguments(&line(&["hexx", "-s", "1", "--help", "file.bin"]));
    assert_eq!(failure(&parsed), ArgError::HelpRequested);
}

#[test]
fn the_last_argument_is_the_filename_whatever_it_is() {
    let parsed = parse_arguments(&line(&["hexx", "-h"]));
    assert_eq!(request(&parsed), ("-h".to_string(), 0, 0));
    let parsed = parse_arguments(&line(&["hexx", "--start"]));
    assert_eq!(request(&parsed), ("--start".to_string(), 0, 0));
}

#[test]
fn an_option_without_its_value() {
    let parsed = parse_arguments(&line(&["hexx", "-s", "file.bin"]));
    assert_eq!(failure(&parsed), ArgError::MissingValue);
    let parsed = parse_arguments(&line(&["hexx", "-s", "4", "--end", "file.bin"]));
    assert_eq!(failure(&parsed), ArgError::MissingValue);
}

#[test]
fn a_value_that_is_no_number() {
    let parsed = parse_arguments(&line(&["hexx", "-s", "abc", "file.bin"]));
    assert_eq!(failure(&parsed), ArgError::InvalidStart(2));
    let parsed = parse_arguments(&line(&["hexx", "-s", "1", "-e", "0xzz", "file.bin"]));
    assert_eq!(failure(&parsed), ArgError::InvalidEnd(4));
    let parsed = parse_arguments(&line(&["hexx", "--end", "18446744073709551616", "file.bin"]));
    assert_eq!(failure(&parsed), ArgError::InvalidEnd(2));
    let parsed = parse_arguments(&line(&["hexx", "-s", "0x0x10", "file.bin"]));
    assert_eq!(failure(&parsed), ArgError::InvalidStart(2));
    let parsed = parse_arguments(&line(&["hexx", "-s", "0x+1f", "file.bin"]));
    assert_eq!(failure(&parsed), ArgError::InvalidStart(2));
    let parsed = parse_arguments(&line(&["hexx", "-e", "+5", "file.bin"]));
    assert_eq!(failure(&parsed), ArgError::InvalidEnd(2));
    let parsed = parse_arguments(&line(&["hexx", "-e", " 0x10", "file.bin"]));
    assert_eq!(failure(&parsed), ArgError::InvalidEnd(2));
    let parsed = parse_arguments(&line(&["hexx", "-s", "", "file.bin"]));
    assert_eq!(failure(&parsed), ArgError::InvalidStart(2));
    let parsed = parse_arguments(&line(&["hexx", "--start", "-e", "file.bin"]));
    assert_eq!(failure(&parsed), ArgError::InvalidStart(2));
}

#[test]
fn unknown_options_are_noted_and_skipped() {
    let parsed = parse_arguments(&line(&["hexx", "-x", "-s", "3", "what", "file.bin"]));
    assert_eq!(request(&parsed), ("file.bin".to_string(), 3, 0));
    assert_eq!(parsed.unknown, vec![1, 4]);
}

#[test]
fn unknown_options_before_a_failure_are_kept() {
    let parsed = parse_arguments(&line(&["hexx", "-x", "-y", "-s", "no", "-z", "file.bin"]));
    assert_eq!(failure(&parsed), ArgError::InvalidStart(4));
    assert_eq!(parsed.unknown, vec![1, 2]);
    let parsed = parse_arguments(&line(&["hexx", "10", "-h", "-q", "file.bin"]));
    assert_eq!(failure(&parsed), ArgError::HelpRequested);
    assert_eq!(parsed.unknown, vec![1]);
}

#[test]
fn options_are_matched_exactly() {
    let parsed = parse_arguments(&line(&["hexx", "-S", "--Start", "-start", " -s", "f"]));
    assert_eq!(request(&parsed), ("f".to_string(), 0, 0));
    assert_eq!(parsed.unknown, vec![1, 2, 3, 4]);
}

#[test]
fn the_largest_offset_is_a_number() {
    let parsed = parse_arguments(&line(&["hexx", "--end", "18446744073709551615", "file.bin"]));
    assert_eq!(request(&parsed), ("file.bin".to_string(), 0, usize::MAX));
    let parsed = parse_arguments(&line(&["hexx", "-s", "0xffffffffffffffff", "file.bin"]));
    assert_eq!(request(&parsed), ("file.bin".to_string(), usize::MAX, 0));
}
