use hexx::frame::{footer_rule, header_rule, header_titles};
use hexx::message::{
    error_text, invalid_end_text, invalid_start_text, missing_value_text, unknown_option_text,
    usage_text,
};

#[test]
fn the_frame_lines() {
    assert_eq!(
        header_rule(),
        "┌────────┬─────────────────────────┬─────────────────────────┬─────────────────┐"
    );
    assert_eq!(
        header_titles(),
        "│  hexx  │  0  1  2  3  4  5  6  7 ┆  8  9  A  B  C  D  E  F │      Ascii      │"
    );
    assert_eq!(
        footer_rule(),
        "└────────┴─────────────────────────┴─────────────────────────┴────────┴────────┘"
    );
}

#[test]
fn the_frame_lines_are_eighty_wide() {
    assert_eq!(header_rule().chars().count(), 80);
    assert_eq!(header_titles().chars().count(), 80);
    assert_eq!(footer_rule().chars().count(), 80);
}

#[test]
fn the_titles_are_built_from_the_digits() {
    let mut titles = format!("{}  {}  {0}", "│", "hexx");
    for digit in "0123456789ABCDEF".chars() {
        titles.push_str(&format!("  {}", digit));
        if digit == '7' {
            titles.push_str(" ┆");
        }
    }
    titles.push_str(&format!(" {:7}{:11}{0}", "│", "Ascii"));
    assert_eq!(header_titles(), titles);
}

#[test]
fn the_usage() {
    let text = usage_text();
    let lines: Vec<&str> = text.lines().collect();
    assert_eq!(
        lines,
        vec![
            "A simple hex viewer written in Rust",
            "Usage: hexx [options] filename",
            "",
            "Options:",
            "-s, --start:",
            "        Specify the START index, processing of the file will start from here",
            "",
            "-e, --end:",
            "        Specify the END index, processing of the file will end here",
            "",
            "-h, --help:",
            "        Print this help message",
            "",
            "Examples:",
            "        hexx -s 100 filename.bin",
            "        hexx --start 10 --end 0x40 filename.bin",
        ]
    );
    assert!(!text.ends_with('\n'));
}

#[test]
fn the_error_lines() {
    assert_eq!(error_text("Failed while reading file contents"),
        "\x1b[31mERROR: Failed while reading file contents\x1b[0m");
    assert_eq!(error_text(""), "\x1b[31mERROR: \x1b[0m");
    assert_eq!(invalid_start_text("abc"),
        "\x1b[31mERROR: Invalid argument given for start: abc\x1b[0m");
    assert_eq!(invalid_end_text("0xzz"),
        "\x1b[31mERROR: Invalid argument given for end: 0xzz\x1b[0m");
}

#[test]
fn the_notes() {
    assert_eq!(unknown_option_text("-x"), "Invalid option -x");
    assert_eq!(missing_value_text(), "Error while parsing commandline argument");
}
