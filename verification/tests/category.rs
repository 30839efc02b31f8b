use hexx::category::{classify, glyph, ByteCategory, Color};
use hexx::cell::{color_code_char, color_code_hex};
use hexx::hex::{hex_digit_char, push_hex};

fn category_by_table(byte: u8) -> ByteCategory {
    if byte == 0 {
        ByteCategory::Zero
    } else if byte <= 32 {
        ByteCategory::Control
    } else if (48..=57).contains(&byte) {
        ByteCategory::Digit
    } else if byte >= 127 {
        ByteCategory::Extended
    } else {
        ByteCategory::Printable
    }
}

fn escape_by_table(category: ByteCategory) -> &'static str {
    match category {
        ByteCategory::Zero => "\x1b[31m",
        ByteCategory::Control => "\x1b[33m",
        ByteCategory::Digit => "\x1b[35m",
        ByteCategory::Extended => "\x1b[34m",
        ByteCategory::Printable => "\x1b[32m",
    }
}

#[test]
fn classify_follows_the_table_for_every_byte() {
    for byte in 0..=255u8 {
        assert_eq!(classify(byte), category_by_table(byte), "byte {}", byte);
    }
}

#[test]
fn classify_boundaries() {
    assert_eq!(classify(0), ByteCategory::Zero);
    assert_eq!(classify(1), ByteCategory::Control);
    assert_eq!(classify(32), ByteCategory::Control);
    assert_eq!(classify(33), ByteCategory::Printable);
    assert_eq!(classify(47), ByteCategory::Printable);
    assert_eq!(classify(48), ByteCategory::Digit);
    assert_eq!(classify(57), ByteCategory::Digit);
    assert_eq!(classify(58), ByteCategory::Printable);
    assert_eq!(classify(126), ByteCategory::Printable);
    assert_eq!(classify(127), ByteCategory::Extended);
    assert_eq!(classify(255), ByteCategory::Extended);
}

#[test]
fn every_category_has_its_count_of_bytes() {
    let mut counts = [0usize; 5];
    for byte in 0..=255u8 {
        let slot = match classify(byte) {
            ByteCategory::Zero => 0,
            ByteCategory::Control => 1,
            ByteCategory::Digit => 2,
            ByteCategory::Printable => 3,
            ByteCategory::Extended => 4,
        };
        counts[slot] += 1;
    }
    assert_eq!(counts, [1, 32, 10, 84, 129]);
}

#[test]
fn categories_have_their_colours() {
    assert_eq!(ByteCategory::Zero.color(), Color::Red);
    assert_eq!(ByteCategory::Control.color(), Color::Yellow);
    assert_eq!(ByteCategory::Digit.color(), Color::Magenta);
    assert_eq!(ByteCategory::Extended.color(), Color::Blue);
    assert_eq!(ByteCategory::Printable.color(), Color::Green);
}

#[test]
fn colours_have_their_escapes() {
    assert_eq!(Color::Red.escape(), "\x1b[31m");
    assert_eq!(Color::Green.escape(), "\x1b[32m");
    assert_eq!(Color::Yellow.escape(), "\x1b[33m");
    assert_eq!(Color::Blue.escape(), "\x1b[34m");
    assert_eq!(Color::Magenta.escape(), "\x1b[35m");
    assert_eq!(Color::Cyan.escape(), "\x1b[36m");
}

#[test]
fn glyphs_of_the_categories() {
    assert_eq!(glyph(0), '⋄');
    assert_eq!(glyph(10), '×');
    assert_eq!(glyph(32), '×');
    assert_eq!(glyph(b'7'), '7');
    assert_eq!(glyph(b'A'), 'A');
    assert_eq!(glyph(b'~'), '~');
    assert_eq!(glyph(127), '•');
    assert_eq!(glyph(200), '•');
}

#[test]
fn hex_text_of_sample_bytes() {
    assert_eq!(color_code_hex(0x00), "\x1b[31m00\x1b[0m");
    assert_eq!(color_code_hex(0x0a), "\x1b[33m0a\x1b[0m");
    assert_eq!(color_code_hex(0x39), "\x1b[35m39\x1b[0m");
    assert_eq!(color_code_hex(0x41), "\x1b[32m41\x1b[0m");
    assert_eq!(color_code_hex(0x80), "\x1b[34m80\x1b[0m");
    assert_eq!(color_code_hex(0xff), "\x1b[34mff\x1b[0m");
}

#[test]
fn hex_text_of_every_byte() {
    for byte in 0..=255u8 {
        let expected = format!("{}{:02x}\x1b[0m", escape_by_table(category_by_table(byte)), byte);
        assert_eq!(color_code_hex(byte), expected, "byte {}", byte);
    }
}

#[test]
fn char_text_of_sample_bytes() {
    assert_eq!(color_code_char(0x00), "\x1b[31m⋄\x1b[0m");
    assert_eq!(color_code_char(0x0a), "\x1b[33m×\x1b[0m");
    assert_eq!(color_code_char(0x39), "\x1b[35m9\x1b[0m");
    assert_eq!(color_code_char(0x41), "\x1b[32mA\x1b[0m");
    assert_eq!(color_code_char(0x80), "\x1b[34m•\x1b[0m");
}

#[test]
fn char_text_of_every_byte() {
    for byte in 0..=255u8 {
        let category = category_by_table(byte);
        let shown = match category {
            ByteCategory::Zero => '⋄',
            ByteCategory::Control => '×',
            ByteCategory::Extended => '•',
            _ => byte as char,
        };
        let expected = format!("{}{}\x1b[0m", escape_by_table(category), shown);
        assert_eq!(color_code_char(byte), expected, "byte {}", byte);
    }
}

#[test]
fn cell_texts_end_with_the_reset() {
    for byte in 0..=255u8 {
        assert!(color_code_hex(byte).ends_with("\x1b[0m"));
        assert!(color_code_char(byte).ends_with("\x1b[0m"));
    }
}

#[test]
fn hex_digits_are_lowercase() {
    let digits: String = (0..16u8).map(hex_digit_char).collect();
    assert_eq!(digits, "0123456789abcdef");
}

#[test]
fn numerals_are_padded_and_never_cut() {
    let samples: [usize; 9] = [0, 1, 15, 16, 255, 0x1234, 0xdead_beef, 0xffff_ffff, usize::MAX];
    for n in samples {
        let mut eight = String::new();
        push_hex(&mut eight, n, 8);
        assert_eq!(eight, format!("{:08x}", n));
        let mut two = String::new();
        push_hex(&mut two, n, 2);
        assert_eq!(two, format!("{:02x}", n));
        let mut bare = String::from("x");
        push_hex(&mut bare, n, 0);
        assert_eq!(bare, format!("x{:x}", n));
    }
}
