use tltoolbox::text::{
    chars_of, contains, decimal_of, decimal_of_padded, decimal_of_signed, eq_ignore_ascii_case,
    hex_of, hex_of_width, is_white_space, parse_digits_u16, same_text, string_of, text_of_bool,
    to_ascii_lower_char, trim,
};
use tltoolbox::utf16::{
    bytes_to_units, decode, encode, to_wide_units, units_to_bytes, REPLACEMENT,
};

#[test]
fn white_space_is_that_of_the_standard_library() {
    for c in '\0'..=char::MAX {
        assert_eq!(is_white_space(c), c.is_whitespace(), "U+{:04X}", c as u32);
    }
}

#[test]
fn lower_case_of_ascii_is_that_of_the_standard_library() {
    for c in '\0'..='\u{FFFF}' {
        assert_eq!(to_ascii_lower_char(c), c.to_ascii_lowercase());
    }
}

#[test]
fn trimming_takes_white_space_off_both_ends() {
    for text in [
        "",
        " ",
        "\u{3000}\u{A0} x y\u{2003}\t\r\n",
        "x",
        "  a",
        "b  ",
        "\u{200B}c",
        "弹窗 广告 ",
    ] {
        assert_eq!(trim(text), text.trim());
        assert_eq!(trim(&trim(text)), text.trim());
    }
}

#[test]
fn comparing_ignores_the_case_of_ascii_letters_alone() {
    assert!(eq_ignore_ascii_case("Node.EXE", "nODE.exe"));
    assert!(!eq_ignore_ascii_case("Ä", "ä"));
    assert!(!eq_ignore_ascii_case("a", "ab"));
    assert!(eq_ignore_ascii_case("", ""));
    assert!(same_text("äb", "äb"));
    assert!(!same_text("a", "A"));
}

#[test]
fn substrings_are_found_wherever_they_are() {
    let haystacks = ["", "a", "abcab", "弹窗广告", "aaab", "x广告"];
    let needles = ["", "a", "ab", "cab", "abc", "广告", "aab", "b", "告x"];
    for hay in haystacks {
        for needle in needles {
            assert_eq!(contains(hay, needle), hay.contains(needle), "{hay} {needle}");
        }
    }
}

#[test]
fn numbers_are_written_as_the_standard_library_writes_them() {
    for n in [0u128, 7, 10, 65535, u64::MAX as u128, u128::MAX] {
        assert_eq!(decimal_of(n), format!("{n}"));
    }
    for n in [0i64, -1, 42, -1920, i64::MIN, i64::MAX] {
        assert_eq!(decimal_of_signed(n), format!("{n}"));
    }
    for n in [0u64, 9, 10, 0xDEAD_BEEF, u64::MAX] {
        assert_eq!(hex_of(n), format!("{n:X}"));
    }
    for n in [0u32, 0xAB, 0x8000_4005, u32::MAX] {
        assert_eq!(hex_of_width(n, 8), format!("{n:08X}"));
    }
    for n in [0u64, 12, 999_999, 1_000_000, u64::MAX] {
        assert_eq!(decimal_of_padded(n, 6), format!("{n:06}"));
    }
    assert_eq!(text_of_bool(true), "true");
    assert_eq!(text_of_bool(false), "false");
}

#[test]
fn digits_are_read_up_to_the_largest_port() {
    assert_eq!(parse_digits_u16("0"), Some(0));
    assert_eq!(parse_digits_u16("00080"), Some(80));
    assert_eq!(parse_digits_u16("65535"), Some(65535));
    assert_eq!(parse_digits_u16("65536"), None);
    assert_eq!(parse_digits_u16("99999999999999999999999999"), None);
    assert_eq!(parse_digits_u16(""), None);
    assert_eq!(parse_digits_u16("+80"), None);
    assert_eq!(parse_digits_u16("8٣"), None);
}

#[test]
fn characters_come_and_go() {
    let v = chars_of("a弹😀");
    assert_eq!(v, vec!['a', '弹', '😀']);
    assert_eq!(string_of(&v, 1, 3), "弹😀");
    assert_eq!(string_of(&v, 1, 1), "");
}

#[test]
fn utf16_is_that_of_the_standard_library() {
    for text in ["", "abc", "弹窗😀", "\u{FFFF}\u{10000}\u{10FFFF}\0x"] {
        let units: Vec<u16> = text.encode_utf16().collect();
        assert_eq!(encode(text), units);
        assert_eq!(decode(&units), text);
        let mut wide = units.clone();
        wide.push(0);
        assert_eq!(to_wide_units(text), wide);
    }
}

#[test]
fn lone_surrogates_are_replaced() {
    for units in [
        vec![0xD800u16],
        vec![0xDC00, 0xD800],
        vec![0xD800, 0xD800, 0xDC00],
        vec![0x41, 0xDFFF, 0x42],
        vec![0xD83D, 0x41],
    ] {
        assert_eq!(decode(&units), String::from_utf16_lossy(&units));
    }
    assert_eq!(decode(&[0xD800]), REPLACEMENT.to_string());
}

#[test]
fn bytes_of_units_are_little_endian() {
    let units = vec![0x1234u16, 0xFFFE, 0];
    let bytes = units_to_bytes(&units);
    assert_eq!(bytes, vec![0x34, 0x12, 0xFE, 0xFF, 0, 0]);
    assert_eq!(bytes_to_units(&bytes), units);
    assert_eq!(bytes_to_units(&[1, 2, 3]), vec![0x0201]);
    assert_eq!(bytes_to_units(&[1]), Vec::<u16>::new());
}
