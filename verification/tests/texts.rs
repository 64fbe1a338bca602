use snipd::text::{
    blank, chars_of, contains, control, decimal_text, hex_text, padded_text, same, space,
    string_of, to_ascii_lower, to_ascii_upper, trim, trim_end, Strip,
};

#[test]
fn white_space_is_that_of_unicode() {
    for n in 0..=0x10_ffffu32 {
        if let Some(c) = char::from_u32(n) {
            assert_eq!(space(c), c.is_whitespace(), "{n:x}");
            assert_eq!(control(c), c.is_control(), "{n:x}");
        }
    }
}

#[test]
fn trimming_is_that_of_std() {
    for s in ["", " ", " a ", "\u{3000}a b\n", "a\u{200b}", "\t\u{85}x"] {
        assert_eq!(trim(s), s.trim());
        assert_eq!(blank(s), s.trim().is_empty());
    }
    assert_eq!(trim_end("a. . ", Strip::DotOrBlank), "a");
    assert_eq!(trim_end("a\0\0", Strip::Nul), "a");
    assert_eq!(trim_end("a \n", Strip::Space), "a");
}

#[test]
fn casing_of_ascii() {
    assert_eq!(to_ascii_lower("aB\u{c4}Z@["), "ab\u{c4}z@[");
    assert_eq!(to_ascii_upper("aB\u{e4}z`{"), "AB\u{e4}Z`{");
}

#[test]
fn numbers_are_written() {
    assert_eq!(decimal_text(0), "0");
    assert_eq!(decimal_text(u64::MAX), u64::MAX.to_string());
    assert_eq!(padded_text(7, 3), "007");
    assert_eq!(padded_text(1000, 3), "1000");
    assert_eq!(padded_text(0, 0), "0");
    assert_eq!(hex_text(0), "0000000000000000");
    assert_eq!(hex_text(0xdead_beef), "00000000deadbeef");
    assert_eq!(hex_text(u64::MAX), "ffffffffffffffff");
}

#[test]
fn texts_are_made_of_characters() {
    assert_eq!(chars_of("a\u{1f600}"), vec!['a', '\u{1f600}']);
    assert_eq!(string_of(&vec!['a', 'b', 'c'], 1, 3), "bc");
    assert!(same("ab", "ab") && !same("ab", "a"));
    assert!(contains("abc", "") && contains("abc", "bc") && !contains("abc", "ac"));
}
