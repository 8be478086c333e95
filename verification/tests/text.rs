//! Text by its characters, held against the string methods.

use ultra_media_remote::text::{chars_of, equal_ignoring_case, lower_char, trim_chars, white_space};

#[test]
fn white_space_is_that_of_unicode() {
    for code in 0u32..=0x10_ffff {
        if let Some(c) = char::from_u32(code) {
            assert_eq!(white_space(c), c.is_whitespace(), "{code:x}");
        }
    }
}

#[test]
fn lower_case_is_that_of_ascii() {
    for code in 0u32..=0x10_ffff {
        if let Some(c) = char::from_u32(code) {
            assert_eq!(lower_char(c), c.to_ascii_lowercase(), "{code:x}");
        }
    }
    assert!(equal_ignoring_case(&chars_of("HttpS"), &chars_of("https")));
    assert!(!equal_ignoring_case(&chars_of("\u{e9}"), &chars_of("\u{c9}")));
}

#[test]
fn trimming_is_that_of_strings() {
    for text in ["", " ", "\u{3000}a b\t", "x", "\n\n", " \u{85}y\u{a0} ", "\u{200b}z"] {
        let chars = chars_of(text);
        let trimmed: String = trim_chars(&chars).iter().collect();
        assert_eq!(trimmed, text.trim());
    }
}
