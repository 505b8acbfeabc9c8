use stateless_codex::text::{char_is_whitespace, str_eq};

#[test]
fn whitespace_is_the_unicode_white_space_property() {
    for code in 0u32..=0x10FFFF {
        if let Some(c) = char::from_u32(code) {
            assert_eq!(char_is_whitespace(c), c.is_whitespace(), "code point {code:#x}");
        }
    }
    assert!(char_is_whitespace('\u{3000}'));
    assert!(!char_is_whitespace('\u{200b}'));
}

#[test]
fn strings_are_equal_exactly_when_their_characters_are() {
    assert!(str_eq("abc", "abc"));
    assert!(str_eq("", ""));
    assert!(str_eq("é🙂", "é🙂"));
    assert!(!str_eq("abc", "abd"));
    assert!(!str_eq("ab", "abc"));
    assert!(!str_eq("abc", "ab"));
}
