use cloud_stt::text::{
    chars_of, contains_str, is_white_space, replace_all_str, str_eq, string_from_chars, trim_end_char_str, trim_str,
};

#[test]
fn chars_round_trip_through_string() {
    let cs = chars_of("héllo");
    assert_eq!(cs, vec!['h', 'é', 'l', 'l', 'o']);
    assert_eq!(string_from_chars(&cs), "héllo");
    assert_eq!(string_from_chars(&[]), "");
}

#[test]
fn replace_all_is_leftmost_non_overlapping() {
    assert_eq!(replace_all_str("aaa", "aa", "b"), "ba");
    assert_eq!(replace_all_str("https://a https://b", "https://", "wss://"), "wss://a wss://b");
    assert_eq!(replace_all_str("none here", "xyz", "q"), "none here");
    assert_eq!(replace_all_str("", "x", "y"), "");
    assert_eq!(replace_all_str("abc", "", "x"), "abc".replace("", "x"));
    assert_eq!(replace_all_str("", "", "x"), "x");
}

#[test]
fn trim_removes_unicode_white_space_at_both_ends() {
    assert_eq!(trim_str("  hello world \n\t"), "hello world");
    assert_eq!(trim_str("\u{3000}wide\u{2003}"), "wide");
    assert_eq!(trim_str("   "), "");
    assert_eq!(trim_str("x"), "x");
}

#[test]
fn trim_is_idempotent_on_examples() {
    for s in ["  a b  ", "\n\n", "abc", " \u{a0}x\u{a0} "] {
        let once = trim_str(s);
        assert_eq!(trim_str(&once), once);
    }
}

#[test]
fn trim_end_char_removes_whole_run() {
    assert_eq!(trim_end_char_str("abc===", '='), "abc");
    assert_eq!(trim_end_char_str("a=b=", '='), "a=b");
    assert_eq!(trim_end_char_str("////", '/'), "");
    assert_eq!(trim_end_char_str("x", '/'), "x");
}

#[test]
fn contains_and_equality() {
    assert!(contains_str("HTTP error: 401 Unauthorized", "401"));
    assert!(!contains_str("HTTP error: 500", "401"));
    assert!(contains_str("abc", ""));
    assert!(str_eq("TranscriptText", "TranscriptText"));
    assert!(!str_eq("TranscriptText", "TranscriptTex"));
}

#[test]
fn white_space_agrees_with_std_on_every_char() {
    for c in (0u32..=0x10ffff).filter_map(char::from_u32) {
        assert_eq!(is_white_space(c), c.is_whitespace(), "{:?}", c);
    }
}
