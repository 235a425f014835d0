use ryu_healing::text::{
    has_prefix, is_blank, is_word, parse_signed, parse_unsigned, render_signed, render_unsigned,
    same_text, trim, white_space, without_prefix,
};
use ryu_healing::textmap::TextMap;

#[test]
fn white_space_is_what_unicode_says() {
    for c in '\0'..=char::MAX {
        assert_eq!(white_space(c), c.is_whitespace(), "{c:?}");
    }
}

#[test]
fn trimming_agrees_with_the_standard_library() {
    for s in [
        "", " ", "a", " a", "a ", "\u{a0}a b\u{2003}", "\u{3000}\u{3000}", "\n\tx\r\n", "é ", "\u{200b}x",
    ] {
        assert_eq!(trim(s), s.trim());
        assert_eq!(is_blank(s), s.trim().is_empty());
    }
}

#[test]
fn words_are_told_apart_from_case_and_edges() {
    assert!(is_word(" YeS\n", "yes"));
    assert!(!is_word("ye s", "yes"));
    assert!(!is_word("yes!", "yes"));
    // The Kelvin sign is no ASCII letter.
    assert!(!is_word("\u{212a}", "k"));
}

#[test]
fn numerals_agree_with_the_standard_library() {
    for s in [
        "", "+", "-", "0", "00", "-0", "+0", "7", "+7", "-7", "++7", "+-7", " 7", "7 ", "1_0", "12a",
        "255", "256", "65535", "65536", "4294967295", "4294967296", "9223372036854775807",
        "9223372036854775808", "-9223372036854775808", "-9223372036854775809",
        "18446744073709551615", "18446744073709551616", "99999999999999999999999", "٣",
        "0000000000000000000000000000012",
    ] {
        assert_eq!(
            parse_unsigned(s, u32::MAX as u64),
            s.parse::<u32>().ok().map(u64::from),
            "{s}"
        );
        assert_eq!(
            parse_unsigned(s, u16::MAX as u64),
            s.parse::<u16>().ok().map(u64::from),
            "{s}"
        );
        assert_eq!(parse_unsigned(s, u64::MAX), s.parse::<u64>().ok(), "{s}");
        assert_eq!(parse_signed(s), s.parse::<i64>().ok(), "{s}");
    }
}

#[test]
fn numbers_are_rendered_as_the_standard_library_does() {
    for n in [0, 1, 9, 10, 99, 100, 4_294_967_296, u64::MAX] {
        assert_eq!(render_unsigned(n), n.to_string());
        assert_eq!(parse_unsigned(&render_unsigned(n), u64::MAX), Some(n));
    }
    for n in [0, 1, -1, 10, -10, i64::MAX, i64::MIN, i64::MIN + 1] {
        assert_eq!(render_signed(n), n.to_string());
        assert_eq!(parse_signed(&render_signed(n)), Some(n));
    }
}

#[test]
fn prefixes_and_equality() {
    assert!(same_text("ä", "ä"));
    assert!(!same_text("ä", "a"));
    assert!(!same_text("ab", "abc"));
    assert!(has_prefix("abc", ""));
    assert!(has_prefix("äb", "ä"));
    assert!(!has_prefix("a", "ab"));
    assert_eq!(without_prefix("äbc", "äb"), Some("c"));
    assert_eq!(without_prefix("abc", "b"), None);
}

#[test]
fn a_map_keeps_the_last_value_of_a_name() {
    let mut map: TextMap<u8> = TextMap::new();
    map.insert("a", 1);
    map.insert("b", 2);
    map.insert("a", 3);
    assert_eq!(map.get("a"), Some(&3));
    assert_eq!(map.get("b"), Some(&2));
    assert_eq!(map.get("c"), None);
    assert_eq!(map.entries().len(), 2);
}
