//! Text and maps.
use vault::text::{
    chars_of, contains_text, decimal_text, join_texts, padded_decimal, parse_bounded, split_chars,
    string_of, text_in_order, trim_trailing, trimmed,
};
use vault::text_map::TextMap;
use vault::vault_agent::fingerprint::Outcome;
use vault::vault_theme::steelbore::{MOLTEN_AMBER, VOID_NAVY};

fn parse(s: &str, max: u64) -> Option<u64> {
    parse_bounded(&chars_of(s), max)
}

#[test]
fn numbers_are_read_and_written() {
    for n in [0, 7, 10, 12345, u64::MAX] {
        assert_eq!(parse(&decimal_text(n), u64::MAX), Some(n));
        assert_eq!(decimal_text(n), n.to_string());
    }
    assert_eq!(parse("+12", 100), Some(12));
    assert_eq!(parse("0012", 100), Some(12));
    assert_eq!(parse("101", 100), None);
    assert_eq!(parse("100", 100), Some(100));
    for bad in ["", "+", "-1", "1 ", "1x", "++1"] {
        assert_eq!(parse(bad, 100), None);
    }
    assert_eq!(padded_decimal(7, 3), "007");
    assert_eq!(padded_decimal(1234, 3), "1234");
}

#[test]
fn white_space_is_that_of_unicode() {
    assert_eq!(trimmed("\u{3000}\u{a0} a b\t\r\n"), "a b");
    assert_eq!(trimmed(" \u{200b} "), "\u{200b}");
    assert_eq!(trimmed("   "), "");
}

#[test]
fn pieces_are_split_and_joined() {
    let pieces: Vec<String> = split_chars(&chars_of("a&&b"), '&')
        .iter()
        .map(|p| string_of(p))
        .collect();
    assert_eq!(pieces, ["a", "", "b"]);
    assert_eq!(join_texts(&pieces, "&"), "a&&b");
    assert_eq!(join_texts(&vec![], "-"), "");
    assert_eq!(string_of(trim_trailing(&chars_of("a//"), '/')), "a");
}

#[test]
fn texts_are_ordered_and_searched() {
    assert!(text_in_order("a", "a"));
    assert!(text_in_order("a", "ab"));
    assert!(!text_in_order("ab", "a"));
    assert!(text_in_order("Z", "a"));
    assert!(text_in_order("", "a"));
    assert!(contains_text("an invalid_grant", "invalid_grant"));
    assert!(!contains_text("invalid", "invalid_grant"));
    assert!(contains_text("x", ""));
}

#[test]
fn maps_keep_one_value_for_each_key() {
    let mut m: TextMap<u8> = TextMap::new();
    assert!(m.is_empty());
    m.insert("a".into(), 1);
    m.insert("b".into(), 2);
    m.insert("a".into(), 3);
    assert_eq!(m.len(), 2);
    assert_eq!(m.get("a"), Some(&3));
    assert_eq!(m.get("b"), Some(&2));
    assert_eq!(m.get("c"), None);
    assert!(m.contains_key("b"));
    assert_eq!(m.at(0).0, "a");
    assert_eq!(m.position("c"), 2);
}

#[test]
fn signals_of_a_reader_decide_at_the_end() {
    assert!(Outcome::from_signal("verify-retry-scan", false).is_none());
    assert!(matches!(
        Outcome::from_signal("verify-match", true),
        Some(Outcome::Match)
    ));
    assert!(matches!(
        Outcome::from_signal("verify-no-match", true),
        Some(Outcome::NoMatch)
    ));
    assert_eq!(VOID_NAVY, "#000027");
    assert_eq!(MOLTEN_AMBER, "#D98E32");
}
