use contact_crawler::text::{
    chars_of, find_from, has_prefix, has_substring, holds_text, is_space_char, matches_at,
    same_text, strip_trailing, trim, truncate,
};

#[test]
fn chars_of_lists_characters_not_bytes() {
    assert_eq!(chars_of("héllo"), vec!['h', 'é', 'l', 'l', 'o']);
    assert_eq!(chars_of(""), Vec::<char>::new());
}

#[test]
fn white_space_is_what_std_calls_white_space() {
    for n in 0u32..=0x10FFFF {
        if let Some(c) = char::from_u32(n) {
            assert_eq!(is_space_char(c), c.is_whitespace(), "U+{:04X}", n);
        }
    }
}

#[test]
fn trim_drops_white_space_at_both_ends_only() {
    assert_eq!(trim("  Jane  Doe \n\t"), "Jane  Doe");
    assert_eq!(trim("Jane"), "Jane");
    assert_eq!(trim(" \u{a0}\u{3000} "), "");
    assert_eq!(trim(""), "");
    assert_eq!(trim("\u{2003}é\u{85}"), "é");
}

#[test]
fn trim_agrees_with_std() {
    for s in ["", " ", "a", " a", "a ", " a b ", "\n\ra\tb\u{b}\u{c}", "\u{1680}x\u{205f}", "é "] {
        assert_eq!(trim(s), s.trim());
    }
}

#[test]
fn strip_trailing_drops_the_whole_run() {
    assert_eq!(strip_trailing("https://acme.com///", '/'), "https://acme.com");
    assert_eq!(strip_trailing("https://acme.com", '/'), "https://acme.com");
    assert_eq!(strip_trailing("///", '/'), "");
    assert_eq!(strip_trailing("/a/b", '/'), "/a/b");
    assert_eq!(strip_trailing("", '/'), "");
}

#[test]
fn truncate_counts_characters() {
    assert_eq!(truncate("héllo", 2), "hé");
    assert_eq!(truncate("héllo", 5), "héllo");
    assert_eq!(truncate("héllo", 9), "héllo");
    assert_eq!(truncate("héllo", 0), "");
}

#[test]
fn prefix_and_substring() {
    assert!(has_prefix("mailto:jane@acme.com", "mailto:"));
    assert!(!has_prefix("xmailto:jane@acme.com", "mailto:"));
    assert!(!has_prefix("mail", "mailto:"));
    assert!(has_prefix("anything", ""));
    assert!(has_substring("/our-team/bio", "team"));
    assert!(!has_substring("/our-Team/bio", "team"));
    assert!(has_substring("abc", ""));
    assert!(has_substring("", ""));
    assert!(!has_substring("ab", "abc"));
    assert!(has_substring("xxabc", "abc"));
}

#[test]
fn find_from_gives_the_first_place() {
    let hay = chars_of("abcabc");
    let needle = chars_of("bc");
    assert_eq!(find_from(&hay, &needle, 0), Some(1));
    assert_eq!(find_from(&hay, &needle, 2), Some(4));
    assert_eq!(find_from(&hay, &needle, 5), None);
    assert_eq!(find_from(&hay, &needle, 99), None);
    assert_eq!(find_from(&hay, &chars_of(""), 6), Some(6));
    assert!(matches_at(&hay, &needle, 4));
    assert!(!matches_at(&hay, &needle, 5));
    assert!(!matches_at(&hay, &needle, usize::MAX));
}

#[test]
fn same_text_and_lists() {
    assert!(same_text("a", "a"));
    assert!(!same_text("a", "ab"));
    assert!(!same_text("ab", "a"));
    assert!(same_text("", ""));
    let list = vec!["x".to_string(), "y".to_string()];
    assert!(holds_text(&list, "y"));
    assert!(!holds_text(&list, "z"));
    assert!(!holds_text(&Vec::new(), "z"));
}
