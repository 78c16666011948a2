use clippin::text::{
    appended, contains, is_white_space, join, same_text, skip_chars, split_once, starts_with,
    strip_back, to_ascii_lower, trim, truncate_chars,
};

#[test]
fn white_space_is_that_of_unicode() {
    for n in 0..=0x10ffffu32 {
        if let Some(c) = char::from_u32(n) {
            assert_eq!(is_white_space(c), c.is_whitespace(), "U+{:04X}", n);
        }
    }
}

#[test]
fn trims_both_ends_only() {
    for s in ["", " ", "\t\n", "a", "  a b\u{a0}", "\u{3000}x\u{2028}", "no"] {
        assert_eq!(trim(s), s.trim());
    }
}

#[test]
fn finds_substrings() {
    for (hay, needle) in [
        ("hello", "ell"),
        ("hello", ""),
        ("", ""),
        ("", "a"),
        ("aab", "ab"),
        ("aab", "aabb"),
        ("größe", "öß"),
        ("abc", "d"),
    ] {
        assert_eq!(contains(hay, needle), hay.contains(needle), "{} in {}", needle, hay);
        assert_eq!(starts_with(hay, needle), hay.starts_with(needle));
    }
}

#[test]
fn splits_at_the_first_separator() {
    assert_eq!(split_once("a-b-c", '-'), ("a".to_string(), Some("b-c".to_string())));
    assert_eq!(split_once("abc", '-'), ("abc".to_string(), None));
    assert_eq!(split_once("-", '-'), (String::new(), Some(String::new())));
}

#[test]
fn strips_and_skips() {
    assert_eq!(strip_back("12ZZ", 'Z'), "12");
    assert_eq!(strip_back("ZZ", 'Z'), "");
    assert_eq!(strip_back("Z1", 'Z'), "Z1");
    assert_eq!(skip_chars("öl!", 1), "l!");
}

#[test]
fn truncation_counts_characters() {
    assert_eq!(truncate_chars("abc", 3), "abc");
    assert_eq!(truncate_chars("abcd", 3), "ab…");
    assert_eq!(truncate_chars("äöüß", 2), "ä…");
    assert_eq!(truncate_chars("ab", 0), "…");
    assert_eq!(truncate_chars("", 0), "");
}

#[test]
fn lower_case_of_ascii_letters_only() {
    assert_eq!(to_ascii_lower("AbZ[@Ä9"), "AbZ[@Ä9".to_ascii_lowercase());
}

#[test]
fn lists_are_joined() {
    assert_eq!(join(&[], "; "), "");
    assert_eq!(join(&["a".to_string()], "; "), "a");
    assert_eq!(join(&["a".to_string(), "b".to_string(), "".to_string()], "; "), "a; b; ");
    assert_eq!(appended("ab", "cd"), "abcd");
    assert!(same_text("x", "x") && !same_text("x", "y"));
}
