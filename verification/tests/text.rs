use review_annotation::comment::comment_text;
use review_annotation::decimal::{decimal, parse_u32};
use review_annotation::text::{
    contains, is_single_line, is_whitespace, leading_whitespace, same_text, split_once, starts_with_whitespace,
    strip_prefix, strip_suffix, trim, trim_end, trim_start,
};

#[test]
fn white_space_is_that_of_the_standard_library() {
    for code in 0..=0x10ffffu32 {
        if let Some(c) = char::from_u32(code) {
            assert_eq!(is_whitespace(c), c.is_whitespace());
        }
    }
}

#[test]
fn trimming_agrees_with_the_standard_library() {
    for s in ["", " ", "\t \u{3000}", "a", " a b \n", "\u{a0}x", "x\u{2028}", "\u{e9} \u{85}"] {
        assert_eq!(trim(s), s.trim());
        assert_eq!(trim_start(s), s.trim_start());
        assert_eq!(trim_end(s), s.trim_end());
    }
}

#[test]
fn leading_whitespace_is_the_indentation() {
    assert_eq!(leading_whitespace("\t  x y"), "\t  ");
    assert_eq!(leading_whitespace("x"), "");
    assert_eq!(leading_whitespace("  "), "  ");
}

#[test]
fn searching_agrees_with_the_standard_library() {
    for s in ["", "a", "ab", "aab", "a:+b:+c", "]", "[x] y]"] {
        for p in ["", "a", "ab", ":+", "]", "aab!"] {
            assert_eq!(contains(s, p), s.contains(p));
            assert_eq!(strip_prefix(s, p), s.strip_prefix(p));
            assert_eq!(strip_suffix(s, p), s.strip_suffix(p));
            assert_eq!(split_once(s, p), s.split_once(p));
            assert_eq!(same_text(s, p), s == p);
        }
    }
    assert!(is_single_line("a\rb"));
    assert!(!is_single_line("a\nb"));
    assert!(starts_with_whitespace("\u{a0}x"));
    assert!(!starts_with_whitespace("x "));
    assert!(!starts_with_whitespace(""));
}

#[test]
fn unsigned_numbers_agree_with_the_standard_library() {
    for s in [
        "", "+", "0", "+0", "-0", "007", "12", "+12", "++1", " 1", "1 ", "1_0", "4294967295",
        "4294967296", "99999999999999999999999", "99999999999999999999x", "\u{663}",
    ] {
        // A sign is not part of the number here.
        let expected = if s.contains('+') { None } else { s.parse::<u32>().ok() };
        assert_eq!(parse_u32(s), expected);
    }
    for n in [0u32, 1, 9, 10, 99, 100, 4294967295] {
        assert_eq!(decimal(n), n.to_string());
        assert_eq!(parse_u32(&decimal(n)), Some(n));
    }
}

#[test]
fn comment_text_is_one_line() {
    for typed in [
        "", " \n\t\n", "one", "  one  ", "one\ntwo", "one\r\ntwo\r\n", "\n\n one \n\n\n two\n", "a\rb",
    ] {
        let expected = typed
            .lines()
            .map(str::trim)
            .filter(|line| !line.is_empty())
            .collect::<Vec<_>>()
            .join(" ");
        assert_eq!(comment_text(typed), expected);
    }
    assert_eq!(comment_text(" one\n\n  two three \n"), "one two three");
    assert_eq!(comment_text(&comment_text(" one\n two ")), "one two");
}
