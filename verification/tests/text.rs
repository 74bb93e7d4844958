use media_studio::queue::{first_token_of, split_lines};
use media_studio::ui::split_at_char;
use media_studio::text::{
    decimal_string, join_strings, parse_u64, replace_all_str, str_contains, str_eq_ignore_case,
    str_lower, str_trim,
};

#[test]
fn string_helpers() {
    assert_eq!(str_trim("\u{3000} a b \n"), "a b");
    assert_eq!(str_lower("AbÇ"), "abÇ");
    assert!(str_eq_ignore_case("TRUE", "true"));
    assert_eq!(decimal_string(0), "0");
    assert_eq!(decimal_string(u64::MAX), "18446744073709551615");
    assert_eq!(parse_u64("18446744073709551615"), Some(u64::MAX));
    assert_eq!(parse_u64("18446744073709551616"), None);
    assert_eq!(parse_u64("+7"), Some(7));
    assert_eq!(parse_u64(""), None);
    assert_eq!(replace_all_str("aaa", "aa", "b"), "ba");
    assert_eq!(join_strings(&vec!["a".to_string(), "b".to_string()], ", "), "a, b");
    assert!(str_contains("abc", "bc"));
    assert!(str_contains("abc", ""));
    assert!(!str_contains("abc", "cd"));
}

const TEXTS: &[&str] = &[
    "", " ", "a", " a ", "\t\nab c\r\n", "\u{85}x\u{a0}", "\u{2009}y\u{3000}", "ÄbC", "Ǆ",
    "+12", "-1", "007", "12a", "1 2", "a\nb\r\nc\n", "\n\n", "line\r", "x|y||z", "%41%",
];

#[test]
fn text_helpers_agree_with_std() {
    for s in TEXTS {
        assert_eq!(str_trim(s), s.trim(), "trim {s:?}");
        assert_eq!(str_lower(s), s.to_ascii_lowercase(), "lower {s:?}");
        assert_eq!(parse_u64(s), s.parse::<u64>().ok(), "parse {s:?}");
        assert_eq!(split_lines(s), s.lines().map(str::to_string).collect::<Vec<_>>(), "lines {s:?}");
        assert_eq!(first_token_of(s), s.split_whitespace().next().unwrap_or_default(), "token {s:?}");
        assert_eq!(split_at_char(s, '|'), s.split('|').map(str::to_string).collect::<Vec<_>>(), "split {s:?}");
        for p in ["a", "ab", "|", "\n", "%"] {
            assert_eq!(replace_all_str(s, p, "<>"), s.replace(p, "<>"), "replace {s:?} {p:?}");
            assert_eq!(str_contains(s, p), s.contains(p), "contains {s:?} {p:?}");
        }
        for t in TEXTS {
            assert_eq!(str_eq_ignore_case(s, t), s.eq_ignore_ascii_case(t), "eq_ignore {s:?} {t:?}");
        }
    }
    for n in [0u64, 9, 10, 99, 100, 12345, u64::MAX] {
        assert_eq!(decimal_string(n), n.to_string());
    }
}
