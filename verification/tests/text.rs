use analyze_screen::text::{
    copy_texts, decimal_text, index_of, join, lines_reversed, parse_uint, split_whitespace,
    take_chars, text_eq, trim, trim_end_matches,
};

#[test]
fn white_space_is_trimmed_as_unicode_has_it() {
    for c in ['\t', '\n', '\u{b}', '\u{c}', '\r', ' ', '\u{85}', '\u{a0}', '\u{1680}', '\u{2000}',
        '\u{2028}', '\u{2029}', '\u{202f}', '\u{205f}', '\u{3000}']
    {
        assert_eq!(trim(&format!("{c}x{c}")), "x");
    }
    for c in ['\u{200b}', '\u{feff}', '\u{0}'] {
        assert_eq!(trim(&format!("{c}x")), format!("{c}x"));
    }
    assert_eq!(trim(" a b "), "a b");
    assert_eq!(trim("  "), "");
}

#[test]
fn the_first_occurrence_is_found() {
    assert_eq!(index_of("abcabc", "ca"), Some(2));
    assert_eq!(index_of("aab", "ab"), Some(1));
    assert_eq!(index_of("éé?", "?"), Some(2));
    assert_eq!(index_of("abc", "d"), None);
    assert_eq!(index_of("ab", "abc"), None);
}

#[test]
fn suffixes_are_dropped_repeatedly() {
    assert_eq!(trim_end_matches("a//", "/"), "a");
    assert_eq!(trim_end_matches("//", "/"), "");
    assert_eq!(trim_end_matches("aabab", "ab"), "a");
}

#[test]
fn characters_are_counted_not_bytes() {
    assert_eq!(take_chars("héllo", 2), "hé");
    assert_eq!(take_chars("hé", 9), "hé");
}

#[test]
fn words_are_split() {
    assert_eq!(split_whitespace(" a  bc\u{2003}d\n"), vec!["a", "bc", "d"]);
    assert!(split_whitespace(" \t").is_empty());
}

#[test]
fn lines_are_given_backwards() {
    assert_eq!(lines_reversed("a\n b \r\n\n\tc"), vec!["c", "b", "a"]);
    assert!(lines_reversed("\n \n").is_empty());
}

#[test]
fn parts_are_joined() {
    let parts = vec!["a".to_string(), "b".to_string(), "".to_string()];
    assert_eq!(join(&parts, "; "), "a; b; ");
    assert_eq!(join(&vec![], "; "), "");
    assert_eq!(copy_texts(&parts), parts);
}

#[test]
fn numbers_are_printed_in_decimal() {
    assert_eq!(decimal_text(0), "0");
    assert_eq!(decimal_text(1203), "1203");
    assert_eq!(decimal_text(u128::MAX), "340282366920938463463374607431768211455");
}

#[test]
fn numbers_are_read_as_the_standard_library_does() {
    assert_eq!(parse_uint("0", 9), Some(0));
    assert_eq!(parse_uint("+7", 9), Some(7));
    assert_eq!(parse_uint("009", 9), Some(9));
    assert_eq!(parse_uint("10", 9), None);
    for s in ["", "+", "-0", "1_0", "٣", "99999999999999999999999"] {
        assert_eq!(parse_uint(s, u64::MAX), None, "{s}");
        assert!(s.parse::<u64>().is_err());
    }
}

#[test]
fn texts_are_compared() {
    assert!(text_eq("watch", "watch"));
    assert!(!text_eq("watch", "Watch"));
    assert!(!text_eq("watch", "watc"));
}
