use varied::strings::{replace_all, split_text, join_with, text_eq, chars_of, copy_strings};
use varied::numbers::{u64_to_decimal, parse_unsigned};

#[test]
fn replace_all_replaces_every_occurrence() {
    assert_eq!(replace_all("id=abc; id=def", "id=", ""), "abc; def");
    assert_eq!(replace_all("aaaa", "aa", "b"), "bb");
    assert_eq!(replace_all("aaa", "aa", "b"), "ba");
    assert_eq!(replace_all("no match", "xyz", "q"), "no match");
    assert_eq!(replace_all("", "x", "y"), "");
}

#[test]
fn replace_all_agrees_with_str_replace() {
    for (s, p, r) in [("Cache/a/Cache/b", "Cache/", ""), ("\"x\"", "\"", ""), ("ééé", "é", "e"), ("abab", "ab", "abab")] {
        assert_eq!(replace_all(s, p, r), s.replace(p, r));
    }
}

#[test]
fn split_text_keeps_empty_pieces() {
    assert_eq!(split_text("a,b,,c", ','), vec!["a", "b", "", "c"]);
    assert_eq!(split_text("", ','), vec![""]);
    assert_eq!(split_text(",", ','), vec!["", ""]);
    assert_eq!(split_text("abc", ','), vec!["abc"]);
}

#[test]
fn split_then_join_gives_text_back() {
    for s in ["a,b,,c", "", ",", ",,x,", "plain"] {
        let parts = split_text(s, ',');
        assert_eq!(join_with(&parts, ","), s);
        let std_parts: Vec<String> = s.split(',').map(|p| p.to_string()).collect();
        assert_eq!(parts, std_parts);
    }
}

#[test]
fn join_with_separator_between_neighbours() {
    let parts = vec!["x".to_string(), "y".to_string(), "z".to_string()];
    assert_eq!(join_with(&parts, "--"), "x--y--z");
    assert_eq!(join_with(&Vec::new(), "--"), "");
    assert_eq!(copy_strings(&parts), parts);
}

#[test]
fn text_eq_and_chars_of() {
    assert!(text_eq("S3", "S3"));
    assert!(!text_eq("S3", "s3"));
    assert!(!text_eq("S3", "S33"));
    assert_eq!(chars_of("aé"), vec!['a', 'é']);
}

#[test]
fn decimal_text_of_numbers() {
    assert_eq!(u64_to_decimal(0), "0");
    assert_eq!(u64_to_decimal(42), "42");
    assert_eq!(u64_to_decimal(u64::MAX), u64::MAX.to_string());
}

#[test]
fn parse_unsigned_follows_str_parse() {
    for s in ["0", "007", "+12", "4294967295", "4294967296", "", "+", "-1", "1a", " 1", "99999999999999999999"] {
        let expected = s.parse::<u32>().ok().map(|v| v as u64);
        assert_eq!(parse_unsigned(s, u32::MAX as u64), expected, "input {:?}", s);
    }
}

#[test]
fn decimal_roundtrip_on_values() {
    for n in [0u64, 9, 10, 12345, u32::MAX as u64] {
        assert_eq!(parse_unsigned(&u64_to_decimal(n), u32::MAX as u64), Some(n));
    }
}
