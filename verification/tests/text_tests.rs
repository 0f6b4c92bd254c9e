//! Byte-string primitives: parsing, trimming, searching, ordering.

use heydm::text::{bytes_eq, contains_subseq, dec_bytes, lex_le_exec, parse_i32, split_bytes, split_once_bytes, to_lower, trim};

#[test]
fn parse_i32_accepts_signed_decimals() {
    assert_eq!(parse_i32(b"0"), Some(0));
    assert_eq!(parse_i32(b"87"), Some(87));
    assert_eq!(parse_i32(b"+42"), Some(42));
    assert_eq!(parse_i32(b"-17"), Some(-17));
    assert_eq!(parse_i32(b"2147483647"), Some(i32::MAX));
    assert_eq!(parse_i32(b"-2147483648"), Some(i32::MIN));
}

#[test]
fn parse_i32_rejects_junk_and_overflow() {
    assert_eq!(parse_i32(b""), None);
    assert_eq!(parse_i32(b"+"), None);
    assert_eq!(parse_i32(b"-"), None);
    assert_eq!(parse_i32(b"12a"), None);
    assert_eq!(parse_i32(b" 12"), None);
    assert_eq!(parse_i32(b"2147483648"), None);
    assert_eq!(parse_i32(b"-2147483649"), None);
    assert_eq!(parse_i32(b"99999999999999999999"), None);
}

#[test]
fn trim_strips_ascii_whitespace() {
    assert_eq!(trim(b"  hey \n"), b"hey".to_vec());
    assert_eq!(trim(b"\t\r\n"), Vec::<u8>::new());
    assert_eq!(trim(b"solid"), b"solid".to_vec());
    assert_eq!(trim(b""), Vec::<u8>::new());
    assert_eq!(trim(b"a b"), b"a b".to_vec());
}

#[test]
fn to_lower_folds_ascii_only() {
    assert_eq!(to_lower(b"FireFox 2"), b"firefox 2".to_vec());
    assert_eq!(to_lower(b"already"), b"already".to_vec());
}

#[test]
fn substring_search_finds_and_rejects() {
    assert!(contains_subseq(b"hello world", b"lo wo"));
    assert!(contains_subseq(b"hello", b""));
    assert!(contains_subseq(b"hello", b"hello"));
    assert!(!contains_subseq(b"hello", b"hello!"));
    assert!(!contains_subseq(b"hello", b"ol"));
}

#[test]
fn lexicographic_order_is_bytewise() {
    assert!(lex_le_exec(b"abc", b"abd"));
    assert!(lex_le_exec(b"abc", b"abc"));
    assert!(lex_le_exec(b"ab", b"abc"));
    assert!(!lex_le_exec(b"abd", b"abc"));
    assert!(!lex_le_exec(b"b", b"azz"));
}

#[test]
fn split_keeps_empty_parts() {
    let parts = split_bytes(b"a;;b;", b';');
    let views: Vec<&[u8]> = parts.iter().map(|p| p.as_slice()).collect();
    assert_eq!(views, vec![&b"a"[..], &b""[..], &b"b"[..], &b""[..]]);
    let one = split_bytes(b"plain", b';');
    assert_eq!(one.len(), 1);
    assert_eq!(one[0], b"plain".to_vec());
}

#[test]
fn split_once_divides_at_first_separator() {
    let (k, v) = split_once_bytes(b"Exec=run=now", b'=').unwrap();
    assert_eq!(k, b"Exec".to_vec());
    assert_eq!(v, b"run=now".to_vec());
    assert!(split_once_bytes(b"no separator", b'=').is_none());
}

#[test]
fn decimal_rendering_of_percentages() {
    assert_eq!(dec_bytes(0), b"0".to_vec());
    assert_eq!(dec_bytes(7), b"7".to_vec());
    assert_eq!(dec_bytes(10), b"10".to_vec());
    assert_eq!(dec_bytes(87), b"87".to_vec());
    assert_eq!(dec_bytes(100), b"100".to_vec());
}

#[test]
fn byte_equality_compares_contents() {
    assert!(bytes_eq(b"same", b"same"));
    assert!(!bytes_eq(b"same", b"sameX"));
    assert!(!bytes_eq(b"same", b"samf"));
    assert!(bytes_eq(b"", b""));
}
