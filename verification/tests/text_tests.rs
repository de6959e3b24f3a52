use nori::text::{
    decimal_chars, parse_bool_chars, parse_unsigned_chars, replace_chars, split_chars,
    split_once_chars, trim_chars,
};

fn chars(s: &str) -> Vec<char> {
    s.chars().collect()
}

fn text(v: &Vec<char>) -> String {
    v.iter().collect()
}

#[test]
fn decimals() {
    assert_eq!(text(&decimal_chars(0)), "0");
    assert_eq!(text(&decimal_chars(1140)), "1140");
    assert_eq!(text(&decimal_chars(u128::MAX)), u128::MAX.to_string());
}

#[test]
fn parse_numbers_like_std() {
    assert_eq!(parse_unsigned_chars(&chars("42"), 255), Some(42));
    assert_eq!(parse_unsigned_chars(&chars("+12"), 255), Some(12));
    assert_eq!(parse_unsigned_chars(&chars("256"), 255), None);
    assert_eq!(parse_unsigned_chars(&chars(""), 255), None);
    assert_eq!(parse_unsigned_chars(&chars("+"), 255), None);
    assert_eq!(parse_unsigned_chars(&chars("1a"), 255), None);
    assert_eq!(parse_unsigned_chars(&chars("007"), 255), Some(7));
    assert_eq!(parse_unsigned_chars(&chars("18446744073709551615"), u64::MAX), Some(u64::MAX));
    assert_eq!(parse_unsigned_chars(&chars("18446744073709551616"), u64::MAX), None);
}

#[test]
fn parse_bools_like_std() {
    assert_eq!(parse_bool_chars(&chars("true")), Some(true));
    assert_eq!(parse_bool_chars(&chars("false")), Some(false));
    assert_eq!(parse_bool_chars(&chars("True")), None);
}

#[test]
fn split_and_trim_like_std() {
    let pieces: Vec<String> = split_chars(&chars("a--b----c"), &chars("--")).iter().map(text).collect();
    assert_eq!(pieces, vec!["a", "b", "", "c"]);
    assert_eq!(text(&trim_chars(&chars(" \t x y \n"))), "x y");
    let (a, b) = split_once_chars(&chars("k=v=w"), &chars("=")).unwrap();
    assert_eq!((text(&a), text(&b)), ("k".to_string(), "v=w".to_string()));
    assert!(split_once_chars(&chars("kv"), &chars("=")).is_none());
    assert_eq!(text(&replace_chars(&chars("aaa"), &chars("aa"), &chars("b"))), "ba");
}
