use reqx::text::{
    chars_of, decimal_chars, find_chars, has_prefix, matches_at, parse_index, same_chars,
    same_text, signed_decimal_chars, slice_chars, trim_chars,
};

fn text(chars: Vec<char>) -> String {
    chars.into_iter().collect()
}

#[test]
fn chars_of_keeps_order() {
    assert_eq!(chars_of("héllo"), vec!['h', 'é', 'l', 'l', 'o']);
    assert_eq!(chars_of(""), Vec::<char>::new());
}

#[test]
fn decimal_of_numbers() {
    assert_eq!(text(decimal_chars(0)), "0");
    assert_eq!(text(decimal_chars(7)), "7");
    assert_eq!(text(decimal_chars(10)), "10");
    assert_eq!(text(decimal_chars(404)), "404");
    assert_eq!(text(decimal_chars(u64::MAX)), "18446744073709551615");
}

#[test]
fn signed_decimal_of_numbers() {
    assert_eq!(text(signed_decimal_chars(0)), "0");
    assert_eq!(text(signed_decimal_chars(-1)), "-1");
    assert_eq!(text(signed_decimal_chars(1700000000)), "1700000000");
    assert_eq!(text(signed_decimal_chars(i64::MIN)), "-9223372036854775808");
    assert_eq!(text(signed_decimal_chars(i64::MAX)), "9223372036854775807");
}

#[test]
fn parse_index_accepts_digits() {
    assert_eq!(parse_index(&chars_of("0")), Some(0));
    assert_eq!(parse_index(&chars_of("42")), Some(42));
    assert_eq!(parse_index(&chars_of("007")), Some(7));
    assert_eq!(parse_index(&chars_of("+5")), Some(5));
}

#[test]
fn parse_index_rejects_the_rest() {
    assert_eq!(parse_index(&chars_of("")), None);
    assert_eq!(parse_index(&chars_of("+")), None);
    assert_eq!(parse_index(&chars_of("-1")), None);
    assert_eq!(parse_index(&chars_of("1a")), None);
    assert_eq!(parse_index(&chars_of(" 1")), None);
    assert_eq!(parse_index(&chars_of("1_000")), None);
    assert_eq!(parse_index(&chars_of("*")), None);
}

#[test]
fn parse_index_at_the_limit() {
    let max = usize::MAX.to_string();
    assert_eq!(parse_index(&chars_of(&max)), Some(usize::MAX));
    let over = format!("{}0", max);
    assert_eq!(parse_index(&chars_of(&over)), None);
    assert_eq!(parse_index(&chars_of("99999999999999999999999999")), None);
}

#[test]
fn same_and_different() {
    assert!(same_text("abc", "abc"));
    assert!(!same_text("abc", "abd"));
    assert!(!same_text("abc", "ab"));
    assert!(same_text("", ""));
    assert!(same_chars(&['a'], &['a']));
    assert!(!same_chars(&['a'], &['b']));
}

#[test]
fn prefixes_and_occurrences() {
    let s = chars_of("body.items");
    assert!(has_prefix(&s, "body."));
    assert!(has_prefix(&s, ""));
    assert!(!has_prefix(&s, "body["));
    assert!(!has_prefix(&chars_of("bod"), "body"));
    assert!(matches_at(&s, &chars_of("items"), 5));
    assert!(!matches_at(&s, &chars_of("items"), 6));
    assert!(!matches_at(&s, &chars_of("items"), 100));
    assert!(matches_at(&s, &[], 10));
}

#[test]
fn find_first_occurrence() {
    let s = chars_of("a | b | c");
    assert_eq!(find_chars(&s, &chars_of(" | ")), Some(1));
    assert_eq!(find_chars(&s, &chars_of("c")), Some(8));
    assert_eq!(find_chars(&s, &chars_of("x")), None);
    assert_eq!(find_chars(&s, &[]), Some(0));
    assert_eq!(find_chars(&[], &[]), Some(0));
    assert_eq!(find_chars(&[], &['a']), None);
}

#[test]
fn slice_of_chars() {
    let s = chars_of("hello");
    assert_eq!(text(slice_chars(&s, 1, 3)), "el");
    assert_eq!(text(slice_chars(&s, 0, 5)), "hello");
    assert_eq!(text(slice_chars(&s, 2, 2)), "");
}

#[test]
fn trim_strips_white_space() {
    assert_eq!(text(trim_chars(&chars_of("  a b \t\n"))), "a b");
    assert_eq!(text(trim_chars(&chars_of("a"))), "a");
    assert_eq!(text(trim_chars(&chars_of("   "))), "");
    assert_eq!(text(trim_chars(&chars_of(""))), "");
    assert_eq!(text(trim_chars(&chars_of("\u{a0}x\u{3000}"))), "x");
}
