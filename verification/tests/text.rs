use serverhud::text::{parse_count, push_decimal, same_text};

fn decimal_text(n: u64) -> String {
    let mut out = String::new();
    push_decimal(&mut out, n);
    out
}

#[test]
fn decimal_of_single_digits() {
    assert_eq!(decimal_text(0), "0");
    assert_eq!(decimal_text(7), "7");
    assert_eq!(decimal_text(9), "9");
}

#[test]
fn decimal_of_longer_numbers() {
    assert_eq!(decimal_text(10), "10");
    assert_eq!(decimal_text(1_048), "1048");
    assert_eq!(decimal_text(9_876_543_210), "9876543210");
    assert_eq!(decimal_text(u64::MAX), "18446744073709551615");
}

#[test]
fn decimal_is_appended_to_what_is_there() {
    let mut out = String::from("rd");
    push_decimal(&mut out, 12);
    assert_eq!(out, "rd12");
}

#[test]
fn decimal_agrees_with_standard_formatting() {
    for n in [0u64, 1, 19, 100, 101, 999, 1_000, 65_535, 4_294_967_296] {
        assert_eq!(decimal_text(n), format!("{}", n));
    }
}

#[test]
fn count_is_read_from_digits() {
    assert_eq!(parse_count("0"), Some(0));
    assert_eq!(parse_count("2"), Some(2));
    assert_eq!(parse_count("16"), Some(16));
    assert_eq!(parse_count("007"), Some(7));
}

#[test]
fn count_may_carry_a_plus_sign() {
    assert_eq!(parse_count("+3"), Some(3));
    assert_eq!(parse_count("+"), None);
    assert_eq!(parse_count("++3"), None);
}

#[test]
fn count_rejects_what_is_not_a_number() {
    assert_eq!(parse_count(""), None);
    assert_eq!(parse_count("-1"), None);
    assert_eq!(parse_count("two"), None);
    assert_eq!(parse_count("2 "), None);
    assert_eq!(parse_count(" 2"), None);
    assert_eq!(parse_count("2\n"), None);
    assert_eq!(parse_count("1_000"), None);
    assert_eq!(parse_count("1.5"), None);
    assert_eq!(parse_count("\u{ff12}"), None);
}

#[test]
fn count_rejects_what_does_not_fit() {
    assert_eq!(parse_count(&format!("{}", usize::MAX)), Some(usize::MAX));
    assert_eq!(parse_count(&format!("{}0", usize::MAX)), None);
    assert_eq!(parse_count("99999999999999999999999999999999"), None);
    assert_eq!(parse_count("99999999999999999999999999999999x"), None);
}

#[test]
fn count_agrees_with_standard_parsing() {
    for text in ["", "+", "-", "0", "+0", "-0", "12", "012", "1a", "a1", "18446744073709551615",
        "18446744073709551616", "+18446744073709551615", " 1", "1 "]
    {
        assert_eq!(parse_count(text), text.parse::<usize>().ok(), "{:?}", text);
    }
}

#[test]
fn same_text_compares_whole_texts() {
    assert!(same_text("in_sync", "in_sync"));
    assert!(same_text("", ""));
    assert!(!same_text("in_sync", "in_sync "));
    assert!(!same_text("in_sync", "In_sync"));
    assert!(!same_text("0", ""));
}
