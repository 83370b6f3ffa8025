use context_maintainer::text::{chars_of, decimal_string, parse_usize, push_decimal};

#[test]
fn decimal_string_of_zero() {
    assert_eq!(decimal_string(0), "0");
}

#[test]
fn decimal_string_of_single_digits() {
    assert_eq!(decimal_string(7), "7");
    assert_eq!(decimal_string(9), "9");
}

#[test]
fn decimal_string_of_longer_numbers() {
    assert_eq!(decimal_string(10), "10");
    assert_eq!(decimal_string(12345), "12345");
    assert_eq!(decimal_string(1000000), "1000000");
}

#[test]
fn decimal_string_of_largest_number() {
    assert_eq!(decimal_string(u64::MAX), "18446744073709551615");
}

#[test]
fn push_decimal_appends() {
    let mut s = String::from("monitor-");
    push_decimal(&mut s, 42);
    assert_eq!(s, "monitor-42");
}

#[test]
fn chars_of_keeps_order_and_non_ascii() {
    assert_eq!(chars_of("aé漢"), vec!['a', 'é', '漢']);
    assert_eq!(chars_of(""), Vec::<char>::new());
}

#[test]
fn parse_usize_reads_digits() {
    assert_eq!(parse_usize("0"), Some(0));
    assert_eq!(parse_usize("42"), Some(42));
    assert_eq!(parse_usize("007"), Some(7));
}

#[test]
fn parse_usize_accepts_a_plus_sign() {
    assert_eq!(parse_usize("+7"), Some(7));
}

#[test]
fn parse_usize_rejects_what_is_no_numeral() {
    assert_eq!(parse_usize(""), None);
    assert_eq!(parse_usize("+"), None);
    assert_eq!(parse_usize("-"), None);
    assert_eq!(parse_usize("-1"), None);
    assert_eq!(parse_usize("++1"), None);
    assert_eq!(parse_usize("1_000"), None);
    assert_eq!(parse_usize(" 1"), None);
    assert_eq!(parse_usize("1 "), None);
    assert_eq!(parse_usize("12a"), None);
    assert_eq!(parse_usize("١٢"), None);
}

#[test]
fn parse_usize_rejects_what_does_not_fit() {
    assert_eq!(parse_usize("340282366920938463463374607431768211456"), None);
    assert_eq!(parse_usize(&usize::MAX.to_string()), Some(usize::MAX));
    let mut too_large = usize::MAX.to_string();
    too_large.push('0');
    assert_eq!(parse_usize(&too_large), None);
}

#[test]
fn parse_usize_agrees_with_the_standard_parser() {
    let samples = [
        "0", "1", "+1", "-0", "+0", "00", "18446744073709551615", "18446744073709551616", "", "+",
        "9x", "x9", "4294967295", "4294967296",
    ];
    for s in samples {
        assert_eq!(parse_usize(s), s.parse::<usize>().ok(), "{}", s);
    }
}

#[test]
fn parse_reads_back_what_decimal_string_writes() {
    for n in [0u64, 1, 9, 10, 99, 100, 65535, 4294967295] {
        assert_eq!(parse_usize(&decimal_string(n)), Some(n as usize));
    }
}
