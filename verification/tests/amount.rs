use spending_counter::amount::{amount_from_chars, is_digit_char, match_amount};

fn chars(s: &str) -> Vec<char> {
    s.chars().collect()
}

#[test]
fn amount_with_a_point_is_dollars_and_cents() {
    assert_eq!(amount_from_chars(&chars("32.30")), Some(3230));
    assert_eq!(amount_from_chars(&chars("0.00")), Some(0));
    assert_eq!(amount_from_chars(&chars("0.07")), Some(7));
    assert_eq!(amount_from_chars(&chars("007.10")), Some(710));
    assert_eq!(amount_from_chars(&chars("48629.99")), Some(4862999));
}

#[test]
fn amount_of_digits_alone_is_whole_dollars() {
    assert_eq!(amount_from_chars(&chars("1234")), Some(123400));
    assert_eq!(amount_from_chars(&chars("0000")), Some(0));
    assert_eq!(amount_from_chars(&chars("123")), None);
}

#[test]
fn amount_with_an_exponent_is_scaled() {
    assert_eq!(amount_from_chars(&chars("5e03")), Some(500000));
    assert_eq!(amount_from_chars(&chars("5E00")), Some(500));
    assert_eq!(amount_from_chars(&chars("12e01")), Some(12000));
    assert_eq!(amount_from_chars(&chars("0e99")), Some(0));
    assert_eq!(amount_from_chars(&chars("1e17")), Some(10_000_000_000_000_000_000));
    assert_eq!(amount_from_chars(&chars("1e18")), None);
    assert_eq!(amount_from_chars(&chars("2e17")), None);
}

#[test]
fn amount_is_refused_where_malformed() {
    assert_eq!(amount_from_chars(&chars("")), None);
    assert_eq!(amount_from_chars(&chars(".30")), None);
    assert_eq!(amount_from_chars(&chars("1.3")), None);
    assert_eq!(amount_from_chars(&chars("1.3a")), None);
    assert_eq!(amount_from_chars(&chars("1a.30")), None);
    assert_eq!(amount_from_chars(&chars("1,30")), None);
    assert_eq!(amount_from_chars(&chars("1 30")), None);
    assert_eq!(amount_from_chars(&chars("-1.30")), None);
    assert_eq!(amount_from_chars(&chars("1.30 ")), None);
    assert_eq!(amount_from_chars(&chars("\u{663}.30")), None);
}

#[test]
fn amount_is_refused_where_too_large() {
    assert_eq!(amount_from_chars(&chars("184467440737095516.15")), Some(u64::MAX));
    assert_eq!(amount_from_chars(&chars("184467440737095516.16")), None);
    assert_eq!(amount_from_chars(&chars("184467440737095517.00")), None);
    assert_eq!(amount_from_chars(&chars("184467440737095516")), Some(18446744073709551600));
    assert_eq!(amount_from_chars(&chars("184467440737095517")), None);
    assert_eq!(amount_from_chars(&chars("99999999999999999999999999.00")), None);
    assert_eq!(amount_from_chars(&chars("00000000000000000000000001.00")), Some(100));
}

#[test]
fn match_amount_skips_the_prefix() {
    assert_eq!(match_amount(&chars("-$32.30")), Some(3230));
    assert_eq!(match_amount(&chars("xy32.30")), Some(3230));
    assert_eq!(match_amount(&chars("-$")), None);
    assert_eq!(match_amount(&chars("-")), None);
    assert_eq!(match_amount(&chars("")), None);
    assert_eq!(match_amount(&chars("32.30")), None);
}

#[test]
fn digits_are_the_ascii_digits() {
    assert!(is_digit_char('0'));
    assert!(is_digit_char('9'));
    assert!(!is_digit_char('/'));
    assert!(!is_digit_char(':'));
    assert!(!is_digit_char('\u{663}'));
}
