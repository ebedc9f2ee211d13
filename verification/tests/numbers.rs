use rodo::decimal::{parse_number, render_number};
use rodo::text::same_text;

#[test]
fn numbers_are_written_without_leading_zeros() {
    assert_eq!(render_number(0), "0");
    assert_eq!(render_number(7), "7");
    assert_eq!(render_number(10), "10");
    assert_eq!(render_number(1203), "1203");
    assert_eq!(render_number(4294967295), "4294967295");
}

#[test]
fn digits_are_read_as_their_number() {
    assert_eq!(parse_number("0"), Some(0));
    assert_eq!(parse_number("9"), Some(9));
    assert_eq!(parse_number("42"), Some(42));
    assert_eq!(parse_number("1203"), Some(1203));
}

#[test]
fn leading_zeros_and_a_plus_sign_are_accepted() {
    assert_eq!(parse_number("007"), Some(7));
    assert_eq!(parse_number("+5"), Some(5));
    assert_eq!(parse_number("+0012"), Some(12));
    assert_eq!(parse_number("00000000000000000000000001"), Some(1));
}

#[test]
fn the_largest_number_is_read_and_the_next_is_not() {
    assert_eq!(parse_number("4294967295"), Some(4294967295));
    assert_eq!(parse_number("4294967296"), None);
    assert_eq!(parse_number("99999999999999999999999999"), None);
    assert_eq!(parse_number("42949672950"), None);
}

#[test]
fn what_is_no_number_is_refused() {
    assert_eq!(parse_number(""), None);
    assert_eq!(parse_number("+"), None);
    assert_eq!(parse_number("-1"), None);
    assert_eq!(parse_number("++1"), None);
    assert_eq!(parse_number("1+"), None);
    assert_eq!(parse_number("12a"), None);
    assert_eq!(parse_number("a12"), None);
    assert_eq!(parse_number(" 1"), None);
    assert_eq!(parse_number("1 "), None);
    assert_eq!(parse_number("1_000"), None);
    assert_eq!(parse_number("0x10"), None);
    assert_eq!(parse_number("1.0"), None);
    assert_eq!(parse_number("\u{ff11}"), None);
    assert_eq!(parse_number("1\u{e9}"), None);
}

#[test]
fn a_written_number_is_read_back() {
    for n in [0u32, 1, 9, 10, 99, 100, 65535, 65536, 999999999, 4294967294, 4294967295] {
        assert_eq!(parse_number(&render_number(n)), Some(n));
    }
}

#[test]
fn texts_are_the_same_when_their_characters_are() {
    assert!(same_text("", ""));
    assert!(same_text("TODO", "TODO"));
    assert!(same_text("caf\u{e9}", "caf\u{e9}"));
    assert!(!same_text("TODO", "TODo"));
    assert!(!same_text("TODO", "TODO "));
    assert!(!same_text("", "a"));
}
