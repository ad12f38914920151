//! The decimal text capability of `u64`: rendering, reconstruction, and the
//! exact boundary at the largest value.

use vibesort::SortElement;
use vibesort::numeral::{u64_from_text, u64_to_text};

#[test]
fn renders_base_ten_numerals() {
    assert_eq!(u64_to_text(0), "0");
    assert_eq!(u64_to_text(7), "7");
    assert_eq!(u64_to_text(420), "420");
    assert_eq!(u64_to_text(u64::MAX), "18446744073709551615");
}

#[test]
fn reconstructs_digit_strings() {
    assert_eq!(u64_from_text("0"), Some(0));
    assert_eq!(u64_from_text("420"), Some(420));
    assert_eq!(u64_from_text("007"), Some(7));
    assert_eq!(u64_from_text("18446744073709551615"), Some(u64::MAX));
}

#[test]
fn rejects_non_numerals_and_overflow() {
    assert_eq!(u64_from_text(""), None);
    assert_eq!(u64_from_text("+5"), None);
    assert_eq!(u64_from_text("-5"), None);
    assert_eq!(u64_from_text("4 5"), None);
    assert_eq!(u64_from_text("12a"), None);
    assert_eq!(u64_from_text("18446744073709551616"), None);
    assert_eq!(u64_from_text("99999999999999999999999"), None);
}

#[test]
fn capability_round_trip() {
    for n in [0u64, 1, 9, 10, 419, 420, u64::MAX - 1, u64::MAX] {
        let text = n.to_text();
        assert_eq!(<u64 as SortElement>::from_text(&text), Some(n));
    }
}
