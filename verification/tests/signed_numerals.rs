//! The signed decimal text capability of `i64`, including both extremes and
//! its behaviour through the decode pipeline.

use vibesort::decode_content;
use vibesort::SortElement;
use vibesort::signed::{i64_from_text, i64_to_text};

#[test]
fn renders_signed_numerals() {
    assert_eq!(i64_to_text(0), "0");
    assert_eq!(i64_to_text(-7), "-7");
    assert_eq!(i64_to_text(420), "420");
    assert_eq!(i64_to_text(i64::MIN), "-9223372036854775808");
    assert_eq!(i64_to_text(i64::MAX), "9223372036854775807");
}

#[test]
fn reconstructs_signed_numerals() {
    assert_eq!(i64_from_text("-7"), Some(-7));
    assert_eq!(i64_from_text("-0"), Some(0));
    assert_eq!(i64_from_text("-9223372036854775808"), Some(i64::MIN));
    assert_eq!(i64_from_text("9223372036854775807"), Some(i64::MAX));
}

#[test]
fn rejects_out_of_range_and_malformed_text() {
    assert_eq!(i64_from_text(""), None);
    assert_eq!(i64_from_text("-"), None);
    assert_eq!(i64_from_text("--4"), None);
    assert_eq!(i64_from_text("+4"), None);
    assert_eq!(i64_from_text("-9223372036854775809"), None);
    assert_eq!(i64_from_text("9223372036854775808"), None);
}

#[test]
fn signed_capability_round_trip() {
    for n in [i64::MIN, -420, -1, 0, 1, 419, i64::MAX] {
        let text = n.to_text();
        assert_eq!(<i64 as SortElement>::from_text(&text), Some(n));
    }
}

#[test]
fn signed_collections_decode() {
    let out = decode_content::<i64>("[-3, -1, 0, 2]").unwrap();
    assert_eq!(out, vec![-3, -1, 0, 2]);
}
