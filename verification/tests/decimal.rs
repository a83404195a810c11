//! Tests for the decimal numeral formatter.

use rs_utils::decimal::u64_to_dec;

#[test]
fn zero_is_a_single_digit() {
    assert_eq!(u64_to_dec(0), "0");
}

#[test]
fn single_digits_render_directly() {
    assert_eq!(u64_to_dec(7), "7");
    assert_eq!(u64_to_dec(9), "9");
}

#[test]
fn multi_digit_numbers_render_most_significant_first() {
    assert_eq!(u64_to_dec(10), "10");
    assert_eq!(u64_to_dec(170), "170");
    assert_eq!(u64_to_dec(1234567890), "1234567890");
}

#[test]
fn the_largest_value_renders_fully() {
    assert_eq!(u64_to_dec(u64::MAX), "18446744073709551615");
}
