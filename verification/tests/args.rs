//! Tests for the key/value argument splitter.

use rs_utils::app::parse_key_val;

#[test]
fn splits_at_the_first_equals_sign() {
    assert_eq!(
        parse_key_val("module=debug"),
        Some(("module".to_string(), "debug".to_string()))
    );
    assert_eq!(
        parse_key_val("a=b=c"),
        Some(("a".to_string(), "b=c".to_string()))
    );
}

#[test]
fn empty_key_or_value_is_kept() {
    assert_eq!(
        parse_key_val("=v"),
        Some(("".to_string(), "v".to_string()))
    );
    assert_eq!(
        parse_key_val("k="),
        Some(("k".to_string(), "".to_string()))
    );
}

#[test]
fn text_without_equals_sign_does_not_split() {
    assert_eq!(parse_key_val("module"), None);
    assert_eq!(parse_key_val(""), None);
}
