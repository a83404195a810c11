//! Tests for the numeric helpers and the seeded generator.

use rand::RngCore;
use rs_utils::numeric::{max_partial, min_partial, xorshift_rng_unseeded};

#[test]
fn min_partial_orders_comparable_values() {
    assert_eq!(min_partial(1, 2), 1);
    assert_eq!(min_partial(2, 1), 1);
    assert_eq!(min_partial(3, 3), 3);
    assert_eq!(min_partial(-1.5f32, 0.25f32), -1.5f32);
}

#[test]
fn max_partial_orders_comparable_values() {
    assert_eq!(max_partial(1, 2), 2);
    assert_eq!(max_partial(2, 1), 2);
    assert_eq!(max_partial(3, 3), 3);
    assert_eq!(max_partial(-1.5f32, 0.25f32), 0.25f32);
}

#[test]
fn incomparable_values_yield_the_right_hand_side() {
    assert_eq!(min_partial(f32::NAN, 1.0f32), 1.0f32);
    assert_eq!(max_partial(f32::NAN, 1.0f32), 1.0f32);
    assert!(min_partial(1.0f32, f32::NAN).is_nan());
    assert!(max_partial(1.0f32, f32::NAN).is_nan());
}

#[test]
fn unseeded_xorshift_always_starts_the_same() {
    let mut xorshift = xorshift_rng_unseeded();
    let mut fill_bytes = [0u8; 16];
    xorshift.fill_bytes(&mut fill_bytes[..]);
    assert_eq!(
        fill_bytes,
        [
            0x8e, 0x69, 0x7d, 0xd6, 0x0e, 0x7d, 0x58, 0x1a, 0xe9, 0x57, 0x3b, 0x6b, 0x2c, 0x96,
            0xc6, 0xe9
        ]
    );
}
