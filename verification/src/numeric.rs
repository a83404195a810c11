//! Numeric utilities.

use vstd::prelude::*;
use vstd::std_specs::cmp::PartialOrdSpec;
use core::cmp::Ordering;

verus! {

/// The minimum of two partially ordered values, returning the right-hand
/// side when they are incomparable.
///
/// This follows the convention of the floating-point minimum: whenever the
/// comparison yields no ordering, the right-hand side wins.
pub fn min_partial<S: PartialOrd + Copy>(lhs: S, rhs: S) -> (r: S)
    ensures
        S::obeys_partial_cmp_spec() ==> r == (if lhs.partial_cmp_spec(&rhs) matches Some(
            Ordering::Less
            | Ordering::Equal,
        ) {
            lhs
        } else {
            rhs
        }),
{
    match lhs.partial_cmp(&rhs) {
        Some(Ordering::Less) | Some(Ordering::Equal) => lhs,
        _ => rhs,
    }
}

/// The maximum of two partially ordered values, returning the right-hand
/// side when they are incomparable.
///
/// This follows the convention of the floating-point maximum: whenever the
/// comparison yields no ordering, the right-hand side wins.
pub fn max_partial<S: PartialOrd + Copy>(lhs: S, rhs: S) -> (r: S)
    ensures
        S::obeys_partial_cmp_spec() ==> r == (if lhs.partial_cmp_spec(&rhs) matches Some(
            Ordering::Greater
            | Ordering::Equal,
        ) {
            lhs
        } else {
            rhs
        }),
{
    match lhs.partial_cmp(&rhs) {
        Some(Ordering::Greater) | Some(Ordering::Equal) => lhs,
        _ => rhs,
    }
}

/// Declares rand's xorshift generator type so that it can stand in
/// signatures; its values are opaque to this crate.
#[verifier::external_type_specification]
#[verifier::external_body]
#[allow(deprecated)]
pub struct ExXorShiftRng(rand::prng::XorShiftRng);

/// An xorshift generator with a fixed default seed.
///
/// Relies on rand's `XorShiftRng::from_seed`, which builds a generator
/// from the given seed bytes; nothing is assumed about the values the
/// generator will go on to produce.  The seed is the one this crate has
/// always used for its unseeded generator.
#[verifier::external_body]
#[allow(deprecated)]
pub fn xorshift_rng_unseeded() -> rand::prng::XorShiftRng {
    <rand::prng::XorShiftRng as rand::SeedableRng>::from_seed(
        [0x19, 0x3a, 0x67, 0x54, 0xa8, 0xa7, 0xd4, 0x69, 0x97, 0x83, 0x0e, 0x05, 0x11, 0x3b, 0xa7, 0xbb],
    )
}

} // verus!
