//! Trusted declarations for the random source used to seed a fresh grid.

use vstd::prelude::*;

verus! {

#[verifier::external_type_specification]
#[verifier::external_body]
pub struct ExThreadRng(rand::rngs::ThreadRng);

/// Relies on rand's `RngExt::random_ratio`: returns a bool that is true with
/// probability `numerator / denominator`. Nothing is promised of the result:
/// it is random. `random_ratio` panics when `denominator == 0` or
/// `numerator > denominator`, so those inputs are excluded here.
#[verifier::external_body]
pub(crate) fn draw_live(
    rng: &mut rand::rngs::ThreadRng,
    numerator: u32,
    denominator: u32,
) -> bool
    requires
        0 < denominator,
        numerator <= denominator,
{
    rand::RngExt::random_ratio(rng, numerator, denominator)
}

} // verus!
