//! Chance.

use vstd::prelude::*;
use rand::Rng;

verus! {

/// `rand::Rng::gen_range` on `rand::thread_rng()`, with the inclusive range
/// from `low` to `high`. Assumed: the number drawn lies in that range. The
/// range must not be empty.
#[verifier::external_body]
pub(crate) fn random_in_range(low: i32, high: i32) -> (n: i32)
    requires
        low <= high,
    ensures
        low <= n <= high,
{
    rand::thread_rng().gen_range(low..=high)
}

/// `rand::random` for a `bool`: a fair coin. Nothing is assumed of the
/// outcome.
#[verifier::external_body]
pub(crate) fn random_bool() -> bool {
    rand::random::<bool>()
}

/// `rand::Rng::gen_ratio` on `rand::thread_rng()`: `true` with a chance of
/// `numerator` in `denominator`. Assumed: a chance of the whole gives
/// `true`, a chance of nothing `false`. The denominator must not be 0, nor
/// the numerator larger than it.
#[verifier::external_body]
pub(crate) fn random_ratio(numerator: u32, denominator: u32) -> (b: bool)
    requires
        0 < denominator,
        numerator <= denominator,
    ensures
        numerator == denominator ==> b,
        numerator == 0 ==> !b,
{
    rand::thread_rng().gen_ratio(numerator, denominator)
}

} // verus!
