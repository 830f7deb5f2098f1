//! Random draws from the thread-local generator of `rand`.

use vstd::prelude::*;

verus! {

/// A uniform draw from the closed range `lo..=hi`, made by `rand::random_range`.
///
/// Trusted: the contract claims only that the draw lies in the range, which is
/// what `rand` documents; which value comes back rests on chance.
/// `random_range` panics on an empty range, so the range must not be empty.
#[verifier::external_body]
pub fn random_in(lo: i64, hi: i64) -> (r: i64)
    requires
        lo <= hi,
    ensures
        lo <= r <= hi,
{
    rand::random_range(lo..=hi)
}

/// A draw that is `true` with probability `numerator / denominator`, made by
/// `rand::random_ratio`.
///
/// Trusted: nothing is claimed of the outcome, which rests on chance.
/// `random_ratio` panics when the denominator is zero or below the numerator.
#[verifier::external_body]
pub fn random_ratio(numerator: u32, denominator: u32) -> (r: bool)
    requires
        0 < denominator,
        numerator <= denominator,
{
    rand::random_ratio(numerator, denominator)
}

} // verus!
