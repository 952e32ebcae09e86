//! The random choices of the scheduler and of the city, drawn from `rand`'s
//! thread-local generator.

use vstd::prelude::*;

verus! {

/// Calls `rand::random_range(low..high)`: a number drawn uniformly from the
/// half-open range. `rand` documents that the result lies in the range and
/// that an empty range panics, so the range must not be empty. Which number
/// comes out is chance, and no clause says which.
#[verifier::external_body]
pub(crate) fn random_below(low: u64, high: u64) -> (r: u64)
    requires
        low < high,
    ensures
        low <= r < high,
{
    rand::random_range(low..high)
}

/// Calls `rand::random_ratio(numerator, denominator)`: `true` with chance
/// `numerator / denominator`. `rand` documents that it panics when the
/// denominator is 0 or the numerator exceeds it, that it is always `true`
/// when both are equal and always `false` when the numerator is 0.
#[verifier::external_body]
pub(crate) fn random_chance(numerator: u32, denominator: u32) -> (r: bool)
    requires
        0 < denominator,
        numerator <= denominator,
    ensures
        numerator == denominator ==> r,
        numerator == 0 ==> !r,
{
    rand::random_ratio(numerator, denominator)
}

} // verus!
