//! Uniformly distributed random numbers, drawn through the `rand` crate.

use vstd::prelude::*;

use rand::Rng;

verus! {

/// Generates a random number in the range `[left, right)`.
///
/// Relies on `rand::distributions::Uniform::new` and `rand::Rng::sample`:
/// `Uniform::new(low, high)` samples uniformly from the half-open range
/// `[low, high)` and panics when `low >= high`, which the precondition rules
/// out.  Nothing beyond the range of the result is promised of a random
/// draw.
#[verifier::external_body]
pub fn range(left: u64, right: u64) -> (r: u64)
    requires
        left < right,
    ensures
        left <= r < right,
{
    let mut rng = rand::thread_rng();
    rng.sample(rand::distributions::Uniform::new(left, right))
}

/// Generates a random number in the range `[left, right]`.
///
/// Relies on `rand::distributions::Uniform::new_inclusive` and
/// `rand::Rng::sample`: `Uniform::new_inclusive(low, high)` samples uniformly
/// from the closed range `[low, high]` and panics when `low > high`, which
/// the precondition rules out.
#[verifier::external_body]
pub fn range_inclusive(left: u64, right: u64) -> (r: u64)
    requires
        left <= right,
    ensures
        left <= r <= right,
{
    let mut rng = rand::thread_rng();
    rng.sample(rand::distributions::Uniform::new_inclusive(left, right))
}

} // verus!
