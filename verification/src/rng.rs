//! Random sampling, through the `rand` crate. These two wrappers are the only
//! unverified code in the library; everything that consumes their results is
//! verified for every value the contracts admit.

use rand::Rng;
use vstd::prelude::*;

verus! {

/// Relies on `rand::Rng::gen_range` over `0..bound`: it returns a uniformly
/// sampled integer of that range. The bound is positive, so the range is
/// non-empty and the call cannot panic. Which value comes back is chance;
/// only the range is stated.
#[verifier::external_body]
pub(crate) fn sample_below(bound: i32) -> (r: i32)
    requires
        bound > 0,
    ensures
        0 <= r < bound,
{
    rand::thread_rng().gen_range(0..bound)
}

/// Relies on `rand::Rng::gen_ratio` with numerator 1 and denominator 10: a
/// Bernoulli draw that is `true` with probability one in ten. The numerator
/// does not exceed the denominator, so the call cannot panic. Nothing can be
/// promised of a single random draw, so nothing more is stated.
#[verifier::external_body]
pub(crate) fn sample_one_in_ten() -> bool {
    rand::thread_rng().gen_ratio(1, 10)
}

} // verus!
