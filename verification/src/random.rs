//! Chance. Whatever is drawn here differs from run to run, so the
//! contracts say only what holds of every draw.

use vstd::prelude::*;
use rand::Rng;

verus! {

/// `rand::Rng::gen_range` on the thread's generator: a number drawn from
/// `low..high`. The contract claims that the number is at least `low` and
/// less than `high`; the call panics on an empty range, which `requires`
/// leaves out.
#[verifier::external_body]
pub(crate) fn random_in_range(low: i32, high: i32) -> (n: i32)
    requires
        low < high,
    ensures
        low <= n < high,
{
    rand::thread_rng().gen_range(low, high)
}

/// `rand::Rng::gen_ratio` on the thread's generator: `true` with a chance
/// of `numerator` in `denominator`. The contract claims the two certain
/// cases only: always `true` when the two are equal, always `false` when
/// `numerator` is zero. The call panics on a zero denominator and on a
/// chance above one, which `requires` leaves out.
#[verifier::external_body]
pub(crate) fn random_ratio(numerator: u32, denominator: u32) -> (hit: bool)
    requires
        denominator > 0,
        numerator <= denominator,
    ensures
        numerator == denominator ==> hit,
        numerator == 0 ==> !hit,
{
    rand::thread_rng().gen_ratio(numerator, denominator)
}

/// `rand::random` at type `bool`: a fair coin. Nothing is claimed of the
/// outcome.
#[verifier::external_body]
pub(crate) fn random_bool() -> bool {
    rand::random()
}

} // verus!
