//! Random numbers.

use rand::Rng;
use vstd::prelude::*;

verus! {

/// A random number between `low` and `high`, both included.
///
/// Calls `gen_range` of the crate `rand` on the thread's generator, with the
/// inclusive range from `low` to `high`. Nothing is proved of it: the
/// contract claims only that the number lies in that range, as `gen_range`
/// promises for a range that is not empty; which number comes is left open,
/// and two calls may differ.
#[verifier::external_body]
pub(crate) fn sample_between(low: i64, high: i64) -> (sample: i64)
    requires
        low <= high,
    ensures
        low <= sample <= high,
{
    rand::thread_rng().gen_range(low..=high)
}

/// A random number between `-bound` and `bound`, both included.
pub(crate) fn sample_within(bound: i64) -> (sample: i64)
    requires
        0 <= bound,
    ensures
        -bound <= sample <= bound,
{
    sample_between(-bound, bound)
}

} // verus!
