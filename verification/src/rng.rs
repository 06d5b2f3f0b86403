//! Trusted wrappers around the `rand` crate.  Nothing is promised about
//! the distribution of the results; callers state what holds of every
//! possible outcome.

use vstd::prelude::*;

use rand::Rng;

verus! {

/// Relies on `rand::Rng::gen_range` on the thread-local generator: for a
/// non-empty half-open range `lo..hi` it returns a value of the range (it
/// panics on an empty range, which the precondition rules out).
#[verifier::external_body]
pub(crate) fn rand_range(lo: i32, hi: i32) -> (r: i32)
    requires
        lo < hi,
    ensures
        lo <= r < hi,
{
    rand::thread_rng().gen_range(lo..hi)
}

/// Relies on `rand::random::<bool>`: a coin flip; nothing is promised of
/// the outcome.
#[verifier::external_body]
pub(crate) fn rand_bool() -> (r: bool) {
    rand::random::<bool>()
}

} // verus!
