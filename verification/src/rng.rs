//! Trusted access to the process random number generator.

use rand::Rng;
use vstd::prelude::*;

verus! {

/// Relies on `rand::Rng::gen_range` (on `rand::thread_rng()`): returns a
/// value in the half-open range `lo..hi`, and panics only when the range
/// is empty, which the precondition excludes. Nothing is promised about
/// the distribution.
#[verifier::external_body]
pub(crate) fn rand_range(lo: i32, hi: i32) -> (r: i32)
    requires
        lo < hi,
    ensures
        lo <= r < hi,
{
    rand::thread_rng().gen_range(lo..hi)
}

/// Relies on `rand::random::<bool>`: a coin toss. Nothing is promised of
/// the outcome, and callers must be correct for either.
#[verifier::external_body]
pub(crate) fn rand_coin() -> bool {
    rand::random::<bool>()
}

} // verus!
