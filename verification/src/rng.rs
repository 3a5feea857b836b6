//! The injected source of randomness: one trusted draw primitive.

use vstd::prelude::*;
use rand::Rng;

verus! {

/// Relies on `rand::Rng::gen_range` on the thread-local generator: a draw
/// from `lo..hi`; every draw lies in that half-open range.
#[verifier::external_body]
pub(crate) fn rand_range(lo: i128, hi: i128) -> (r: i128)
    requires
        lo < hi,
    ensures
        lo <= r < hi,
{
    rand::thread_rng().gen_range(lo..hi)
}

} // verus!
