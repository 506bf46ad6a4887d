//! Random placement for timer-driven spawns.

use vstd::prelude::*;
use rand::Rng;

verus! {

/// Relies on rand's `Rng::gen_range` over `lo..hi` on `i64`: the sample
/// always lies in `[lo, hi)`. It panics only on an empty range, which the
/// precondition rules out. Nothing more is assumed of the value: callers
/// hold for every outcome in the range.
#[verifier::external_body]
pub(crate) fn random_in_range(lo: i64, hi: i64) -> (r: i64)
    requires
        lo < hi,
    ensures
        lo <= r < hi,
{
    rand::thread_rng().gen_range(lo..hi)
}

} // verus!
