//! Random draws used by the spawners.  The calls into the random number
//! generator are the only ones here; everything that depends on a drawn
//! value is verified for every value the contracts admit.

use vstd::prelude::*;

verus! {

/// Relies on `rand::Rng::gen_range` over a closed `i64` range: the sample
/// lies in the range.  The call panics on an empty range, which the
/// precondition rules out.  Nothing more is promised of a random value.
#[verifier::external_body]
pub(crate) fn rand_range_i64(lo: i64, hi: i64) -> (r: i64)
    requires
        lo <= hi,
    ensures
        lo <= r <= hi,
{
    rand::Rng::gen_range(&mut rand::thread_rng(), lo..=hi)
}

/// Relies on `rand::random::<bool>` for a coin flip; nothing is promised of
/// the value.
#[verifier::external_body]
pub(crate) fn rand_coin() -> (r: bool) {
    rand::random::<bool>()
}

} // verus!
