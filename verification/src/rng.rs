//! Randomness, taken on trust from the `rand` crate. Nothing can be said
//! about which value comes back, only about its range, so every caller is
//! verified for all admissible outcomes.
use vstd::prelude::*;

verus! {

/// Relies on `rand::Rng::gen_range` over the thread-local generator: a
/// sample from the half-open range `0..n`, which `n > 0` keeps non-empty.
#[verifier::external_body]
pub(crate) fn rand_below(n: u64) -> (r: u64)
    requires
        n > 0,
    ensures
        r < n,
{
    rand::Rng::gen_range(&mut rand::thread_rng(), 0..n)
}

} // verus!
