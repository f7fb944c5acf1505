//! Trusted binding to the random number generator.

use vstd::prelude::*;

verus! {

/// Relies on rand::Rng::gen_range over `0..bound` on the thread rng: a
/// value below `bound`; the call panics on an empty range, so the bound
/// must be positive.  Nothing more is assumed of the result, and two
/// calls may differ.
#[verifier::external_body]
pub(crate) fn random_below(bound: u64) -> (r: u64)
    requires
        bound > 0,
    ensures
        r < bound,
{
    rand::Rng::gen_range(&mut rand::thread_rng(), 0..bound)
}

} // verus!
