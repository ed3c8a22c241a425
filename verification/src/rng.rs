//! The one randomness capability the simulation uses: a uniform draw from a
//! bounded range of integers.

use vstd::prelude::*;
use rand::Rng;

verus! {

/// Relies on rand's `Rng::gen_range`: a sample from `0..bound` lies strictly
/// below `bound`.  The empty range, on which the call panics, is ruled out by
/// the precondition.  Nothing more can be promised of a random value.
#[verifier::external_body]
pub(crate) fn random_usize_below(bound: usize) -> (r: usize)
    requires
        bound >= 1,
    ensures
        r < bound,
{
    rand::thread_rng().gen_range(0..bound)
}

} // verus!
