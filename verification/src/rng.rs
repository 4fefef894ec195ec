//! Trusted boundary to the process-wide pseudo-random source.

use vstd::prelude::*;
use crate::cards::Faction;

verus! {

/// The thread-local pseudo-random generator of the `rand` crate; opaque
/// here, threaded explicitly through every sampling and shuffling call.
#[verifier::external_type_specification]
#[verifier::external_body]
pub struct ExThreadRng(rand::rngs::ThreadRng);

/// Relies on `rand::Rng::random_range` over `0..n`: it returns a value of
/// the non-empty range, so some index below `n`. Nothing more is promised of
/// a random draw.
#[verifier::external_body]
pub(crate) fn random_below(rng: &mut rand::rngs::ThreadRng, n: usize) -> (r: usize)
    requires
        n > 0,
    ensures
        r < n,
{
    <rand::rngs::ThreadRng as rand::RngExt>::random_range(rng, 0..n)
}

/// Relies on `rand::seq::SliceRandom::shuffle`: it permutes the slice in
/// place, so the multiset of elements is unchanged. Which permutation comes
/// out is not promised.
#[verifier::external_body]
pub(crate) fn shuffle_factions(rng: &mut rand::rngs::ThreadRng, v: &mut Vec<Faction>)
    ensures
        final(v)@.len() == old(v)@.len(),
        final(v)@.to_multiset() == old(v)@.to_multiset(),
{
    <[Faction] as rand::seq::SliceRandom>::shuffle(v.as_mut_slice(), rng)
}

} // verus!
