use rand::rngs::ThreadRng;
use rand::seq::SliceRandom;
use rand::Rng;
use vstd::prelude::*;

verus! {

/// The thread-local generator of the `rand` crate, carried through as an
/// opaque value.
#[verifier::external_type_specification]
#[verifier::external_body]
pub struct ExThreadRng(ThreadRng);

/// `rand::rng` hands out a handle to the thread-local generator; nothing is
/// claimed of the handle.
pub assume_specification[ rand::rng ]() -> ThreadRng;

/// Calls `Rng::random_range` on `0..bound`. The crate documents the result
/// as a value drawn from that range; the range must not be empty (the crate
/// asserts it). Which value comes out is chance and is left unsaid.
#[verifier::external_body]
pub(crate) fn random_below(rng: &mut ThreadRng, bound: u32) -> (r: u32)
    requires
        bound > 0,
    ensures
        r < bound,
{
    rng.random_range(0..bound)
}

/// Calls `SliceRandom::shuffle` on the vector. Its source is a
/// Fisher-Yates shuffle made of swaps, so the result is a permutation of
/// the input; which permutation is chance and is left unsaid.
#[verifier::external_body]
pub(crate) fn shuffle_values(values: &mut Vec<u32>, rng: &mut ThreadRng)
    ensures
        final(values)@.len() == old(values)@.len(),
        final(values)@.to_multiset() == old(values)@.to_multiset(),
{
    values.shuffle(rng)
}

} // verus!
