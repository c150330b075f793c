//! The boundary to the `rand` crate: the deterministic generator the game is
//! seeded with, the in-place shuffle, and the uniform pick among eligible
//! player indices.

use vstd::prelude::*;
use rand::SeedableRng;
use rand::seq::SliceRandom;
use crate::card::Card;

verus! {

#[verifier::external_type_specification]
#[verifier::external_body]
pub struct ExStdRng(rand::rngs::StdRng);

/// Relies on rand's `StdRng::seed_from_u64` (via `SeedableRng`): builds a
/// generator from a word-sized seed. Nothing is claimed of the stream it
/// yields.
#[verifier::external_body]
pub(crate) fn rng_from_seed(seed: u64) -> rand::rngs::StdRng {
    rand::rngs::StdRng::seed_from_u64(seed)
}

/// Relies on rand's `SliceRandom::shuffle`: a Fisher-Yates pass of in-place
/// swaps, so the slice afterwards holds the same cards, permuted.
#[verifier::external_body]
pub(crate) fn shuffle_vec(cards: &mut Vec<Card>, rng: &mut rand::rngs::StdRng)
    ensures
        final(cards)@.len() == old(cards)@.len(),
        final(cards)@.to_multiset() == old(cards)@.to_multiset(),
{
    cards.as_mut_slice().shuffle(rng);
}

/// Relies on rand's `SliceRandom::choose`: `Some` of an element of the slice
/// whenever the slice is non-empty (`None` only on an empty slice, which the
/// precondition rules out).
#[verifier::external_body]
pub(crate) fn choose_index(indices: &Vec<usize>, rng: &mut rand::rngs::StdRng) -> (r: usize)
    requires
        indices@.len() > 0,
    ensures
        indices@.contains(r),
{
    *indices.as_slice().choose(rng).unwrap()
}

} // verus!
