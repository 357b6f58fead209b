//! The random source of the game: the shuffle of the dungeon deck.

use vstd::prelude::*;

use rand::rngs::ThreadRng;
use rand::seq::SliceRandom;

use crate::card::Card;

verus! {

/// The random generator of the current thread, from `rand`.
#[verifier::external_type_specification]
#[verifier::external_body]
pub struct ExThreadRng(ThreadRng);

/// Calls `rand::rng`, which hands out the random generator of the current
/// thread. Nothing is claimed of it. The first call in a thread seeds the
/// generator from the operating system and panics where that source cannot
/// be read; no condition here rules that out.
#[verifier::external_body]
pub(crate) fn thread_rng() -> ThreadRng {
    rand::rng()
}

/// Calls `SliceRandom::shuffle` on the deck. Claimed: the deck afterwards
/// holds the same cards as before, each as often (the shuffle only swaps
/// cards); their order is left open, as it rests on chance. Drawing from
/// the generator reseeds it from the operating system now and then, and
/// panics where that source cannot be read; no condition here rules that out.
#[verifier::external_body]
pub(crate) fn shuffle_cards(deck: &mut Vec<Card>, rng: &mut ThreadRng)
    ensures
        final(deck)@.to_multiset() == old(deck)@.to_multiset(),
{
    deck.shuffle(rng)
}

} // verus!
