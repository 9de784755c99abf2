//! Random reordering, done by the `rand` crate.
//!
//! Nothing in this file is proved: it states what the rest of the library
//! takes on trust from `rand`.

use crate::card::Card;
use rand::rngs::ThreadRng;
use rand::seq::SliceRandom;
use vstd::prelude::*;

verus! {

/// `rand::rngs::ThreadRng`, a handle to the random number generator of the
/// current thread. Its state is hidden and nothing is claimed of it.
#[verifier::external_type_specification]
#[verifier::external_body]
pub struct ExThreadRng(rand::rngs::ThreadRng);

/// `rand::thread_rng` returns a handle to the generator of the current
/// thread, which the operating system seeds on first use. Nothing is claimed
/// of the handle. Where the operating system cannot supply a seed, `rand`
/// panics on the first use in a thread.
pub assume_specification[ rand::thread_rng ]() -> (rng: ThreadRng);

/// `rand::seq::SliceRandom::shuffle` on the slice of `cards`. It only swaps
/// pairs of elements, at places drawn from `rng`, so the cards afterwards are
/// the cards before in some order. Which order is not determined here.
#[verifier::external_body]
pub(crate) fn shuffle_cards(cards: &mut Vec<Card>, rng: &mut ThreadRng)
    ensures
        final(cards)@.to_multiset() == old(cards)@.to_multiset(),
{
    cards.shuffle(rng);
}

} // verus!
