//! The only doors to randomness. Nothing here is proved: each contract says
//! what the `rand` crate documents of the call it makes, and no more.

use rand::rngs::ThreadRng;
use rand::seq::IndexedRandom;
use vstd::prelude::*;

verus! {

/// `rand::rngs::ThreadRng`, the handle to a thread's generator. Its inside
/// is of no concern to the games; they only pass it on.
#[verifier::external_type_specification]
#[verifier::external_body]
pub struct ExThreadRng(ThreadRng);

/// `rand::rng`: hands out the calling thread's generator. Which numbers it
/// will yield is not known, so nothing is claimed.
pub assume_specification[ rand::rng ]() -> (rng: ThreadRng)
;

/// `rand::random_range` on a closed interval: the value drawn lies within
/// the interval, ends included. The call panics on an empty interval,
/// which `low <= high` rules out.
#[verifier::external_body]
pub(crate) fn random_between(low: i32, high: i32) -> (n: i32)
    requires
        low <= high,
    ensures
        low <= n <= high,
{
    rand::random_range(low..=high)
}

/// `IndexedRandom::choose` on a slice: `None` for an empty slice, else one
/// of its elements. Which one is left to chance.
#[verifier::external_body]
pub(crate) fn choose_one(items: &Vec<usize>, rng: &mut ThreadRng) -> (picked: Option<usize>)
    ensures
        picked is None <==> items@.len() == 0,
        picked matches Some(n) ==> items@.contains(n),
{
    items.choose(rng).copied()
}

} // verus!
