//! The random stream: the generator type and the draws made from it.
use vstd::prelude::*;

use rand::seq::SliceRandom;
use rand::Rng;
use rand::SeedableRng;

use rand::rngs::StdRng;

use crate::cards::Card;

verus! {

/// rand's standard generator, carried through as an opaque value.
#[verifier::external_type_specification]
#[verifier::external_body]
pub struct ExStdRng(rand::rngs::StdRng);

/// uuid's identifier, carried through as an opaque value.
#[verifier::external_type_specification]
#[verifier::external_body]
pub struct ExUuid(uuid::Uuid);

/// Relies on `Uuid::new_v4`: a random identifier.
#[verifier::external_body]
pub(crate) fn fresh_id() -> (r: uuid::Uuid) {
    uuid::Uuid::new_v4()
}

/// Relies on `SeedableRng::seed_from_u64`: a generator seeded from a number.
#[verifier::external_body]
pub(crate) fn seeded_rng(seed: u64) -> (r: StdRng) {
    StdRng::seed_from_u64(seed)
}

/// Relies on `rand::random`: a number drawn from the thread's generator.
#[verifier::external_body]
pub(crate) fn random_seed() -> (r: u64) {
    rand::random::<u64>()
}

/// Relies on `SliceRandom::shuffle`: the cards come back in some order, none added or lost.
#[verifier::external_body]
pub(crate) fn shuffle_cards(rng: &mut StdRng, deck: &mut Vec<Card>)
    ensures
        final(deck)@.to_multiset() == old(deck)@.to_multiset(),
{
    deck.shuffle(rng);
}

/// Relies on `SliceRandom::choose`: one element of a non-empty slice, `None` for an empty one.
#[verifier::external_body]
pub(crate) fn choose_value(rng: &mut StdRng, items: &[u64]) -> (r: Option<u64>)
    ensures
        items@.len() == 0 ==> r is None,
        items@.len() > 0 ==> r is Some && items@.contains(r->Some_0),
{
    items.choose(rng).copied()
}

/// Relies on `Rng::gen_range` over `0..bound`: a number below `bound`; an empty range panics.
#[verifier::external_body]
pub(crate) fn draw_below(rng: &mut StdRng, bound: u64) -> (r: u64)
    requires
        bound > 0,
    ensures
        r < bound,
{
    rng.gen_range(0..bound)
}

} // verus!
