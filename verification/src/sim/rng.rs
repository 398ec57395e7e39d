//! The run's random streams: ChaCha8 generators from `rand_chacha`, drawn through `rand`.
//!
//! A ChaCha8 generator is determined by its key, its stream number, and its position in the
//! stream, counted in 32-bit words. The key of a generator seeded with `seed_from_u64` is a
//! function of the seed. The library keeps each stream as these plain values, and each draw
//! rebuilds the generator at that position, draws, and reads back the new position, so the
//! values drawn are the values a generator kept across draws would give.

use rand::seq::SliceRandom;
use rand::RngExt;
use rand::SeedableRng;
use rand_chacha::ChaCha8Rng;
use vstd::prelude::*;

use crate::sim::types::AgentId;

verus! {

/// The state of one random stream: the run seed, the stream number, and the position in the
/// stream in 32-bit words.
#[derive(Debug, Clone, Copy, PartialEq, Eq, Structural)]
pub struct RngState {
    pub seed: u64,
    pub stream: u64,
    pub word_pos: u128,
}

/// The generator for stream number `number` of the run seeded with `seed`, at its start.
pub fn stream(seed: u64, number: u64) -> (state: RngState)
    ensures
        state == (RngState { seed, stream: number, word_pos: 0 }),
{
    RngState { seed, stream: number, word_pos: 0 }
}

/// What `random_range(0..len)` draws from the ChaCha8 generator seeded with `seed` by
/// `seed_from_u64`, on stream `stream`, at word position `word_pos`: the value drawn and the
/// generator's word position afterwards.
pub uninterp spec fn chacha_below(seed: u64, stream: u64, word_pos: u128, len: usize) -> (usize, u128);

/// What `shuffle` makes of `order` with the ChaCha8 generator seeded with `seed` by
/// `seed_from_u64`, on stream `stream`, at word position `word_pos`: the shuffled sequence
/// and the generator's word position afterwards.
pub uninterp spec fn chacha_shuffle(seed: u64, stream: u64, word_pos: u128, order: Seq<u64>) -> (Seq<u64>, u128);

/// The numbers of a sequence of agent IDs.
pub open spec fn id_numbers(order: Seq<AgentId>) -> Seq<u64> {
    order.map_values(|a: AgentId| a.0)
}

/// Rebuilds the generator of `state` (`SeedableRng::seed_from_u64`, `ChaCha8Rng::set_stream`,
/// `ChaCha8Rng::set_word_pos`), calls `RngExt::random_range(0..len)` (rand) on it, and reads
/// the new position with `ChaCha8Rng::get_word_pos`. Claimed: the draw and the new position
/// are `chacha_below` of the state and `len`, and the draw lies in `0..len`; the seed and
/// stream stay. `random_range` panics on an empty range, which `len > 0` excludes.
#[verifier::external_body]
pub fn random_below(state: &mut RngState, len: usize) -> (r: usize)
    requires
        len > 0,
    ensures
        r < len,
        (r, final(state).word_pos) == chacha_below(
            old(state).seed,
            old(state).stream,
            old(state).word_pos,
            len,
        ),
        final(state).seed == old(state).seed,
        final(state).stream == old(state).stream,
{
    let mut rng = ChaCha8Rng::seed_from_u64(state.seed);
    rng.set_stream(state.stream);
    rng.set_word_pos(state.word_pos);
    let r = rng.random_range(0..len);
    state.word_pos = rng.get_word_pos();
    r
}

/// Rebuilds the generator of `state` as `random_below` does, calls `SliceRandom::shuffle`
/// (rand), a Fisher-Yates shuffle in place, and reads the new position. Claimed: the shuffled
/// IDs and the new position are `chacha_shuffle` of the state and the IDs; the shuffle only
/// swaps, so the result has the same elements; the seed and stream stay.
#[verifier::external_body]
pub fn shuffle_agents(order: &mut Vec<AgentId>, state: &mut RngState)
    ensures
        final(order)@.to_multiset() == old(order)@.to_multiset(),
        (id_numbers(final(order)@), final(state).word_pos) == chacha_shuffle(
            old(state).seed,
            old(state).stream,
            old(state).word_pos,
            id_numbers(old(order)@),
        ),
        final(state).seed == old(state).seed,
        final(state).stream == old(state).stream,
{
    let mut rng = ChaCha8Rng::seed_from_u64(state.seed);
    rng.set_stream(state.stream);
    rng.set_word_pos(state.word_pos);
    order.shuffle(&mut rng);
    state.word_pos = rng.get_word_pos();
}

} // verus!
