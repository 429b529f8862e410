//! The random source: a seeded `SmallRng`, seen by the proofs as the stream of
//! 64-bit words that it has yet to hand out.

use rand::rngs::SmallRng;
use rand::seq::SliceRandom;
use rand::{Rng, RngCore, SeedableRng};
use vstd::prelude::*;

verus! {

/// `rand::rngs::SmallRng`: the proofs see nothing inside a generator but the
/// words it has yet to hand out.
#[verifier::external_type_specification]
#[verifier::external_body]
pub struct ExSmallRng(rand::rngs::SmallRng);

/// The words that `rng` has yet to hand out: position `i` holds the word that
/// its `i`-th draw from now on returns, counted from zero.
pub uninterp spec fn upcoming(rng: SmallRng) -> Map<nat, u64>;

/// The words that a generator seeded with `seed` hands out, by position, on a
/// target whose pointers are `width` bits wide.
pub uninterp spec fn seeded_words(seed: u64, width: nat) -> Map<nat, u64>;

/// What a draw from `low..high` makes of the words `words`: the value drawn,
/// and the number of words that the draw uses up.
pub uninterp spec fn ranged(low: u64, high: u64, words: Map<nat, u64>) -> (u64, nat);

/// All the words that `rng` has yet to hand out, by position. A generator
/// never runs out of words: every position holds one.
pub open spec fn pending(rng: SmallRng) -> Map<nat, u64> {
    Map::new(|i: nat| true, |i: nat| upcoming(rng)[i])
}

/// All the words of a generator seeded with `seed` on this target, by
/// position.
pub open spec fn stream(seed: u64) -> Map<nat, u64> {
    Map::new(|i: nat| true, |i: nat| seeded_words(seed, usize::BITS as nat)[i])
}

/// The stream that is left of `words` once `count` of them are used up.
pub open spec fn skip(words: Map<nat, u64>, count: nat) -> Map<nat, u64> {
    Map::new(|i: nat| true, |i: nat| words[i + count])
}

/// Skipping twice is skipping once by the sum.
pub proof fn lemma_skip_skip(words: Map<nat, u64>, a: nat, b: nat)
    ensures
        skip(skip(words, a), b) == skip(words, a + b),
{
    assert(skip(skip(words, a), b) =~= skip(words, a + b));
}

/// Nothing is used up of the pending words of a generator before a draw.
pub proof fn lemma_skip_none(rng: SmallRng)
    ensures
        skip(pending(rng), 0) == pending(rng),
{
    assert(skip(pending(rng), 0) =~= pending(rng));
}

/// `SeedableRng::seed_from_u64` on `SmallRng`: the generator made from `seed`
/// hands out the words that belong to that seed on this target, the same in
/// every run.
#[verifier::external_body]
fn seed_from_u64(seed: u64) -> (rng: SmallRng)
    ensures
        upcoming(rng) == seeded_words(seed, usize::BITS as nat),
{
    SmallRng::seed_from_u64(seed)
}

/// `RngCore::next_u64` on `SmallRng`: returns the first of the pending words
/// and leaves the generator with the rest.
#[verifier::external_body]
pub(crate) fn next_u64(rng: &mut SmallRng) -> (word: u64)
    ensures
        word == pending(*old(rng))[0],
        pending(*final(rng)) == skip(pending(*old(rng)), 1),
{
    rng.next_u64()
}

/// `Rng::gen_range` on `SmallRng` with the half-open range `low..high`, which
/// panics when the range is empty. The value lies in the range; it and the
/// number of words used up depend on the range and the pending words alone.
#[verifier::external_body]
pub(crate) fn gen_range(rng: &mut SmallRng, low: u64, high: u64) -> (value: u64)
    requires
        low < high,
    ensures
        low <= value < high,
        value == ranged(low, high, pending(*old(rng))).0,
        pending(*final(rng)) == skip(pending(*old(rng)), ranged(low, high, pending(*old(rng))).1),
{
    rng.gen_range(low..high)
}

/// `SliceRandom::choose` on the entries of `cells`: one of the entries, or
/// nothing where there is none. Which one depends on `rng`; nothing is said of
/// the words that `rng` is left with.
#[verifier::external_body]
pub(crate) fn choose_cell(cells: &Vec<bool>, rng: &mut SmallRng) -> (picked: Option<bool>)
    ensures
        picked is None <==> cells@.len() == 0,
        picked matches Some(cell) ==> cells@.contains(cell),
{
    cells.choose(rng).copied()
}

/// A generator seeded with `seed`.
pub fn seeded(seed: u64) -> (rng: SmallRng)
    ensures
        pending(rng) == stream(seed),
{
    let rng = seed_from_u64(seed);
    assert(pending(rng) =~= stream(seed));
    rng
}

} // verus!
