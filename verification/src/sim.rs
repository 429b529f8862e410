//! One replicate: the resampler, the generation loop and its early stop at
//! fixation.

use crate::population::{count_ones, initial, initial_population};
use crate::rng::{
    choose_cell, lemma_skip_none, lemma_skip_skip, next_u64, pending, seeded, skip, stream,
};
use crate::strategy::Strategy;
use rand::rngs::SmallRng;
use std::sync::Arc;
use vstd::prelude::*;

verus! {

/// Whether the individual that draws `word` carries the variant under
/// `cutoff`: the upper 53 bits of the word, read as a number, lie below it.
pub open spec fn carries(word: u64, cutoff: u64) -> bool {
    (word >> 11) < cutoff
}

/// The population of `n` individuals that resampling against `cutoff` makes of
/// the words `words`: individual `i` is decided by word `i`.
pub open spec fn resampled(words: Map<nat, u64>, cutoff: u64, n: nat) -> Seq<bool> {
    Seq::new(n, |i: int| carries(words[i as nat], cutoff))
}

/// A cutoff of zero lets nobody carry the variant, a cutoff of `2^53` or more
/// everybody, whatever the word drawn.
pub proof fn lemma_cutoff_extremes(word: u64, cutoff: u64)
    ensures
        cutoff == 0 ==> !carries(word, cutoff),
        cutoff >= 0x20_0000_0000_0000 ==> carries(word, cutoff),
{
    assert((word >> 11) < 0x20_0000_0000_0000) by (bit_vector);
}

/// Resamples `buffer` in place: entry `i` becomes a carrier exactly if the
/// `i`-th word drawn lies under `cutoff`. One word is drawn per entry, in
/// index order, whatever the cutoff.
pub fn binomial_sample(buffer: &mut Vec<bool>, cutoff: u64, rng: &mut SmallRng)
    ensures
        final(buffer)@ == resampled(pending(*old(rng)), cutoff, old(buffer).len() as nat),
        pending(*final(rng)) == skip(pending(*old(rng)), old(buffer).len() as nat),
{
    let ghost words = pending(*rng);
    let n = buffer.len();
    let mut i: usize = 0;
    proof {
        lemma_skip_none(*rng);
    }
    while i < n
        invariant
            i <= n,
            buffer.len() == n,
            forall|j: int| 0 <= j < i ==> buffer[j] == carries(words[j as nat], cutoff),
            pending(*rng) == skip(words, i as nat),
        decreases n - i,
    {
        let word = next_u64(rng);
        proof {
            lemma_skip_skip(words, i as nat, 1);
        }
        buffer.set(i, (word >> 11) < cutoff);
        i += 1;
    }
    assert(buffer@ =~= resampled(words, cutoff, n as nat));
}

/// Classical resampling: every one of the first `parents.len()` entries of
/// `offspring` becomes a copy of a parent picked at random, the later entries
/// stay, and the offspring then take the parents' place.
pub fn wf_classical(parents: &mut Vec<bool>, offspring: &mut Vec<bool>, rng: &mut SmallRng)
    requires
        old(parents).len() <= old(offspring).len(),
    ensures
        final(offspring).len() == old(offspring).len(),
        forall|i: int|
            0 <= i < old(parents).len() ==> old(parents)@.contains(#[trigger] final(offspring)[i]),
        forall|i: int|
            old(parents).len() <= i < old(offspring).len() ==> final(offspring)[i] == old(
                offspring,
            )[i],
        final(parents)@ == final(offspring)@,
{
    let n = parents.len();
    let mut i: usize = 0;
    while i < n
        invariant
            i <= n,
            n == parents.len(),
            *parents == *old(parents),
            offspring.len() == old(offspring).len(),
            n <= offspring.len(),
            forall|j: int| 0 <= j < i ==> parents@.contains(#[trigger] offspring[j]),
            forall|j: int| i <= j < offspring.len() ==> offspring[j] == old(offspring)[j],
        decreases n - i,
    {
        if let Some(cell) = choose_cell(parents, rng) {
            offspring.set(i, cell);
        }
        i += 1;
    }
    parents.clear();
    let mut k: usize = 0;
    while k < offspring.len()
        invariant
            k <= offspring.len(),
            parents@ == offspring@.take(k as int),
        decreases offspring.len() - k,
    {
        parents.push(offspring[k]);
        k += 1;
        assert(parents@ =~= offspring@.take(k as int));
    }
    assert(parents@ =~= offspring@);
}

/// The population in generation `g` of a replicate that starts from `first`,
/// follows the table `table` and draws the words `words`. Every generation
/// uses up one word per individual.
pub open spec fn generation(table: Seq<u64>, first: Seq<bool>, words: Map<nat, u64>, g: nat) -> Seq<
    bool,
>
    decreases g,
{
    if g == 0 {
        first
    } else {
        let parents = generation(table, first, words, (g - 1) as nat);
        resampled(
            skip(words, ((g - 1) * first.len()) as nat),
            table[count_ones(parents) as int],
            first.len(),
        )
    }
}

/// The numbers of carriers in generations `0` to `generations - 1`, each
/// counted before that generation is resampled.
pub open spec fn trajectory(
    table: Seq<u64>,
    first: Seq<bool>,
    words: Map<nat, u64>,
    generations: nat,
) -> Seq<nat> {
    Seq::new(generations, |g: int| count_ones(generation(table, first, words, g as nat)))
}

/// The population keeps its size through the generations, so no generation
/// counts more carriers than the first has individuals.
pub proof fn lemma_generation_size(table: Seq<u64>, first: Seq<bool>, words: Map<nat, u64>, g: nat)
    ensures
        generation(table, first, words, g).len() == first.len(),
        count_ones(generation(table, first, words, g)) <= first.len(),
{
    reveal_with_fuel(generation, 1);
    crate::population::lemma_count_bounded(generation(table, first, words, g));
}

/// Whether `ones` carriers among `n` individuals is an absorbing state: the
/// variant is lost or has taken over. An empty population has no frequency
/// and is never fixed.
pub open spec fn fixed(ones: nat, n: nat) -> bool {
    n > 0 && (ones == 0 || ones == n)
}

/// The position of the first fixed entry of `counts`, or the length of
/// `counts` where no entry is fixed.
pub open spec fn first_fixed(counts: Seq<nat>, n: nat) -> nat
    decreases counts.len(),
{
    if counts.len() == 0 {
        0
    } else if fixed(counts[0], n) {
        0
    } else {
        1 + first_fixed(counts.drop_first(), n)
    }
}

/// What is recorded of `counts` when a replicate stops at fixation: the
/// entries up to the first fixed one, that one included; all of them where
/// none is fixed.
pub open spec fn recorded(counts: Seq<nat>, n: nat) -> Seq<nat> {
    let stop = first_fixed(counts, n);
    if stop < counts.len() {
        counts.take(stop as int + 1)
    } else {
        counts
    }
}

/// The trajectory that a replicate records: the full one, or, when it runs to
/// fixation only, the one cut after the first fixed entry.
pub open spec fn outcome(
    table: Seq<u64>,
    init_count: nat,
    num_generations: nat,
    to_fixation: bool,
    seed: u64,
) -> Seq<nat> {
    let n = (table.len() - 1) as nat;
    let full = trajectory(table, initial(n, init_count), stream(seed), num_generations);
    if to_fixation {
        recorded(full, n)
    } else {
        full
    }
}

/// `first_fixed` is `k` where no entry before `k` is fixed and the entry at
/// `k`, if there is one, is.
pub proof fn lemma_first_fixed(counts: Seq<nat>, n: nat, k: nat)
    requires
        k <= counts.len(),
        forall|j: int| 0 <= j < k ==> !fixed(#[trigger] counts[j], n),
        k < counts.len() ==> fixed(counts[k as int], n),
    ensures
        first_fixed(counts, n) == k,
    decreases counts.len(),
{
    if counts.len() > 0 && k > 0 {
        let rest = counts.drop_first();
        assert forall|j: int| 0 <= j < k - 1 implies !fixed(#[trigger] rest[j], n) by {
            assert(rest[j] == counts[j + 1]);
        }
        lemma_first_fixed(rest, n, (k - 1) as nat);
    }
}

/// A recorded trajectory is a prefix of the full one. It is never longer, it
/// is empty only where the full one is, none of its entries but the last is
/// fixed, and where it is shorter its last entry is fixed.
pub proof fn lemma_recorded(counts: Seq<nat>, n: nat)
    ensures
        recorded(counts, n).len() <= counts.len(),
        recorded(counts, n) == counts.take(recorded(counts, n).len() as int),
        counts.len() > 0 ==> recorded(counts, n).len() > 0,
        forall|j: int|
            0 <= j < recorded(counts, n).len() - 1 ==> !fixed(#[trigger] recorded(counts, n)[j], n),
        recorded(counts, n).len() < counts.len() ==> fixed(recorded(counts, n).last(), n),
    decreases counts.len(),
{
    if counts.len() > 0 && !fixed(counts[0], n) {
        let rest = counts.drop_first();
        lemma_recorded(rest, n);
        let short = recorded(rest, n);
        let long = recorded(counts, n);
        assert(long.len() == short.len() + 1);
        assert forall|j: int| 0 <= j < long.len() implies long[j] == counts[j] by {}
        assert forall|j: int| 0 <= j < short.len() implies short[j] == rest[j] by {}
        assert forall|j: int| 0 <= j < long.len() - 1 implies !fixed(#[trigger] long[j], n) by {
            if j > 0 {
                assert(long[j] == short[j - 1]);
            }
        }
        if long.len() < counts.len() {
            assert(long.last() == short.last());
        }
    }
    assert(recorded(counts, n) =~= counts.take(recorded(counts, n).len() as int));
}

/// The length of what a replicate records: all `num_generations` generations
/// where it does not stop at fixation; no more than that where it does, and
/// then, if fewer, with a last frequency of exactly zero or one.
pub proof fn lemma_outcome_length(
    table: Seq<u64>,
    init_count: nat,
    num_generations: nat,
    to_fixation: bool,
    seed: u64,
)
    ensures
        !to_fixation ==> outcome(table, init_count, num_generations, to_fixation, seed).len()
            == num_generations,
        outcome(table, init_count, num_generations, to_fixation, seed).len() <= num_generations,
        num_generations > 0 ==> outcome(table, init_count, num_generations, to_fixation, seed).len()
            > 0,
        outcome(table, init_count, num_generations, to_fixation, seed).len() < num_generations
            ==> fixed(
            outcome(table, init_count, num_generations, to_fixation, seed).last(),
            (table.len() - 1) as nat,
        ),
{
    let n = (table.len() - 1) as nat;
    let full = trajectory(table, initial(n, init_count), stream(seed), num_generations);
    lemma_recorded(full, n);
}

/// What one replicate hands to the writer: its sub-seed, the population size
/// and the number of carriers recorded for every generation. The frequency in
/// generation `i` is `counts[i]` out of `size`.
#[derive(Debug, PartialEq, Eq)]
pub struct ReplicateResult {
    pub sub_seed: u64,
    pub size: usize,
    pub counts: Vec<usize>,
}

impl ReplicateResult {
    /// The recorded numbers of carriers.
    pub open spec fn trajectory(&self) -> Seq<nat> {
        self.counts@.map_values(|ones: usize| ones as nat)
    }
}

/// Runs one replicate for `num_generations` generations, whatever the
/// frequency does: starts from `init_count` carriers, seeds a generator of its
/// own with `seed`, and records the number of carriers of every generation
/// before that generation is resampled.
pub fn run(iteration: &Strategy, num_generations: usize, init_count: usize, seed: u64) -> (result:
    ReplicateResult)
    requires
        init_count <= iteration.size(),
    ensures
        result.sub_seed == seed,
        result.size == iteration.size(),
        result.counts.len() == num_generations,
        num_generations > 0 ==> result.counts[0] == init_count,
        forall|g: int| 0 <= g < result.counts.len() ==> #[trigger] result.counts[g] <= result.size,
        result.trajectory() == outcome(
            iteration@,
            init_count as nat,
            num_generations as nat,
            false,
            seed,
        ),
{
    let n = iteration.population_size();
    let mut population = initial_population(n, init_count);
    let mut counts: Vec<usize> = Vec::new();
    let mut rng = seeded(seed);
    let ghost first = population@;
    let ghost words = stream(seed);
    proof {
        lemma_skip_none(rng);
    }
    let mut i: usize = 0;
    while i < num_generations
        invariant
            i <= num_generations,
            n == iteration.size(),
            first.len() == n,
            population@ == generation(iteration@, first, words, i as nat),
            pending(rng) == skip(words, (i * n) as nat),
            counts.len() == i,
            count_ones(first) == init_count,
            i > 0 ==> counts[0] == init_count,
            forall|j: int| 0 <= j < i ==> #[trigger] counts[j] <= n,
            forall|j: int|
                0 <= j < i ==> counts[j] == count_ones(
                    generation(iteration@, first, words, j as nat),
                ),
        decreases num_generations - i,
    {
        let ones = iteration.step(&mut population, &mut rng);
        counts.push(ones);
        proof {
            lemma_skip_skip(words, (i * n) as nat, n as nat);
            assert((i + 1) * n == i * n + n) by (nonlinear_arith);
        }
        i += 1;
    }
    let result = ReplicateResult { sub_seed: seed, size: n, counts };
    assert(result.trajectory() =~= trajectory(iteration@, first, words, num_generations as nat));
    result
}

/// Runs one replicate to fixation: as [`run`], but stops after the first
/// generation whose recorded frequency is zero or one. That generation is the
/// last one recorded.
pub fn run_fix(iteration: &Strategy, num_generations: usize, init_count: usize, seed: u64) -> (result:
    ReplicateResult)
    requires
        init_count <= iteration.size(),
    ensures
        result.sub_seed == seed,
        result.size == iteration.size(),
        result.counts.len() <= num_generations,
        result.counts.len() < num_generations ==> fixed(
            result.counts[result.counts.len() - 1] as nat,
            result.size as nat,
        ),
        num_generations > 0 ==> result.counts.len() > 0 && result.counts[0] == init_count,
        forall|g: int| 0 <= g < result.counts.len() ==> #[trigger] result.counts[g] <= result.size,
        result.trajectory() == outcome(
            iteration@,
            init_count as nat,
            num_generations as nat,
            true,
            seed,
        ),
{
    let n = iteration.population_size();
    let mut population = initial_population(n, init_count);
    let mut counts: Vec<usize> = Vec::new();
    let mut rng = seeded(seed);
    let ghost first = population@;
    let ghost words = stream(seed);
    let ghost full = trajectory(iteration@, first, words, num_generations as nat);
    proof {
        lemma_skip_none(rng);
    }
    let mut i: usize = 0;
    let mut absorbed = false;
    while i < num_generations && !absorbed
        invariant
            i <= num_generations,
            n == iteration.size(),
            first.len() == n,
            full == trajectory(iteration@, first, words, num_generations as nat),
            population@ == generation(iteration@, first, words, i as nat),
            pending(rng) == skip(words, (i * n) as nat),
            counts.len() == i,
            count_ones(first) == init_count,
            i > 0 ==> counts[0] == init_count,
            forall|j: int| 0 <= j < i ==> #[trigger] counts[j] <= n,
            forall|j: int| 0 <= j < i ==> counts[j] == #[trigger] full[j],
            forall|j: int| 0 <= j < i - 1 ==> !fixed(#[trigger] full[j], n as nat),
            absorbed ==> i >= 1 && fixed(full[i - 1], n as nat),
            !absorbed && i >= 1 ==> !fixed(full[i - 1], n as nat),
        decreases num_generations - i,
    {
        let ones = iteration.step(&mut population, &mut rng);
        counts.push(ones);
        proof {
            lemma_skip_skip(words, (i * n) as nat, n as nat);
            assert((i + 1) * n == i * n + n) by (nonlinear_arith);
        }
        i += 1;
        if n > 0 && (ones == 0 || ones == n) {
            absorbed = true;
        }
    }
    let result = ReplicateResult { sub_seed: seed, size: n, counts };
    proof {
        if absorbed {
            lemma_first_fixed(full, n as nat, (i - 1) as nat);
        } else {
            lemma_first_fixed(full, n as nat, i as nat);
        }
        assert(result.trajectory() =~= recorded(full, n as nat));
    }
    result
}

/// Runs one replicate under the fixation policy given by `to_fixation`, on a
/// strategy that is shared between workers.
pub fn run_arc(
    iteration: Arc<Strategy>,
    num_generations: usize,
    init_count: usize,
    to_fixation: bool,
    seed: u64,
) -> (result: ReplicateResult)
    requires
        init_count <= iteration.size(),
    ensures
        result.sub_seed == seed,
        result.size == iteration.size(),
        !to_fixation ==> result.counts.len() == num_generations,
        result.counts.len() <= num_generations,
        result.counts.len() < num_generations ==> fixed(
            result.counts[result.counts.len() - 1] as nat,
            result.size as nat,
        ),
        num_generations > 0 ==> result.counts.len() > 0 && result.counts[0] == init_count,
        forall|g: int| 0 <= g < result.counts.len() ==> #[trigger] result.counts[g] <= result.size,
        result.trajectory() == outcome(
            iteration@,
            init_count as nat,
            num_generations as nat,
            to_fixation,
            seed,
        ),
{
    if to_fixation {
        run_fix(&*iteration, num_generations, init_count, seed)
    } else {
        run(&*iteration, num_generations, init_count, seed)
    }
}

} // verus!
