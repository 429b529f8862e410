//! The population: one entry per individual, `true` where the individual
//! carries the tracked variant.

use vstd::prelude::*;

verus! {

/// How many individuals of `cells` carry the variant.
pub open spec fn count_ones(cells: Seq<bool>) -> nat
    decreases cells.len(),
{
    if cells.len() == 0 {
        0
    } else {
        count_ones(cells.drop_last()) + if cells.last() {
            1nat
        } else {
            0nat
        }
    }
}

/// The population a replicate starts from: of `n` individuals the first
/// `init_count` carry the variant, the others do not.
pub open spec fn initial(n: nat, init_count: nat) -> Seq<bool> {
    Seq::new(n, |i: int| i < init_count)
}

/// There are never more carriers than individuals.
pub proof fn lemma_count_bounded(cells: Seq<bool>)
    ensures
        count_ones(cells) <= cells.len(),
    decreases cells.len(),
{
    if cells.len() > 0 {
        lemma_count_bounded(cells.drop_last());
    }
}

/// The initial population holds exactly `init_count` carriers.
pub proof fn lemma_count_initial(n: nat, init_count: nat)
    requires
        init_count <= n,
    ensures
        count_ones(initial(n, init_count)) == init_count,
    decreases n,
{
    if n > 0 {
        let cells = initial(n, init_count);
        if init_count == n {
            assert(cells.drop_last() =~= initial((n - 1) as nat, (n - 1) as nat));
            lemma_count_initial((n - 1) as nat, (n - 1) as nat);
        } else {
            assert(cells.drop_last() =~= initial((n - 1) as nat, init_count));
            lemma_count_initial((n - 1) as nat, init_count);
        }
    }
}

/// Builds the initial population of `n` individuals, the first `init_count`
/// of them carriers.
pub fn initial_population(n: usize, init_count: usize) -> (population: Vec<bool>)
    requires
        init_count <= n,
    ensures
        population@ == initial(n as nat, init_count as nat),
        count_ones(population@) == init_count,
{
    let mut population: Vec<bool> = Vec::new();
    let mut i: usize = 0;
    while i < n
        invariant
            i <= n,
            population@ == initial(i as nat, init_count as nat),
        decreases n - i,
    {
        population.push(i < init_count);
        i += 1;
        assert(population@ =~= initial(i as nat, init_count as nat));
    }
    proof {
        lemma_count_initial(n as nat, init_count as nat);
    }
    population
}

/// Counts the carriers of `population`.
pub fn count_carriers(population: &Vec<bool>) -> (ones: usize)
    ensures
        ones == count_ones(population@),
{
    let mut ones: usize = 0;
    let mut i: usize = 0;
    while i < population.len()
        invariant
            i <= population.len(),
            ones == count_ones(population@.take(i as int)),
            ones <= i,
        decreases population.len() - i,
    {
        assert(population@.take(i + 1).drop_last() =~= population@.take(i as int));
        if population[i] {
            ones += 1;
        }
        i += 1;
    }
    assert(population@.take(i as int) =~= population@);
    ones
}

} // verus!
