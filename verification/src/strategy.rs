//! The transition strategy: the rule that says, from the number of carriers in
//! one generation, how likely an individual of the next is to carry the
//! variant.

use crate::population::{count_carriers, count_ones};
use crate::rng::{pending, skip};
use crate::sim::{binomial_sample, resampled};
use rand::rngs::SmallRng;
use vstd::prelude::*;

verus! {

/// A transition strategy for a population of fixed size `n`, held as a table
/// of `n + 1` cutoffs. Entry `k` is the cutoff used when `k` individuals carry
/// the variant: of the `2^53` equally likely draws, the number on which an
/// individual of the next generation carries it. A cutoff of `2^53` or more
/// makes every individual a carrier, a cutoff of zero none.
///
/// The table is fixed once built; replicates share it read-only.
#[derive(Debug)]
pub struct Strategy {
    cutoffs: Vec<u64>,
}

impl View for Strategy {
    type V = Seq<u64>;

    closed spec fn view(&self) -> Seq<u64> {
        self.cutoffs@
    }
}

impl Strategy {
    #[verifier::type_invariant]
    spec fn inv(self) -> bool {
        self.cutoffs.len() >= 1
    }

    /// The population size the table is made for.
    pub open spec fn size(&self) -> nat {
        (self@.len() - 1) as nat
    }

    /// Makes a strategy of a table of cutoffs, one for each number of carriers
    /// from zero to the population size. An empty table fits no population.
    pub fn new(cutoffs: Vec<u64>) -> (made: Option<Strategy>)
        ensures
            made is None <==> cutoffs@.len() == 0,
            made matches Some(strategy) ==> strategy@ == cutoffs@,
    {
        if cutoffs.len() == 0 {
            None
        } else {
            Some(Strategy { cutoffs })
        }
    }

    /// The population size the table is made for.
    pub fn population_size(&self) -> (n: usize)
        ensures
            n == self.size(),
            self@.len() == n + 1,
    {
        proof {
            use_type_invariant(self);
        }
        self.cutoffs.len() - 1
    }

    /// The cutoff that is used when `ones` individuals carry the variant, if
    /// the population can hold that many.
    pub fn cutoff(&self, ones: usize) -> (cutoff: Option<u64>)
        ensures
            cutoff is Some <==> ones <= self.size(),
            cutoff matches Some(value) ==> value == self@[ones as int],
    {
        proof {
            use_type_invariant(self);
        }
        if ones < self.cutoffs.len() {
            Some(self.cutoffs[ones])
        } else {
            None
        }
    }

    /// One generation: counts the carriers, looks up the cutoff that belongs
    /// to that count, resamples the population against it, and returns the
    /// count from before the resampling.
    pub fn step(&self, population: &mut Vec<bool>, rng: &mut SmallRng) -> (ones: usize)
        requires
            old(population).len() == self.size(),
        ensures
            ones == count_ones(old(population)@),
            ones <= self.size(),
            final(population)@ == resampled(
                pending(*old(rng)),
                self@[ones as int],
                self.size(),
            ),
            pending(*final(rng)) == skip(pending(*old(rng)), self.size()),
    {
        proof {
            use_type_invariant(self);
            crate::population::lemma_count_bounded(population@);
        }
        let ones = count_carriers(population);
        binomial_sample(population, self.cutoffs[ones], rng);
        ones
    }
}

} // verus!
