//! The execution manager: checks a simulation's parameters, derives one
//! sub-seed per replicate from the master seed, and lays out the replicates
//! as tasks for one worker or for a pool of them.

use crate::rng::{gen_range, pending, ranged, seeded, skip, stream};
use crate::sim::{fixed, outcome, run_arc, ReplicateResult};
use crate::strategy::Strategy;
use std::sync::Arc;
use vstd::prelude::*;

verus! {

/// The least value a sub-seed can take.
pub const SUB_SEED_LOW: u64 = 100000;

/// The bound under which every sub-seed lies.
pub const SUB_SEED_HIGH: u64 = 999999;

/// The words that are left of `words` once `k` sub-seeds are drawn from them.
pub open spec fn words_after(words: Map<nat, u64>, k: nat) -> Map<nat, u64>
    decreases k,
{
    if k == 0 {
        words
    } else {
        let left = words_after(words, (k - 1) as nat);
        skip(left, ranged(SUB_SEED_LOW, SUB_SEED_HIGH, left).1)
    }
}

/// The sub-seed of replicate `k` under the master seed `seed`: the `k`-th
/// value drawn, counted from zero, from one generator seeded with `seed`.
pub open spec fn sub_seed(seed: u64, k: nat) -> u64 {
    ranged(SUB_SEED_LOW, SUB_SEED_HIGH, words_after(stream(seed), k)).0
}

/// The sub-seeds of replicates `0` to `num_rep - 1`, in that order.
pub open spec fn sub_seeds_of(seed: u64, num_rep: nat) -> Seq<u64> {
    Seq::new(num_rep, |k: int| sub_seed(seed, k as nat))
}

/// The sub-seed of a replicate does not depend on how many replicates there
/// are: the sub-seeds of fewer replicates are the first of those of more.
pub proof fn lemma_sub_seeds_prefix(seed: u64, fewer: nat, more: nat)
    requires
        fewer <= more,
    ensures
        sub_seeds_of(seed, fewer) == sub_seeds_of(seed, more).take(fewer as int),
{
    assert(sub_seeds_of(seed, fewer) =~= sub_seeds_of(seed, more).take(fewer as int));
}

/// The seed sequencer: draws the sub-seeds of `num_rep` replicates from one
/// generator seeded with `seed`, in replicate order.
pub fn sub_seeds(seed: u64, num_rep: usize) -> (seeds: Vec<u64>)
    ensures
        seeds@ == sub_seeds_of(seed, num_rep as nat),
        forall|k: int| 0 <= k < num_rep ==> SUB_SEED_LOW <= #[trigger] seeds[k] < SUB_SEED_HIGH,
{
    let mut rng = seeded(seed);
    let mut seeds: Vec<u64> = Vec::new();
    let mut k: usize = 0;
    while k < num_rep
        invariant
            k <= num_rep,
            seeds.len() == k,
            pending(rng) == words_after(stream(seed), k as nat),
            forall|j: int| 0 <= j < k ==> seeds[j] == sub_seed(seed, j as nat),
            forall|j: int| 0 <= j < k ==> SUB_SEED_LOW <= #[trigger] seeds[j] < SUB_SEED_HIGH,
        decreases num_rep - k,
    {
        let sim_seed = gen_range(&mut rng, SUB_SEED_LOW, SUB_SEED_HIGH);
        seeds.push(sim_seed);
        k += 1;
    }
    assert(seeds@ =~= sub_seeds_of(seed, num_rep as nat));
    seeds
}

/// Why a set of parameters is refused. Each variant stands for one argument
/// that is out of its range.
#[derive(Clone, Copy, Debug, PartialEq, Eq)]
pub enum ConfigError {
    /// The population has no individuals.
    PopulationSize,
    /// There is no generation to simulate.
    Generations,
    /// More initial carriers than individuals: an initial frequency above one.
    InitialCount { init_count: usize, n: usize },
    /// There is no replicate to run.
    Replicates,
    /// There is no worker to run on.
    Threads,
}

impl ConfigError {
    /// The name of the argument that is out of range.
    pub fn argument(&self) -> (name: &'static str)
        ensures
            name@ == match *self {
                ConfigError::PopulationSize => "n"@,
                ConfigError::Generations => "generations"@,
                ConfigError::InitialCount { .. } => "freq"@,
                ConfigError::Replicates => "rep"@,
                ConfigError::Threads => "threads"@,
            },
    {
        match self {
            ConfigError::PopulationSize => "n",
            ConfigError::Generations => "generations",
            ConfigError::InitialCount { .. } => "freq",
            ConfigError::Replicates => "rep",
            ConfigError::Threads => "threads",
        }
    }
}

/// The first argument that is out of range, if any: the population size, the
/// generation count, the initial number of carriers, the replicate count and
/// the worker count are looked at in this order.
pub open spec fn refusal(
    n: nat,
    num_generations: nat,
    init_count: nat,
    num_rep: nat,
    num_threads: nat,
) -> Option<ConfigError> {
    if n == 0 {
        Some(ConfigError::PopulationSize)
    } else if num_generations == 0 {
        Some(ConfigError::Generations)
    } else if init_count > n {
        Some(ConfigError::InitialCount { init_count: init_count as usize, n: n as usize })
    } else if num_rep == 0 {
        Some(ConfigError::Replicates)
    } else if num_threads == 0 {
        Some(ConfigError::Threads)
    } else {
        None
    }
}

/// `Arc::clone`: another pointer to the same strategy.
#[verifier::external_body]
fn share(strategy: &Arc<Strategy>) -> (shared: Arc<Strategy>)
    ensures
        shared == *strategy,
{
    Arc::clone(strategy)
}

/// What a simulation is made of, as the contracts see it.
pub struct SimulationView {
    pub table: Seq<u64>,
    pub num_generations: nat,
    pub init_count: nat,
    pub seed: u64,
    pub num_rep: nat,
    pub num_threads: nat,
    pub to_fixation: bool,
}

/// The parameters of a simulation, checked once and read-only afterwards.
#[derive(Debug)]
pub struct SimulationSpec {
    strategy: Arc<Strategy>,
    num_generations: usize,
    init_count: usize,
    seed: u64,
    num_rep: usize,
    num_threads: usize,
    to_fixation: bool,
}

impl View for SimulationSpec {
    type V = SimulationView;

    closed spec fn view(&self) -> SimulationView {
        SimulationView {
            table: self.strategy@,
            num_generations: self.num_generations as nat,
            init_count: self.init_count as nat,
            seed: self.seed,
            num_rep: self.num_rep as nat,
            num_threads: self.num_threads as nat,
            to_fixation: self.to_fixation,
        }
    }
}

/// What a task is made of, as the contracts see it.
pub struct TaskView {
    pub table: Seq<u64>,
    pub num_generations: nat,
    pub init_count: nat,
    pub to_fixation: bool,
    pub sub_seed: u64,
}

/// One replicate to run: a simulation narrowed to one sub-seed. A task owns
/// all it needs, shares the strategy read-only, and is used up by running it.
#[derive(Debug)]
pub struct ReplicateTask {
    strategy: Arc<Strategy>,
    num_generations: usize,
    init_count: usize,
    to_fixation: bool,
    sub_seed: u64,
}

impl View for ReplicateTask {
    type V = TaskView;

    closed spec fn view(&self) -> TaskView {
        TaskView {
            table: self.strategy@,
            num_generations: self.num_generations as nat,
            init_count: self.init_count as nat,
            to_fixation: self.to_fixation,
            sub_seed: self.sub_seed,
        }
    }
}

/// How the replicates are run.
#[derive(Clone, Copy, Debug, PartialEq, Eq)]
pub enum Dispatch {
    /// One after the other, in replicate order.
    Sequential,
    /// On a pool of `workers` workers, in no particular order.
    Pool { workers: usize },
}

/// The tasks of a simulation, in replicate order, and the way to run them.
#[derive(Debug)]
pub struct Schedule {
    pub dispatch: Dispatch,
    pub tasks: Vec<ReplicateTask>,
}

/// The way a simulation with `num_threads` workers is run.
pub open spec fn dispatch_for(num_threads: nat) -> Dispatch {
    if num_threads == 1 {
        Dispatch::Sequential
    } else {
        Dispatch::Pool { workers: num_threads as usize }
    }
}

/// The task of replicate `k` of a simulation.
pub open spec fn task_of(simulation: SimulationView, k: nat) -> TaskView {
    TaskView {
        table: simulation.table,
        num_generations: simulation.num_generations,
        init_count: simulation.init_count,
        to_fixation: simulation.to_fixation,
        sub_seed: sub_seed(simulation.seed, k),
    }
}

/// The sub-seeds that a simulation hands to its replicates, in replicate
/// order.
pub open spec fn planned_seeds(simulation: SimulationView) -> Seq<u64> {
    Seq::new(simulation.num_rep, |k: int| task_of(simulation, k as nat).sub_seed)
}

/// What a task records: its sub-seed and the trajectory of its replicate.
pub open spec fn task_outcome(task: TaskView) -> (u64, Seq<nat>) {
    (
        task.sub_seed,
        outcome(
            task.table,
            task.init_count,
            task.num_generations,
            task.to_fixation,
            task.sub_seed,
        ),
    )
}

/// What the replicates of a simulation record, in replicate order.
pub open spec fn outcomes(simulation: SimulationView) -> Seq<(u64, Seq<nat>)> {
    Seq::new(simulation.num_rep, |k: int| task_outcome(task_of(simulation, k as nat)))
}

impl SimulationSpec {
    #[verifier::type_invariant]
    spec fn inv(self) -> bool {
        refusal(
            self.strategy.size(),
            self.num_generations as nat,
            self.init_count as nat,
            self.num_rep as nat,
            self.num_threads as nat,
        ) is None
    }

    /// Checks the parameters and keeps them. The population size is the one
    /// the strategy is made for. Every count but `init_count` has to be
    /// positive, and there cannot be more initial carriers than individuals.
    pub fn new(
        strategy: Arc<Strategy>,
        num_generations: usize,
        init_count: usize,
        seed: u64,
        num_rep: usize,
        num_threads: usize,
        to_fixation: bool,
    ) -> (made: Result<SimulationSpec, ConfigError>)
        ensures
            made matches Ok(simulation) ==> simulation@ == (SimulationView {
                table: strategy@,
                num_generations: num_generations as nat,
                init_count: init_count as nat,
                seed,
                num_rep: num_rep as nat,
                num_threads: num_threads as nat,
                to_fixation,
            }),
            made is Ok <==> refusal(
                strategy.size(),
                num_generations as nat,
                init_count as nat,
                num_rep as nat,
                num_threads as nat,
            ) is None,
            made matches Err(error) ==> Some(error) == refusal(
                strategy.size(),
                num_generations as nat,
                init_count as nat,
                num_rep as nat,
                num_threads as nat,
            ),
    {
        let n = strategy.population_size();
        if n == 0 {
            Err(ConfigError::PopulationSize)
        } else if num_generations == 0 {
            Err(ConfigError::Generations)
        } else if init_count > n {
            Err(ConfigError::InitialCount { init_count, n })
        } else if num_rep == 0 {
            Err(ConfigError::Replicates)
        } else if num_threads == 0 {
            Err(ConfigError::Threads)
        } else {
            Ok(
                SimulationSpec {
                    strategy,
                    num_generations,
                    init_count,
                    seed,
                    num_rep,
                    num_threads,
                    to_fixation,
                },
            )
        }
    }
}

impl SimulationSpec {
    /// The population size.
    pub fn population_size(&self) -> (n: usize)
        ensures
            n == self@.table.len() - 1,
    {
        self.strategy.population_size()
    }

    /// The number of generations to simulate.
    pub fn num_generations(&self) -> (num_generations: usize)
        ensures
            num_generations == self@.num_generations,
    {
        self.num_generations
    }

    /// The number of carriers at the start.
    pub fn init_count(&self) -> (init_count: usize)
        ensures
            init_count == self@.init_count,
    {
        self.init_count
    }

    /// The master seed.
    pub fn seed(&self) -> (seed: u64)
        ensures
            seed == self@.seed,
    {
        self.seed
    }

    /// The number of replicates.
    pub fn num_rep(&self) -> (num_rep: usize)
        ensures
            num_rep == self@.num_rep,
    {
        self.num_rep
    }

    /// The number of workers.
    pub fn num_threads(&self) -> (num_threads: usize)
        ensures
            num_threads == self@.num_threads,
    {
        self.num_threads
    }

    /// Whether a replicate stops at fixation.
    pub fn to_fixation(&self) -> (to_fixation: bool)
        ensures
            to_fixation == self@.to_fixation,
    {
        self.to_fixation
    }
}

impl ReplicateTask {
    #[verifier::type_invariant]
    spec fn inv(self) -> bool {
        self.init_count <= self.strategy.size()
    }

    /// The sub-seed of the replicate.
    pub fn sub_seed(&self) -> (seed: u64)
        ensures
            seed == self@.sub_seed,
    {
        self.sub_seed
    }

    /// Runs the replicate and hands back what it recorded.
    pub fn run(self) -> (result: ReplicateResult)
        ensures
            result.size == self@.table.len() - 1,
            !self@.to_fixation ==> result.counts.len() == self@.num_generations,
            result.counts.len() <= self@.num_generations,
            result.counts.len() < self@.num_generations ==> fixed(
                result.counts[result.counts.len() - 1] as nat,
                result.size as nat,
            ),
            self@.num_generations > 0 ==> result.counts.len() > 0 && result.counts[0]
                == self@.init_count,
            forall|g: int|
                0 <= g < result.counts.len() ==> #[trigger] result.counts[g] <= result.size,
            (result.sub_seed, result.trajectory()) == task_outcome(self@),
    {
        proof {
            use_type_invariant(&self);
        }
        let n = self.strategy.population_size();
        run_arc(self.strategy, self.num_generations, self.init_count, self.to_fixation, self.sub_seed)
    }
}

/// Lays out a simulation: draws every sub-seed up front, in replicate order
/// and before any replicate runs, makes one task per replicate, and says
/// whether the tasks run one after the other or on a pool. The sub-seeds do
/// not depend on the number of workers.
pub fn launch(simulation: &SimulationSpec) -> (schedule: Schedule)
    ensures
        schedule.dispatch == dispatch_for(simulation@.num_threads),
        schedule.tasks.len() == simulation@.num_rep,
        forall|k: int|
            0 <= k < schedule.tasks.len() ==> (#[trigger] schedule.tasks[k])@ == task_of(
                simulation@,
                k as nat,
            ),
        forall|k: int|
            0 <= k < schedule.tasks.len() ==> SUB_SEED_LOW <= (
            #[trigger] schedule.tasks[k])@.sub_seed < SUB_SEED_HIGH,
{
    proof {
        use_type_invariant(simulation);
    }
    let seeds = sub_seeds(simulation.seed, simulation.num_rep);
    let mut tasks: Vec<ReplicateTask> = Vec::new();
    let mut k: usize = 0;
    while k < seeds.len()
        invariant
            k <= seeds.len(),
            tasks.len() == k,
            seeds@ == sub_seeds_of(simulation.seed, simulation.num_rep as nat),
            simulation.init_count <= simulation.strategy.size(),
            forall|j: int|
                0 <= j < seeds.len() ==> SUB_SEED_LOW <= #[trigger] seeds[j] < SUB_SEED_HIGH,
            forall|j: int| 0 <= j < k ==> (#[trigger] tasks[j])@ == task_of(simulation@, j as nat),
        decreases seeds.len() - k,
    {
        tasks.push(
            ReplicateTask {
                strategy: share(&simulation.strategy),
                num_generations: simulation.num_generations,
                init_count: simulation.init_count,
                to_fixation: simulation.to_fixation,
                sub_seed: seeds[k],
            },
        );
        k += 1;
    }
    let dispatch = if simulation.num_threads == 1 {
        Dispatch::Sequential
    } else {
        Dispatch::Pool { workers: simulation.num_threads }
    };
    assert forall|j: int| 0 <= j < tasks.len() implies SUB_SEED_LOW <= (
    #[trigger] tasks[j])@.sub_seed < SUB_SEED_HIGH by {
        assert(tasks[j]@.sub_seed == seeds[j]);
    }
    Schedule { dispatch, tasks }
}

/// What became of one replicate: its sub-seed, and whether its table was
/// written.
#[derive(Clone, Copy, Debug, PartialEq, Eq)]
pub struct TaskReport {
    pub sub_seed: u64,
    pub written: bool,
}

/// The sub-seeds of the reports whose table was not written, in the order of
/// the reports.
pub open spec fn failed_seeds(reports: Seq<TaskReport>) -> Seq<u64>
    decreases reports.len(),
{
    if reports.len() == 0 {
        Seq::empty()
    } else {
        let before = failed_seeds(reports.drop_last());
        if reports.last().written {
            before
        } else {
            before.push(reports.last().sub_seed)
        }
    }
}

/// Gathers the replicates that failed: a simulation has succeeded only if
/// this list is empty, and each failure is known by its sub-seed.
pub fn failures(reports: &Vec<TaskReport>) -> (failed: Vec<u64>)
    ensures
        failed@ == failed_seeds(reports@),
        failed.len() == 0 <==> forall|k: int| 0 <= k < reports.len() ==> reports[k].written,
{
    let mut failed: Vec<u64> = Vec::new();
    let mut k: usize = 0;
    while k < reports.len()
        invariant
            k <= reports.len(),
            failed@ == failed_seeds(reports@.take(k as int)),
            failed.len() == 0 <==> forall|j: int| 0 <= j < k ==> reports[j].written,
        decreases reports.len() - k,
    {
        assert(reports@.take(k + 1).drop_last() =~= reports@.take(k as int));
        if !reports[k].written {
            failed.push(reports[k].sub_seed);
        }
        k += 1;
    }
    assert(reports@.take(k as int) =~= reports@);
    failed
}

/// The sub-seeds of a simulation are the same whatever the number of workers:
/// two simulations with the same master seed and the same number of
/// replicates hand the same sub-seeds to their replicates, in the same order.
pub proof fn lemma_seeds_independent_of_threads(first: SimulationView, second: SimulationView)
    requires
        first.seed == second.seed,
        first.num_rep == second.num_rep,
    ensures
        planned_seeds(first) == planned_seeds(second),
{
    assert(planned_seeds(first) =~= planned_seeds(second));
}

/// A simulation is reproducible: what its replicates record depends on the
/// strategy, the generation count, the initial carriers, the fixation policy,
/// the master seed and the replicate count, and on nothing else. Running the
/// same simulation again, on any number of workers, records the same.
pub proof fn lemma_reproducible(first: SimulationView, second: SimulationView)
    requires
        first.table == second.table,
        first.num_generations == second.num_generations,
        first.init_count == second.init_count,
        first.to_fixation == second.to_fixation,
        first.seed == second.seed,
        first.num_rep == second.num_rep,
    ensures
        outcomes(first) == outcomes(second),
{
    assert(outcomes(first) =~= outcomes(second));
}

} // verus!
