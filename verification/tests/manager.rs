use librustwf::manager::{
    failures, launch, sub_seeds, ConfigError, Dispatch, SimulationSpec, TaskReport, SUB_SEED_HIGH,
    SUB_SEED_LOW,
};
use librustwf::output::{file_name, header, rows};
use librustwf::sim::run_arc;
use librustwf::strategy::Strategy;
use rand::rngs::SmallRng;
use rand::{Rng, SeedableRng};
use std::sync::Arc;

const ALWAYS: u64 = 1 << 53;

fn cutoff(p: f64) -> u64 {
    let scaled = p * 9007199254740992.0;
    if p.is_nan() || scaled >= 9007199254740992.0 {
        ALWAYS
    } else if p < 0.0 {
        0
    } else {
        scaled as u64 + 1
    }
}

fn neutral_table(n: usize) -> Arc<Strategy> {
    let cutoffs: Vec<u64> = (0..=n).map(|k| cutoff(k as f64 / n as f64)).collect();
    Arc::new(Strategy::new(cutoffs).unwrap())
}

fn planned(simulation: &SimulationSpec) -> Vec<u64> {
    launch(simulation).tasks.iter().map(|task| task.sub_seed()).collect()
}

#[test]
fn sub_seeds_are_the_draws_of_one_generator() {
    let mut rng = SmallRng::seed_from_u64(42);
    let expected: Vec<u64> = (0..25).map(|_| rng.gen_range(100000..999999)).collect();
    assert_eq!(sub_seeds(42, 25), expected);
}

#[test]
fn sub_seeds_of_the_default_seed() {
    assert_eq!(sub_seeds(42, 4), vec![243422, 366008, 755701, 585340]);
}

#[test]
fn sub_seeds_lie_in_their_range() {
    assert_eq!(SUB_SEED_LOW, 100000);
    assert_eq!(SUB_SEED_HIGH, 999999);
    for seed in 0..50u64 {
        for sub_seed in sub_seeds(seed, 40) {
            assert!(sub_seed >= 100000 && sub_seed < 999999);
        }
    }
}

#[test]
fn sub_seeds_of_fewer_replicates_are_a_prefix() {
    let long = sub_seeds(42, 12);
    let short = sub_seeds(42, 5);
    assert_eq!(short[..], long[..5]);
    assert!(sub_seeds(42, 0).is_empty());
    assert_ne!(sub_seeds(43, 5), short);
}

#[test]
fn sub_seeds_do_not_depend_on_the_number_of_workers() {
    let strategy = neutral_table(10);
    let one = SimulationSpec::new(Arc::clone(&strategy), 5, 5, 42, 9, 1, false).unwrap();
    let expected = sub_seeds(42, 9);
    assert_eq!(planned(&one), expected);
    for threads in 2..9 {
        let many = SimulationSpec::new(Arc::clone(&strategy), 5, 5, 42, 9, threads, false).unwrap();
        assert_eq!(planned(&many), expected);
    }
}

#[test]
fn launch_runs_one_worker_sequentially() {
    let strategy = neutral_table(10);
    let simulation = SimulationSpec::new(strategy, 5, 5, 42, 3, 1, false).unwrap();
    let schedule = launch(&simulation);
    assert_eq!(schedule.dispatch, Dispatch::Sequential);
    assert_eq!(schedule.tasks.len(), 3);
}

#[test]
fn launch_runs_several_workers_as_a_pool() {
    let strategy = neutral_table(10);
    let simulation = SimulationSpec::new(strategy, 5, 5, 42, 3, 4, false).unwrap();
    let schedule = launch(&simulation);
    assert_eq!(schedule.dispatch, Dispatch::Pool { workers: 4 });
    assert_eq!(schedule.tasks.len(), 3);
}

#[test]
fn a_task_runs_its_own_replicate() {
    let strategy = neutral_table(10);
    for &to_fixation in &[false, true] {
        let simulation =
            SimulationSpec::new(Arc::clone(&strategy), 30, 5, 7, 6, 3, to_fixation).unwrap();
        let seeds = sub_seeds(7, 6);
        let schedule = launch(&simulation);
        for (k, task) in schedule.tasks.into_iter().enumerate() {
            assert_eq!(task.sub_seed(), seeds[k]);
            let result = task.run();
            let expected = run_arc(Arc::clone(&strategy), 30, 5, to_fixation, seeds[k]);
            assert_eq!(result.sub_seed, seeds[k]);
            assert_eq!(result.size, 10);
            assert_eq!(result.counts, expected.counts);
        }
    }
}

#[test]
fn a_simulation_records_the_same_on_any_number_of_workers() {
    let strategy = neutral_table(12);
    let outcomes = |threads: usize| -> Vec<(u64, Vec<usize>)> {
        let simulation =
            SimulationSpec::new(Arc::clone(&strategy), 20, 6, 42, 8, threads, true).unwrap();
        launch(&simulation)
            .tasks
            .into_iter()
            .map(|task| {
                let result = task.run();
                (result.sub_seed, result.counts)
            })
            .collect()
    };
    let first = outcomes(1);
    assert_eq!(outcomes(1), first);
    assert_eq!(outcomes(4), first);
}

#[test]
fn new_refuses_an_empty_population() {
    let strategy = Arc::new(Strategy::new(vec![ALWAYS]).unwrap());
    let made = SimulationSpec::new(strategy, 0, 1, 42, 0, 0, false);
    assert_eq!(made.err(), Some(ConfigError::PopulationSize));
}

#[test]
fn new_refuses_zero_generations() {
    let made = SimulationSpec::new(neutral_table(4), 0, 5, 42, 0, 0, false);
    assert_eq!(made.err(), Some(ConfigError::Generations));
}

#[test]
fn new_refuses_more_carriers_than_individuals() {
    let made = SimulationSpec::new(neutral_table(4), 3, 5, 42, 0, 0, false);
    assert_eq!(made.err(), Some(ConfigError::InitialCount { init_count: 5, n: 4 }));
}

#[test]
fn new_refuses_zero_replicates() {
    let made = SimulationSpec::new(neutral_table(4), 3, 4, 42, 0, 0, false);
    assert_eq!(made.err(), Some(ConfigError::Replicates));
}

#[test]
fn new_refuses_zero_workers() {
    let made = SimulationSpec::new(neutral_table(4), 3, 0, 42, 1, 0, false);
    assert_eq!(made.err(), Some(ConfigError::Threads));
}

#[test]
fn new_accepts_parameters_in_range() {
    assert!(SimulationSpec::new(neutral_table(4), 1, 0, 0, 1, 1, false).is_ok());
    assert!(SimulationSpec::new(neutral_table(4), 1, 4, u64::MAX, 1, 1, true).is_ok());
}

#[test]
fn errors_name_the_argument() {
    assert_eq!(ConfigError::PopulationSize.argument(), "n");
    assert_eq!(ConfigError::Generations.argument(), "generations");
    assert_eq!(ConfigError::InitialCount { init_count: 5, n: 4 }.argument(), "freq");
    assert_eq!(ConfigError::Replicates.argument(), "rep");
    assert_eq!(ConfigError::Threads.argument(), "threads");
}

#[test]
fn neutral_simulation_of_four_over_three_generations() {
    let n: usize = 4;
    let init_count = (0.5 * n as f64) as usize;
    let simulation = SimulationSpec::new(neutral_table(n), 3, init_count, 42, 1, 1, false).unwrap();
    let mut schedule = launch(&simulation);
    assert_eq!(schedule.dispatch, Dispatch::Sequential);
    assert_eq!(schedule.tasks.len(), 1);
    let result = schedule.tasks.pop().unwrap().run();
    let table: Vec<(usize, f64)> = rows(&result)
        .iter()
        .map(|row| (row.generation, row.ones as f64 / row.size as f64))
        .collect();
    assert_eq!(file_name(result.sub_seed), "243422.csv");
    assert_eq!(table, vec![(1, 0.5), (2, 0.25), (3, 0.75)]);
    let (generation, frequency) = header();
    let mut text = format!("{},{}\n", generation, frequency);
    for (generation, frequency) in table {
        text.push_str(&format!("{},{}\n", generation, frequency));
    }
    assert_eq!(text, "generation,frequency\n1,0.5\n2,0.25\n3,0.75\n");
}

#[test]
fn neutral_simulation_of_four_is_the_one_computed_on_floats() {
    let mut master = SmallRng::seed_from_u64(42);
    let sub_seed: u64 = master.gen_range(100000..999999);
    let mut population = vec![1.0, 1.0, 0.0, 0.0];
    let mut rng = SmallRng::seed_from_u64(sub_seed);
    let mut expected = Vec::new();
    for _ in 0..3 {
        let p: f64 = population.iter().sum::<f64>() / population.len() as f64;
        for i in 0..population.len() {
            let x: f64 = rng.gen();
            population[i] = if x > p { 0.0 } else { 1.0 };
        }
        expected.push(p);
    }
    let simulation = SimulationSpec::new(neutral_table(4), 3, 2, 42, 1, 1, false).unwrap();
    let result = launch(&simulation).tasks.pop().unwrap().run();
    let recorded: Vec<f64> =
        result.counts.iter().map(|&ones| ones as f64 / result.size as f64).collect();
    assert_eq!(result.sub_seed, sub_seed);
    assert_eq!(recorded, expected);
}

#[test]
fn getters_hand_back_the_parameters() {
    let simulation = SimulationSpec::new(neutral_table(10), 30, 5, 7, 6, 3, true).unwrap();
    assert_eq!(simulation.population_size(), 10);
    assert_eq!(simulation.num_generations(), 30);
    assert_eq!(simulation.init_count(), 5);
    assert_eq!(simulation.seed(), 7);
    assert_eq!(simulation.num_rep(), 6);
    assert_eq!(simulation.num_threads(), 3);
    assert!(simulation.to_fixation());
}

#[test]
fn failures_lists_the_replicates_that_were_not_written() {
    let reports = vec![
        TaskReport { sub_seed: 100001, written: true },
        TaskReport { sub_seed: 100002, written: false },
        TaskReport { sub_seed: 100003, written: true },
        TaskReport { sub_seed: 100004, written: false },
    ];
    assert_eq!(failures(&reports), vec![100002, 100004]);
}

#[test]
fn failures_is_empty_when_all_is_written() {
    let reports = vec![
        TaskReport { sub_seed: 100001, written: true },
        TaskReport { sub_seed: 100002, written: true },
    ];
    assert!(failures(&reports).is_empty());
    assert!(failures(&vec![]).is_empty());
}
