//! Wright-Fisher type simulations of a population in which every individual
//! either carries a tracked variant or does not.
//!
//! A replicate is a Markov chain on the number of carriers. The chain is
//! driven by a [`strategy::Strategy`], a table that gives for every possible
//! number of carriers how likely an individual of the next generation is to
//! carry the variant, and by the words of a seeded generator. Frequencies are
//! kept exactly, as a number of carriers out of a population size.

pub mod manager;
pub mod output;
pub mod population;
pub mod rng;
pub mod sim;
pub mod strategy;
