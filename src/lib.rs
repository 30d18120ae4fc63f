//! Metropolis Monte Carlo simulation of the two-dimensional Ising model on a
//! periodic (toroidal) lattice.
//!
//! Everything here works on integers: temperatures are counted in hundredths,
//! acceptance probabilities are fractions of `2^64`, and the observables are
//! exact running sums from which the magnetization and the susceptibility are
//! given as exact ratios.
use vstd::prelude::*;

pub mod random;
pub mod lattice;
pub mod metropolis;
pub mod observables;
pub mod simulation;
pub mod driver;
