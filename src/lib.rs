//! Agent-based epidemic simulation with a calibration loop for its
//! transmission rate.
//!
//! Probabilities are fixed-point integers in parts per million
//! (`PROB_ONE` stands for certainty); positions and velocities are
//! integer coordinates in units chosen by the caller.
use vstd::prelude::*;

pub mod bayesian;
pub mod draws;
pub mod intervention;
pub mod kernels;
pub mod person;
pub mod sirmodel;
pub mod trainer;

verus! {

/// Fixed-point value that stands for the probability one.
pub const PROB_ONE: u64 = 1_000_000;

} // verus!
