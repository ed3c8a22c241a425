//! A discrete-time grid-world survival simulation.
//!
//! A single agent wanders a bounded rectangular grid, paying a fixed energy
//! cost for every attempted step, eating food it walks onto, and dying once
//! its energy is exhausted.  The world state and the per-tick update rule are
//! verified: every tick keeps the agent inside the grid, keeps at most one
//! food item per cell, accounts for energy exactly, and leaves a dead agent
//! untouched.

pub mod agent;
pub mod environment;
pub mod laws;
mod rng;
