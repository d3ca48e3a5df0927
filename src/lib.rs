//! Periodic reachability monitor for a set of named network targets: the
//! target registry, the countdown that fires probing rounds, the planning of
//! each round, and the aggregation of outcomes into latest states and running
//! averages.

pub mod aggregate;
pub mod config;
pub mod laws;
pub mod model;
pub mod state;
pub mod worker;
