//! Thread-population control for a pair of task pools.
//!
//! Each pool feeds an unbounded task channel to a set of worker threads.
//! A fixed number of static workers lives as long as the process; dynamic
//! workers are added when the recent submission rate calls for them and
//! leave again after an idle period. This crate holds the decisions of
//! that scheme: the load estimate, the scaling rule, the registry of
//! parked workers and the life cycle of a single worker. Threads, timers
//! and process-wide state belong to the program that embeds it.

pub mod blocking;
pub mod config;
pub mod counter;
pub mod manager;
pub mod pool;
mod ranges;
pub mod registry;
pub mod runner;
pub mod sampler;
pub mod stats;
pub mod task;
pub mod worker;
