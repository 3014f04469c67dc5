//! Load testing: configuration, simulated runs and latency statistics.

pub mod config;
pub mod result;
pub mod runner;
