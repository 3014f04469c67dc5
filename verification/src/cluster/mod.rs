//! The cluster: node records and the manager that registers, watches and
//! picks nodes.

pub mod manager;
pub mod types;
