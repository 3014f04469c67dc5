//! The platform kernel: event log, module lifecycle, permissions and health.

pub mod config;
pub mod kernel;
pub mod events;
pub mod health;
pub mod modules;
pub mod permissions;
pub mod plugins;
pub mod registry;
pub mod secrets;
