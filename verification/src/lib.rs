//! Nexora platform logic: audit trail, authentication helpers, billing,
//! clustering, permissions, module lifecycle, health and rate limiting.

pub mod audit;
pub mod auth;
pub mod bench;
pub mod billing;
pub mod clock;
pub mod gateway;
pub mod graphql;
pub mod cluster;
pub mod counts;
pub mod platform;
pub mod index;
pub mod keyed;
pub mod loadtest;
pub mod scan;
pub mod seq_facts;
pub mod string_map;
pub mod table;
pub mod sys;
pub mod text;
