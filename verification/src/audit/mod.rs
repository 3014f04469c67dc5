//! Audit trail: categories, entries, filters and the bounded in-memory log.

pub mod category;
pub mod entry;
pub mod filter;
pub mod logger;
