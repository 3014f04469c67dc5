//! Billing: invoices, payments and subscriptions, and the store that
//! keeps them and drives their lifecycles.

pub mod handler;
pub mod store;
pub mod types;
