//! The HTTP gateway's own logic: rate limiting, client addresses, request
//! shapes, and what the routes decide.

pub mod extended;
pub mod middleware;
pub mod rate_limit;
pub mod routes;
pub mod sso;
