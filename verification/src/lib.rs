//! A fixed-window rate limiter over a shared atomic key-value store.
//!
//! The limiter keeps one counter per `prefix:identifier` key. A check
//! atomically increments the counter, attaches the window expiry when the
//! increment created the counter, and fails once the counter passes the
//! ceiling. All mutable state lives in the store, never in the limiter.

pub mod guarantees;
pub mod limiter;
pub mod redis_link;
pub mod store;

pub use crate::limiter::RateLimiter;
pub use crate::limiter::RateLimiterError;
