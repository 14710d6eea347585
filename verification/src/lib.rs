//! One-time secrets: a payload is sealed under a process-wide key, stored
//! until it expires, and disclosed to at most one reader.

pub mod app_state;
pub mod claim;
pub mod crypto;
pub mod error;
pub mod handlers;
pub mod ident;
pub mod laws;
pub mod metrics;
pub mod store;
