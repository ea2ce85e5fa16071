//! Custodial value-transfer core for a deterministic, replicated ledger host:
//! deterministic sub-record addressing, authority verification (direct and
//! delegated), lock-gated mutation, atomic balance transfer, and delegated
//! cross-module invocation over typed records.

pub mod addr;
pub mod auth;
pub mod errors;
pub mod events;
pub mod laws;
pub mod records;
pub mod social;
pub mod store;
pub mod ticketing;
pub mod vault;
