//! Persistence core of a network-telemetry collector.
//!
//! The library models the two tables of the store (`peer_connections` and
//! `tetcore_logs`), the bounded connection pool, and the executor that runs
//! the four data-access operations: create a peer connection, update a peer
//! connection, append a batch of log records, and purge expired log records.
//! Every operation is specified and verified against that model; the actual
//! SQL and pool plumbing live outside the library and follow the same
//! decision rules.

pub mod executor;
pub mod laws;
pub mod models;
pub mod pool;
pub mod store;
