//! A command dispatch service: dispatchers submit ordered batches of commands
//! against a named target, executors long-poll a target for work, and the
//! service owns ordering, retries, attempt leases and idempotent submission.
//!
//! Everything here is plain data and total functions over it; sockets, timers
//! and threads live with the embedding program, which feeds events in and
//! performs the actions that come back.

pub mod batch;
pub mod database;
pub mod errors;
pub mod fingerprint;
pub mod headers;
pub mod ids;
pub mod invariants;
pub mod laws;
pub mod notifications;
pub mod operations;
pub mod sharding;
pub mod waiters;

