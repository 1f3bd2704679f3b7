//! An in-process record store for execution tracking.
//!
//! The store keeps two independently locked partitions: a record table
//! (execution id to record, plus the id of the latest insertion) and a
//! config cell (at most one runtime configuration). `history` states what
//! holds after whole series of writes.
pub mod config;
pub mod history;
pub mod memory;
pub mod store;
pub mod table;
pub mod types;
