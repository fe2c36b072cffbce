//! A transactional layer for an embedded key-value store.
//!
//! The store keeps a sequence-numbered log of committed writes, a table of
//! row locks, and a set of named column families.  Transactions buffer their
//! writes locally, take exclusive or shared row locks through
//! `get_for_update`, support nested rollback through savepoints, and apply
//! their whole write set atomically on commit.  Reads may be pinned to a
//! snapshot, an immutable point-in-time view named by a sequence number.

pub mod error;
pub mod options;
pub mod store;
pub mod snapshot;
pub mod transaction;
pub mod transaction_db;
pub mod ops;
