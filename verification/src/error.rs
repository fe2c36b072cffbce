//! The error taxonomy of the transactional layer.

use vstd::prelude::*;

verus! {

/// An error returned by the transactional layer.
///
/// An absent key is not an error: reads return `None` for it.
#[derive(Clone, Copy, Debug, PartialEq, Eq, Structural)]
pub enum Error {
    /// A row lock or a direct write could not be granted because another
    /// live transaction holds a conflicting lock.  Recoverable: the caller
    /// may retry or abandon its transaction.
    Conflict,
    /// An operation was issued against a transaction that has already
    /// committed or rolled back, or `rollback_to_savepoint` was called with
    /// no savepoint outstanding, or `snapshot` was asked of a transaction
    /// that was begun without one.
    InvalidState,
    /// A column family handle or name did not refer to a column family of
    /// the store, or a new column family clashed with an existing one.
    InvalidColumnFamily,
    /// A merge was issued while the store was opened without a merge
    /// operator.
    NoMergeOperator,
}

} // verus!
