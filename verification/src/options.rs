//! Configuration types and column-family identities.
//!
//! The per-call option types carry exactly what the transactional core
//! reads; durability tuning belongs to the storage engine below this layer.

use vstd::prelude::*;

verus! {

/// The merge operator registered for a store.  A merge folds its operand
/// into the key's current value; the operator says how.
#[derive(Clone, Copy, Debug, PartialEq, Eq, Structural)]
pub enum MergeOperator {
    /// Append the operand onto the current value.
    Concat,
}

/// Options fixed when a store is opened.
#[derive(Debug)]
pub struct Options {
    /// Whether opening may create the store.  The in-memory model always
    /// starts empty, so this only records the caller's intent.
    pub create_if_missing: bool,
    /// The merge operator, if any.  A merge issued without one fails.
    pub merge_operator: Option<MergeOperator>,
}

impl Options {
    /// Sets whether opening may create the store.
    pub fn set_create_if_missing(&mut self, create: bool)
        ensures
            final(self).create_if_missing == create,
            final(self).merge_operator == old(self).merge_operator,
    {
        self.create_if_missing = create;
    }

    /// Registers the merge operator.
    pub fn set_merge_operator(&mut self, op: MergeOperator)
        ensures
            final(self).merge_operator == Option::Some(op),
            final(self).create_if_missing == old(self).create_if_missing,
    {
        self.merge_operator = Option::Some(op);
    }
}

impl Default for Options {
    fn default() -> (r: Options)
        ensures
            !r.create_if_missing,
            r.merge_operator is None,
    {
        Options { create_if_missing: false, merge_operator: Option::None }
    }
}

/// Per-read options: an optional pin to a snapshot's sequence number.
#[derive(Clone, Copy, Debug)]
pub struct ReadOptions {
    /// When set, the read observes the store as of this sequence number;
    /// when unset, it observes the current state.
    pub snapshot_seq: Option<u64>,
}

impl Default for ReadOptions {
    fn default() -> (r: ReadOptions)
        ensures
            r.snapshot_seq is None,
    {
        ReadOptions { snapshot_seq: Option::None }
    }
}

/// Per-commit durability options.  The in-memory model applies every
/// commit the same way, so nothing is read from them.
#[derive(Clone, Copy, Debug)]
pub struct WriteOptions {}

impl Default for WriteOptions {
    fn default() -> (r: WriteOptions)
    {
        WriteOptions {  }
    }
}

/// Options for beginning one transaction.
#[derive(Clone, Copy, Debug)]
pub struct TransactionOptions {
    /// When true, a snapshot taken at begin time is bound to the
    /// transaction for the transaction's whole life.
    pub snapshot: bool,
}

impl TransactionOptions {
    /// Options that bind no snapshot.
    pub fn new() -> (r: TransactionOptions)
        ensures
            !r.snapshot,
    {
        TransactionOptions { snapshot: false }
    }

    /// Sets whether a snapshot is bound at begin time.
    pub fn set_snapshot(&mut self, snapshot: bool)
        ensures
            final(self).snapshot == snapshot,
    {
        self.snapshot = snapshot;
    }
}

impl Default for TransactionOptions {
    fn default() -> (r: TransactionOptions)
        ensures
            !r.snapshot,
    {
        TransactionOptions { snapshot: false }
    }
}

/// Store-wide transaction options.  The conflict policy of this layer is
/// fail-fast, so no tuning is read from them.
#[derive(Clone, Copy, Debug)]
pub struct TransactionDBOptions {}

impl Default for TransactionDBOptions {
    fn default() -> (r: TransactionDBOptions)
    {
        TransactionDBOptions {  }
    }
}

/// A column family to open, with its name and its options.
#[derive(Debug)]
pub struct ColumnFamilyDescriptor {
    pub name: Vec<u8>,
    pub options: Options,
}

impl ColumnFamilyDescriptor {
    /// A descriptor for the named column family.
    pub fn new(name: &[u8], options: Options) -> (r: ColumnFamilyDescriptor)
        ensures
            r.name@ == name@,
            r.options == options,
    {
        ColumnFamilyDescriptor { name: crate::store::bytes_to_vec(name), options }
    }
}

/// A handle to one column family of an open store: the index of its name
/// in the store's list.  The default column family has index 0.
#[derive(Clone, Copy, Debug, PartialEq, Eq, Structural)]
pub struct ColumnFamily {
    pub id: usize,
}

/// The handle of the default column family.
pub fn default_column_family() -> (r: ColumnFamily)
    ensures
        r.id == 0,
{
    ColumnFamily { id: 0 }
}

} // verus!
