//! The transaction state machine.
//!
//! A transaction buffers its writes locally, stacks savepoints as
//! positions into that buffer, and holds its row locks in the shared
//! store's lock table under its identifier.  It is usable while `Active`
//! and refuses every operation after `commit` or `rollback`.

use vstd::prelude::*;

use crate::error::Error;
use crate::options::{default_column_family, ColumnFamily, ReadOptions};
use crate::snapshot::Snapshot;
use crate::store::{
    batch, bytes_to_vec, lemma_batch_read, lemma_value_at_pin_above, opt_bytes, pending_value,
    read_committed, read_pending, value_at, CommittedEntry, PendingWrite, WriteOp,
};
use crate::transaction_db::{
    lock_conflict, lock_step_ok, locks_others_same, other_owner, owns_lock, pin_of, same_but_locks,
    TransactionDB,
};

verus! {

/// The lifecycle state of a transaction: `Active` until it ends, then one
/// of the two terminal states, out of which no transition exists.
#[derive(Clone, Copy, Debug, PartialEq, Eq, Structural)]
pub enum TransactionState {
    Active,
    Committed,
    RolledBack,
}

/// A transaction: buffered writes, savepoint stack, lifecycle state, and
/// the snapshot bound at begin time, if one was asked for.
#[derive(Debug)]
pub struct Transaction {
    /// The identifier under which this transaction's locks are held.
    pub id: u64,
    /// Lifecycle state; operations are refused once terminal.
    pub state: TransactionState,
    /// Buffered, uncommitted writes, oldest first.
    pub writes: Vec<PendingWrite>,
    /// Savepoints, innermost last: each is a position into `writes`.
    pub savepoints: Vec<usize>,
    /// The sequence number of the snapshot bound at begin time.
    pub snapshot_seq: Option<u64>,
}

/// The result a transactional read serves: a terminal transaction and an
/// unknown column family are rejected; otherwise the transaction's own
/// buffered writes are folded over the committed value pinned per the
/// read options.
pub open spec fn txn_read_result(
    t: Transaction,
    db: TransactionDB,
    cf: ColumnFamily,
    key: Seq<u8>,
    ro: ReadOptions,
) -> Result<Option<Seq<u8>>, Error> {
    if !t.is_active() {
        Result::Err(Error::InvalidState)
    } else if cf.id >= db.cfs@.len() {
        Result::Err(Error::InvalidColumnFamily)
    } else {
        Result::Ok(
            pending_value(
                t.writes@,
                cf.id as int,
                key,
                value_at(db.log@, cf.id as int, key, pin_of(db.seq, ro)),
            ),
        )
    }
}

impl Transaction {
    /// Whether the transaction is still usable.
    pub open spec fn is_active(self) -> bool {
        self.state is Active
    }

    /// Well-formedness: every savepoint lies within the write buffer, and
    /// the stack is ordered, oldest position first.
    pub open spec fn wf(self) -> bool {
        &&& forall|i: int|
            0 <= i < self.savepoints@.len() ==> (#[trigger] self.savepoints@[i])
                <= self.writes@.len()
        &&& forall|i: int, j: int|
            0 <= i <= j < self.savepoints@.len() ==> (#[trigger] self.savepoints@[i])
                <= (#[trigger] self.savepoints@[j])
    }

    /// A fresh, active transaction under the given identifier, with no
    /// buffered writes, no savepoints, and no bound snapshot.  Beginning
    /// a transaction on the store hands the identifier out from the
    /// store's counter, which keeps identifiers distinct; every operation
    /// below asks that the identifier lie under that counter.
    pub fn new(id: u64) -> (t: Transaction)
        ensures
            t.id == id,
            t.is_active(),
            t.writes@.len() == 0,
            t.savepoints@.len() == 0,
            t.snapshot_seq is None,
            t.wf(),
    {
        Transaction {
            id,
            state: TransactionState::Active,
            writes: Vec::new(),
            savepoints: Vec::new(),
            snapshot_seq: Option::None,
        }
    }

    /// Reads `key` and takes a row lock on it for the rest of the
    /// transaction's life, under explicit column family, read options and
    /// exclusivity.  Fails fast with a conflict when another live
    /// transaction's hold collides, leaving the lock table untouched;
    /// re-acquisition of a hold this transaction already has is
    /// idempotent.
    pub fn get_for_update_cf_opt(
        &self,
        db: &mut TransactionDB,
        cf: &ColumnFamily,
        key: &[u8],
        readopts: &ReadOptions,
        exclusive: bool,
    ) -> (r: Result<Option<Vec<u8>>, Error>)
        requires
            old(db).wf(),
            self.id < old(db).next_txn_id,
        ensures
            final(db).wf(),
            same_but_locks(*old(db), *final(db)),
            locks_others_same(old(db).locks@, final(db).locks@, self.id),
            match r {
                Result::Err(e) => final(db).locks == old(db).locks && (if !self.is_active() {
                    e == Error::InvalidState
                } else if cf.id >= old(db).cfs@.len() {
                    e == Error::InvalidColumnFamily
                } else {
                    e == Error::Conflict && lock_conflict(
                        old(db).locks@,
                        self.id,
                        cf.id as int,
                        key@,
                        exclusive,
                    )
                }),
                Result::Ok(v) => self.is_active() && cf.id < old(db).cfs@.len() && lock_step_ok(
                    old(db).locks@,
                    final(db).locks@,
                    self.id,
                    cf.id as int,
                    key@,
                    exclusive,
                ) && opt_bytes(v) == pending_value(
                    self.writes@,
                    cf.id as int,
                    key@,
                    value_at(old(db).log@, cf.id as int, key@, pin_of(old(db).seq, *readopts)),
                ),
            },
    {
        if !(self.state == TransactionState::Active) {
            return Result::Err(Error::InvalidState);
        }
        if cf.id >= db.cfs.len() {
            return Result::Err(Error::InvalidColumnFamily);
        }
        match db.acquire_lock(self.id, cf.id, key, exclusive) {
            Result::Err(e) => Result::Err(e),
            Result::Ok(()) => {
                let pin = match readopts.snapshot_seq {
                    Option::None => db.seq,
                    Option::Some(s) => s,
                };
                let base = read_committed(&db.log, cf.id, key, pin);
                Result::Ok(read_pending(&self.writes, cf.id, key, base))
            },
        }
    }

    /// Reads `key` for update in the default column family, under
    /// explicit read options and exclusivity.
    pub fn get_for_update_opt(
        &self,
        db: &mut TransactionDB,
        key: &[u8],
        readopts: &ReadOptions,
        exclusive: bool,
    ) -> (r: Result<Option<Vec<u8>>, Error>)
        requires
            old(db).wf(),
            self.id < old(db).next_txn_id,
        ensures
            final(db).wf(),
            same_but_locks(*old(db), *final(db)),
            locks_others_same(old(db).locks@, final(db).locks@, self.id),
            match r {
                Result::Err(e) => final(db).locks == old(db).locks && (if !self.is_active() {
                    e == Error::InvalidState
                } else if old(db).cfs@.len() == 0 {
                    e == Error::InvalidColumnFamily
                } else {
                    e == Error::Conflict && lock_conflict(
                        old(db).locks@,
                        self.id,
                        0,
                        key@,
                        exclusive,
                    )
                }),
                Result::Ok(v) => self.is_active() && old(db).cfs@.len() > 0 && lock_step_ok(
                    old(db).locks@,
                    final(db).locks@,
                    self.id,
                    0,
                    key@,
                    exclusive,
                ) && opt_bytes(v) == pending_value(
                    self.writes@,
                    0,
                    key@,
                    value_at(old(db).log@, 0, key@, pin_of(old(db).seq, *readopts)),
                ),
            },
    {
        self.get_for_update_cf_opt(db, &default_column_family(), key, readopts, exclusive)
    }

    /// Reads `key` for update in the default column family, under
    /// default options, taking the lock exclusively.
    pub fn get_for_update(&self, db: &mut TransactionDB, key: &[u8]) -> (r: Result<
        Option<Vec<u8>>,
        Error,
    >)
        requires
            old(db).wf(),
            self.id < old(db).next_txn_id,
        ensures
            final(db).wf(),
            same_but_locks(*old(db), *final(db)),
            locks_others_same(old(db).locks@, final(db).locks@, self.id),
            match r {
                Result::Err(e) => final(db).locks == old(db).locks && (if !self.is_active() {
                    e == Error::InvalidState
                } else if old(db).cfs@.len() == 0 {
                    e == Error::InvalidColumnFamily
                } else {
                    e == Error::Conflict && lock_conflict(old(db).locks@, self.id, 0, key@, true)
                }),
                Result::Ok(v) => self.is_active() && old(db).cfs@.len() > 0 && lock_step_ok(
                    old(db).locks@,
                    final(db).locks@,
                    self.id,
                    0,
                    key@,
                    true,
                ) && opt_bytes(v) == pending_value(
                    self.writes@,
                    0,
                    key@,
                    value_at(old(db).log@, 0, key@, old(db).seq),
                ),
            },
    {
        let opt = ReadOptions::default();
        self.get_for_update_opt(db, key, &opt, true)
    }

    /// Reads `key` for update in the given column family, under default
    /// options, taking the lock exclusively.
    pub fn get_for_update_cf(&self, db: &mut TransactionDB, cf: &ColumnFamily, key: &[u8]) -> (r:
        Result<Option<Vec<u8>>, Error>)
        requires
            old(db).wf(),
            self.id < old(db).next_txn_id,
        ensures
            final(db).wf(),
            same_but_locks(*old(db), *final(db)),
            locks_others_same(old(db).locks@, final(db).locks@, self.id),
            match r {
                Result::Err(e) => final(db).locks == old(db).locks && (if !self.is_active() {
                    e == Error::InvalidState
                } else if cf.id >= old(db).cfs@.len() {
                    e == Error::InvalidColumnFamily
                } else {
                    e == Error::Conflict && lock_conflict(
                        old(db).locks@,
                        self.id,
                        cf.id as int,
                        key@,
                        true,
                    )
                }),
                Result::Ok(v) => self.is_active() && cf.id < old(db).cfs@.len() && lock_step_ok(
                    old(db).locks@,
                    final(db).locks@,
                    self.id,
                    cf.id as int,
                    key@,
                    true,
                ) && opt_bytes(v) == pending_value(
                    self.writes@,
                    cf.id as int,
                    key@,
                    value_at(old(db).log@, cf.id as int, key@, old(db).seq),
                ),
            },
    {
        let opt = ReadOptions::default();
        self.get_for_update_cf_opt(db, cf, key, &opt, true)
    }

    /// Takes the exclusive row lock and appends one operation to the
    /// write buffer.  All buffered writes share this path.
    fn buffer_write(&mut self, db: &mut TransactionDB, cf: &ColumnFamily, key: &[u8], op: WriteOp) -> (r:
        Result<(), Error>)
        requires
            old(self).wf(),
            old(db).wf(),
            old(self).id < old(db).next_txn_id,
        ensures
            final(self).wf(),
            final(db).wf(),
            final(self).id == old(self).id,
            same_but_locks(*old(db), *final(db)),
            locks_others_same(old(db).locks@, final(db).locks@, old(self).id),
            match r {
                Result::Err(e) => *final(self) == *old(self) && final(db).locks == old(db).locks && (
                if !old(self).is_active() {
                    e == Error::InvalidState
                } else if cf.id >= old(db).cfs@.len() {
                    e == Error::InvalidColumnFamily
                } else {
                    e == Error::Conflict && lock_conflict(
                        old(db).locks@,
                        old(self).id,
                        cf.id as int,
                        key@,
                        true,
                    )
                }),
                Result::Ok(()) => old(self).is_active() && cf.id < old(db).cfs@.len()
                    && lock_step_ok(
                    old(db).locks@,
                    final(db).locks@,
                    old(self).id,
                    cf.id as int,
                    key@,
                    true,
                ) && final(self).writes@ == old(self).writes@.push(final(self).writes@.last())
                    && final(self).writes@.last().cf == cf.id && final(self).writes@.last().key@
                    == key@ && final(self).writes@.last().op == op && final(self).state == old(self).state && final(self).savepoints == old(self).savepoints && final(self).snapshot_seq == old(self).snapshot_seq,
            },
    {
        if !(self.state == TransactionState::Active) {
            return Result::Err(Error::InvalidState);
        }
        if cf.id >= db.cfs.len() {
            return Result::Err(Error::InvalidColumnFamily);
        }
        match db.acquire_lock(self.id, cf.id, key, true) {
            Result::Err(e) => Result::Err(e),
            Result::Ok(()) => {
                self.writes.push(PendingWrite { cf: cf.id, key: bytes_to_vec(key), op });
                proof {
                    assert forall|i: int|
                        0 <= i < self.savepoints@.len() implies (#[trigger] self.savepoints@[i])
                        <= self.writes@.len() by {
                        assert(old(self).savepoints@[i] <= old(self).writes@.len());
                    }
                }
                Result::Ok(())
            },
        }
    }

    /// Buffers a put of `value` under `key` in the given column family,
    /// taking the exclusive row lock.  The write is visible to this
    /// transaction's own reads at once and to nobody else until commit.
    pub fn put_cf(&mut self, db: &mut TransactionDB, cf: &ColumnFamily, key: &[u8], value: &[u8]) -> (r:
        Result<(), Error>)
        requires
            old(self).wf(),
            old(db).wf(),
            old(self).id < old(db).next_txn_id,
        ensures
            final(self).wf(),
            final(db).wf(),
            final(self).id == old(self).id,
            same_but_locks(*old(db), *final(db)),
            locks_others_same(old(db).locks@, final(db).locks@, old(self).id),
            match r {
                Result::Err(e) => *final(self) == *old(self) && final(db).locks == old(db).locks
                    && (if !old(self).is_active() {
                    e == Error::InvalidState
                } else if cf.id >= old(db).cfs@.len() {
                    e == Error::InvalidColumnFamily
                } else {
                    e == Error::Conflict && lock_conflict(
                        old(db).locks@,
                        old(self).id,
                        cf.id as int,
                        key@,
                        true,
                    )
                }),
                Result::Ok(()) => old(self).is_active() && cf.id < old(db).cfs@.len()
                    && lock_step_ok(
                    old(db).locks@,
                    final(db).locks@,
                    old(self).id,
                    cf.id as int,
                    key@,
                    true,
                ) && final(self).writes@ == old(self).writes@.push(final(self).writes@.last())
                    && final(self).writes@.last().cf == cf.id && final(self).writes@.last().key@
                    == key@ && (final(self).writes@.last().op matches WriteOp::Put(v) && v@
                    == value@) && final(self).state == old(self).state && final(self).savepoints
                    == old(self).savepoints && final(self).snapshot_seq == old(self).snapshot_seq,
            },
    {
        self.buffer_write(db, cf, key, WriteOp::Put(bytes_to_vec(value)))
    }

    /// Buffers a put of `value` under `key` in the default column family.
    pub fn put(&mut self, db: &mut TransactionDB, key: &[u8], value: &[u8]) -> (r: Result<
        (),
        Error,
    >)
        requires
            old(self).wf(),
            old(db).wf(),
            old(self).id < old(db).next_txn_id,
        ensures
            final(self).wf(),
            final(db).wf(),
            final(self).id == old(self).id,
            same_but_locks(*old(db), *final(db)),
            locks_others_same(old(db).locks@, final(db).locks@, old(self).id),
            match r {
                Result::Err(e) => *final(self) == *old(self) && final(db).locks == old(db).locks
                    && (if !old(self).is_active() {
                    e == Error::InvalidState
                } else if old(db).cfs@.len() == 0 {
                    e == Error::InvalidColumnFamily
                } else {
                    e == Error::Conflict && lock_conflict(
                        old(db).locks@,
                        old(self).id,
                        0,
                        key@,
                        true,
                    )
                }),
                Result::Ok(()) => old(self).is_active() && old(db).cfs@.len() > 0 && lock_step_ok(
                    old(db).locks@,
                    final(db).locks@,
                    old(self).id,
                    0,
                    key@,
                    true,
                ) && final(self).writes@ == old(self).writes@.push(final(self).writes@.last())
                    && final(self).writes@.last().cf == 0 && final(self).writes@.last().key@ == key@
                    && (final(self).writes@.last().op matches WriteOp::Put(v) && v@ == value@)
                    && final(self).state == old(self).state && final(self).savepoints == old(self).savepoints && final(self).snapshot_seq == old(self).snapshot_seq,
            },
    {
        self.put_cf(db, &default_column_family(), key, value)
    }

    /// Buffers a delete of `key` in the given column family, taking the
    /// exclusive row lock.
    pub fn delete_cf(&mut self, db: &mut TransactionDB, cf: &ColumnFamily, key: &[u8]) -> (r:
        Result<(), Error>)
        requires
            old(self).wf(),
            old(db).wf(),
            old(self).id < old(db).next_txn_id,
        ensures
            final(self).wf(),
            final(db).wf(),
            final(self).id == old(self).id,
            same_but_locks(*old(db), *final(db)),
            locks_others_same(old(db).locks@, final(db).locks@, old(self).id),
            match r {
                Result::Err(e) => *final(self) == *old(self) && final(db).locks == old(db).locks
                    && (if !old(self).is_active() {
                    e == Error::InvalidState
                } else if cf.id >= old(db).cfs@.len() {
                    e == Error::InvalidColumnFamily
                } else {
                    e == Error::Conflict && lock_conflict(
                        old(db).locks@,
                        old(self).id,
                        cf.id as int,
                        key@,
                        true,
                    )
                }),
                Result::Ok(()) => old(self).is_active() && cf.id < old(db).cfs@.len()
                    && lock_step_ok(
                    old(db).locks@,
                    final(db).locks@,
                    old(self).id,
                    cf.id as int,
                    key@,
                    true,
                ) && final(self).writes@ == old(self).writes@.push(final(self).writes@.last())
                    && final(self).writes@.last().cf == cf.id && final(self).writes@.last().key@
                    == key@ && final(self).writes@.last().op == WriteOp::Delete && final(self).state
                    == old(self).state && final(self).savepoints == old(self).savepoints && final(self).snapshot_seq == old(self).snapshot_seq,
            },
    {
        self.buffer_write(db, cf, key, WriteOp::Delete)
    }

    /// Buffers a delete of `key` in the default column family.
    pub fn delete(&mut self, db: &mut TransactionDB, key: &[u8]) -> (r: Result<(), Error>)
        requires
            old(self).wf(),
            old(db).wf(),
            old(self).id < old(db).next_txn_id,
        ensures
            final(self).wf(),
            final(db).wf(),
            final(self).id == old(self).id,
            same_but_locks(*old(db), *final(db)),
            locks_others_same(old(db).locks@, final(db).locks@, old(self).id),
            match r {
                Result::Err(e) => *final(self) == *old(self) && final(db).locks == old(db).locks
                    && (if !old(self).is_active() {
                    e == Error::InvalidState
                } else if old(db).cfs@.len() == 0 {
                    e == Error::InvalidColumnFamily
                } else {
                    e == Error::Conflict && lock_conflict(
                        old(db).locks@,
                        old(self).id,
                        0,
                        key@,
                        true,
                    )
                }),
                Result::Ok(()) => old(self).is_active() && old(db).cfs@.len() > 0 && lock_step_ok(
                    old(db).locks@,
                    final(db).locks@,
                    old(self).id,
                    0,
                    key@,
                    true,
                ) && final(self).writes@ == old(self).writes@.push(final(self).writes@.last())
                    && final(self).writes@.last().cf == 0 && final(self).writes@.last().key@ == key@
                    && final(self).writes@.last().op == WriteOp::Delete && final(self).state == old(self).state && final(self).savepoints == old(self).savepoints && final(self).snapshot_seq == old(self).snapshot_seq,
            },
    {
        self.delete_cf(db, &default_column_family(), key)
    }

    /// Buffers a merge of `operand` into `key` in the given column
    /// family, taking the exclusive row lock.  Refused when the store was
    /// opened without a merge operator.
    pub fn merge_cf(&mut self, db: &mut TransactionDB, cf: &ColumnFamily, key: &[u8], operand: &[u8]) -> (r:
        Result<(), Error>)
        requires
            old(self).wf(),
            old(db).wf(),
            old(self).id < old(db).next_txn_id,
        ensures
            final(self).wf(),
            final(db).wf(),
            final(self).id == old(self).id,
            same_but_locks(*old(db), *final(db)),
            locks_others_same(old(db).locks@, final(db).locks@, old(self).id),
            match r {
                Result::Err(e) => *final(self) == *old(self) && final(db).locks == old(db).locks
                    && (if !old(self).is_active() {
                    e == Error::InvalidState
                } else if cf.id >= old(db).cfs@.len() {
                    e == Error::InvalidColumnFamily
                } else if old(db).merge_operator is None {
                    e == Error::NoMergeOperator
                } else {
                    e == Error::Conflict && lock_conflict(
                        old(db).locks@,
                        old(self).id,
                        cf.id as int,
                        key@,
                        true,
                    )
                }),
                Result::Ok(()) => old(self).is_active() && cf.id < old(db).cfs@.len() && old(db).merge_operator is Some && lock_step_ok(
                    old(db).locks@,
                    final(db).locks@,
                    old(self).id,
                    cf.id as int,
                    key@,
                    true,
                ) && final(self).writes@ == old(self).writes@.push(final(self).writes@.last())
                    && final(self).writes@.last().cf == cf.id && final(self).writes@.last().key@
                    == key@ && (final(self).writes@.last().op matches WriteOp::Merge(m) && m@
                    == operand@) && final(self).state == old(self).state && final(self).savepoints
                    == old(self).savepoints && final(self).snapshot_seq == old(self).snapshot_seq,
            },
    {
        if !(self.state == TransactionState::Active) {
            return Result::Err(Error::InvalidState);
        }
        if cf.id >= db.cfs.len() {
            return Result::Err(Error::InvalidColumnFamily);
        }
        let has_operator = match db.merge_operator {
            Option::Some(_) => true,
            Option::None => false,
        };
        if !has_operator {
            return Result::Err(Error::NoMergeOperator);
        }
        self.buffer_write(db, cf, key, WriteOp::Merge(bytes_to_vec(operand)))
    }

    /// Buffers a merge of `operand` into `key` in the default column
    /// family.
    pub fn merge(&mut self, db: &mut TransactionDB, key: &[u8], operand: &[u8]) -> (r: Result<
        (),
        Error,
    >)
        requires
            old(self).wf(),
            old(db).wf(),
            old(self).id < old(db).next_txn_id,
        ensures
            final(self).wf(),
            final(db).wf(),
            final(self).id == old(self).id,
            same_but_locks(*old(db), *final(db)),
            locks_others_same(old(db).locks@, final(db).locks@, old(self).id),
            match r {
                Result::Err(e) => *final(self) == *old(self) && final(db).locks == old(db).locks
                    && (if !old(self).is_active() {
                    e == Error::InvalidState
                } else if old(db).cfs@.len() == 0 {
                    e == Error::InvalidColumnFamily
                } else if old(db).merge_operator is None {
                    e == Error::NoMergeOperator
                } else {
                    e == Error::Conflict && lock_conflict(
                        old(db).locks@,
                        old(self).id,
                        0,
                        key@,
                        true,
                    )
                }),
                Result::Ok(()) => old(self).is_active() && old(db).cfs@.len() > 0 && old(db).merge_operator is Some && lock_step_ok(
                    old(db).locks@,
                    final(db).locks@,
                    old(self).id,
                    0,
                    key@,
                    true,
                ) && final(self).writes@ == old(self).writes@.push(final(self).writes@.last())
                    && final(self).writes@.last().cf == 0 && final(self).writes@.last().key@ == key@
                    && (final(self).writes@.last().op matches WriteOp::Merge(m) && m@ == operand@)
                    && final(self).state == old(self).state && final(self).savepoints == old(self).savepoints && final(self).snapshot_seq == old(self).snapshot_seq,
            },
    {
        self.merge_cf(db, &default_column_family(), key, operand)
    }

    /// Pushes a savepoint: a marker at the current end of the write
    /// buffer, to which a later `rollback_to_savepoint` returns.
    pub fn set_savepoint(&mut self) -> (r: Result<(), Error>)
        requires
            old(self).wf(),
        ensures
            final(self).wf(),
            final(self).id == old(self).id,
            match r {
                Result::Err(e) => e == Error::InvalidState && !old(self).is_active() && *final(self)
                    == *old(self),
                Result::Ok(()) => old(self).is_active() && final(self).writes == old(self).writes
                    && final(self).savepoints@ == old(self).savepoints@.push(
                    old(self).writes@.len() as usize,
                ) && final(self).state == old(self).state && final(self).snapshot_seq == old(self).snapshot_seq,
            },
    {
        if !(self.state == TransactionState::Active) {
            return Result::Err(Error::InvalidState);
        }
        let pos = self.writes.len();
        self.savepoints.push(pos);
        proof {
            assert forall|i: int, j: int|
                0 <= i <= j < self.savepoints@.len() implies (#[trigger] self.savepoints@[i])
                <= (#[trigger] self.savepoints@[j]) by {
                if j < old(self).savepoints@.len() {
                    assert(old(self).savepoints@[i] <= old(self).savepoints@[j]);
                } else if i < old(self).savepoints@.len() {
                    assert(old(self).savepoints@[i] <= old(self).writes@.len());
                }
            }
        }
        Result::Ok(())
    }

    /// Pops the most recent savepoint and discards every write buffered
    /// after it; earlier savepoints and writes stay.  Fails when none is
    /// outstanding.  Row locks already taken are kept.
    pub fn rollback_to_savepoint(&mut self) -> (r: Result<(), Error>)
        requires
            old(self).wf(),
        ensures
            final(self).wf(),
            final(self).id == old(self).id,
            match r {
                Result::Err(e) => e == Error::InvalidState && *final(self) == *old(self) && (!old(self).is_active() || old(self).savepoints@.len() == 0),
                Result::Ok(()) => old(self).is_active() && old(self).savepoints@.len() > 0 && final(self).writes@ == old(self).writes@.take(old(self).savepoints@.last() as int) && final(self).savepoints@ == old(self).savepoints@.drop_last() && final(self).state == old(self).state && final(self).snapshot_seq == old(self).snapshot_seq,
            },
    {
        if !(self.state == TransactionState::Active) {
            return Result::Err(Error::InvalidState);
        }
        if self.savepoints.len() == 0 {
            return Result::Err(Error::InvalidState);
        }
        match self.savepoints.pop() {
            Option::None => {
                proof {
                    assert(false);
                }
                Result::Err(Error::InvalidState)
            },
            Option::Some(pos) => {
                proof {
                    assert(old(self).savepoints@.last() == pos);
                    assert(pos <= old(self).writes@.len());
                }
                self.writes.truncate(pos);
                proof {
                    assert(self.writes@ == old(self).writes@.subrange(0, pos as int));
                    assert forall|i: int, j: int|
                        0 <= i <= j < self.savepoints@.len() implies (#[trigger] self
                            .savepoints@[i]) <= (#[trigger] self.savepoints@[j]) by {
                        assert(old(self).savepoints@[i] <= old(self).savepoints@[j]);
                    }
                    assert forall|i: int|
                        0 <= i < self.savepoints@.len() implies (#[trigger] self.savepoints@[i])
                        <= self.writes@.len() by {
                        assert(old(self).savepoints@[i] <= old(self).savepoints@[
                            old(self).savepoints@.len() - 1
                        ]);
                    }
                }
                Result::Ok(())
            },
        }
    }

    /// Applies every buffered write to the store as one atomic commit
    /// under a fresh sequence number, releases all row locks this
    /// transaction holds, and ends the transaction.  On a terminal
    /// transaction it fails and changes nothing.
    pub fn commit(&mut self, db: &mut TransactionDB) -> (r: Result<(), Error>)
        requires
            old(self).wf(),
            old(db).wf(),
            old(db).seq < u64::MAX,
        ensures
            final(self).wf(),
            final(db).wf(),
            final(self).id == old(self).id,
            match r {
                Result::Err(e) => e == Error::InvalidState && !old(self).is_active() && *final(self)
                    == *old(self) && *final(db) == *old(db),
                Result::Ok(()) => old(self).is_active() && final(db).log@ == old(db).log@ + batch(
                    old(self).writes@,
                    (old(db).seq + 1) as u64,
                ) && final(db).seq == old(db).seq + 1 && final(db).cfs == old(db).cfs && final(db).path == old(db).path && final(db).merge_operator == old(db).merge_operator
                    && final(db).next_txn_id == old(db).next_txn_id && final(db).locks@ == old(db).locks@.filter(other_owner(old(self).id)) && (forall|c: int, k: Seq<u8>|
                    !(#[trigger] owns_lock(final(db).locks@, old(self).id, c, k)))
                    && locks_others_same(old(db).locks@, final(db).locks@, old(self).id) && final(self).state is Committed && final(self).writes@.len() == 0 && final(self).savepoints@.len() == 0 && final(self).snapshot_seq is None,
            },
    {
        if !(self.state == TransactionState::Active) {
            return Result::Err(Error::InvalidState);
        }
        let s = db.seq + 1;
        let ghost ws = self.writes@;
        let mut tmp: Vec<PendingWrite> = Vec::new();
        core::mem::swap(&mut self.writes, &mut tmp);
        let mut i: usize = 0;
        let n: usize = tmp.len();
        proof {
            assert(ws.len() == n as int);
            assert(batch(ws.take(0), s) =~= Seq::<CommittedEntry>::empty());
            assert(db.log@ =~= old(db).log@ + batch(ws.take(0), s));
        }
        while tmp.len() > 0
            invariant
                i + tmp@.len() == ws.len(),
                i <= ws.len(),
                ws.len() <= usize::MAX,
                tmp@ == ws.subrange(i as int, ws.len() as int),
                db.log@ == old(db).log@ + batch(ws.take(i as int), s),
                db.seq == old(db).seq,
                db.locks == old(db).locks,
                db.cfs == old(db).cfs,
                db.path == old(db).path,
                db.merge_operator == old(db).merge_operator,
                db.next_txn_id == old(db).next_txn_id,
            decreases tmp.len(),
        {
            let w = tmp.remove(0);
            proof {
                assert(w == ws[i as int]);
                assert(tmp@ =~= ws.subrange(i + 1, ws.len() as int));
                assert(ws.take(i + 1).drop_last() =~= ws.take(i as int));
                assert(ws.take(i + 1).last() == ws[i as int]);
            }
            let entry = CommittedEntry { seq: s, cf: w.cf, key: w.key, op: w.op };
            db.log.push(entry);
            proof {
                assert(db.log@ =~= old(db).log@ + batch(ws.take(i + 1), s));
            }
            i += 1;
        }
        proof {
            assert(ws.take(ws.len() as int) =~= ws);
        }
        db.seq = s;
        proof {
            crate::store::lemma_batch_seq(ws, s);
            assert forall|j: int| 0 <= j < db.log@.len() implies (#[trigger] db.log@[j]).seq
                <= db.seq by {
                if j < old(db).log@.len() {
                    assert(db.log@[j] == old(db).log@[j]);
                    assert(old(db).log@[j].seq <= old(db).seq);
                } else {
                    assert(db.log@[j] == batch(ws, s)[j - old(db).log@.len()]);
                }
            }
        }
        db.release_locks(self.id);
        self.state = TransactionState::Committed;
        self.savepoints = Vec::new();
        self.snapshot_seq = Option::None;
        Result::Ok(())
    }

    /// Discards every buffered write, releases all row locks this
    /// transaction holds, and ends the transaction; the store's committed
    /// state is untouched.  A second call fails: the transaction is
    /// already terminal, and no lock is released twice.
    pub fn rollback(&mut self, db: &mut TransactionDB) -> (r: Result<(), Error>)
        requires
            old(self).wf(),
            old(db).wf(),
        ensures
            final(self).wf(),
            final(db).wf(),
            final(self).id == old(self).id,
            match r {
                Result::Err(e) => e == Error::InvalidState && !old(self).is_active() && *final(self)
                    == *old(self) && *final(db) == *old(db),
                Result::Ok(()) => old(self).is_active() && final(db).log == old(db).log && final(db).seq == old(db).seq && final(db).cfs == old(db).cfs && final(db).path == old(db).path && final(db).merge_operator == old(db).merge_operator && final(db).next_txn_id == old(db).next_txn_id && final(db).locks@ == old(db).locks@.filter(
                    other_owner(old(self).id),
                ) && (forall|c: int, k: Seq<u8>|
                    !(#[trigger] owns_lock(final(db).locks@, old(self).id, c, k)))
                    && locks_others_same(old(db).locks@, final(db).locks@, old(self).id) && final(self).state is RolledBack && final(self).writes@.len() == 0 && final(self).savepoints@.len() == 0 && final(self).snapshot_seq is None,
            },
    {
        if !(self.state == TransactionState::Active) {
            return Result::Err(Error::InvalidState);
        }
        self.writes = Vec::new();
        self.savepoints = Vec::new();
        self.snapshot_seq = Option::None;
        self.state = TransactionState::RolledBack;
        db.release_locks(self.id);
        Result::Ok(())
    }

    /// The read-only view of the snapshot bound at begin time.  Fails
    /// when the transaction was begun without one.
    pub fn snapshot(&self) -> (r: Result<Snapshot, Error>)
        ensures
            match r {
                Result::Ok(s) => self.snapshot_seq == Option::Some(s.seq),
                Result::Err(e) => e == Error::InvalidState && self.snapshot_seq is None,
            },
    {
        match self.snapshot_seq {
            Option::Some(s) => Result::Ok(Snapshot { seq: s }),
            Option::None => Result::Err(Error::InvalidState),
        }
    }
}

/// Round trip within one transaction: after buffering a put of `value`
/// under `key`, the transaction's own read of that key serves `value`,
/// whatever was buffered before and whatever the base store holds.
pub proof fn lemma_put_get(
    ws: Seq<PendingWrite>,
    w: PendingWrite,
    cf: int,
    key: Seq<u8>,
    base: Option<Seq<u8>>,
    value: Seq<u8>,
)
    requires
        w.cf as int == cf,
        w.key@ == key,
        w.op matches WriteOp::Put(v) && v@ == value,
    ensures
        pending_value(ws.push(w), cf, key, base) == Option::Some(value),
{
    assert(ws.push(w).drop_last() =~= ws);
    assert(ws.push(w).last() == w);
}

/// A buffered write on one key leaves the transaction's reads of every
/// other key as they were.
pub proof fn lemma_write_other_key(
    ws: Seq<PendingWrite>,
    w: PendingWrite,
    cf: int,
    key: Seq<u8>,
    base: Option<Seq<u8>>,
)
    requires
        w.cf as int != cf || w.key@ != key,
    ensures
        pending_value(ws.push(w), cf, key, base) == pending_value(ws, cf, key, base),
{
    assert(ws.push(w).drop_last() =~= ws);
    assert(ws.push(w).last() == w);
}

/// The savepoint law.  Take a transaction `t0`; let `t1` be `t0` after
/// `set_savepoint`, `t2` be `t1` after buffering any writes, and `t3` be
/// `t2` after `rollback_to_savepoint` — the relations below are exactly
/// what those operations ensure.  Then `t3` buffers precisely `t0`'s
/// writes again, its savepoint stack is `t0`'s, and every read it serves
/// equals the read `t0` served before the savepoint was set.
pub proof fn lemma_savepoint_restores(
    t0: Transaction,
    t1: Transaction,
    t2: Transaction,
    t3: Transaction,
    appended: Seq<PendingWrite>,
    cf: int,
    key: Seq<u8>,
    base: Option<Seq<u8>>,
)
    requires
        t0.writes@.len() <= usize::MAX,
        t1.writes@ == t0.writes@,
        t1.savepoints@ == t0.savepoints@.push(t0.writes@.len() as usize),
        t2.writes@ == t1.writes@ + appended,
        t2.savepoints@ == t1.savepoints@,
        t3.writes@ == t2.writes@.take(t2.savepoints@.last() as int),
        t3.savepoints@ == t2.savepoints@.drop_last(),
    ensures
        t3.writes@ == t0.writes@,
        t3.savepoints@ == t0.savepoints@,
        pending_value(t3.writes@, cf, key, base) == pending_value(t0.writes@, cf, key, base),
{
    assert(t2.savepoints@.last() == t0.writes@.len());
    assert(t3.writes@ =~= t0.writes@);
    assert(t3.savepoints@ =~= t0.savepoints@);
}

/// Commit makes a transaction's view durable: after a commit extends the
/// log by the transaction's batch — as `commit` ensures — the store's
/// current value of every key equals the fold of the transaction's
/// buffered writes over the value the store held before.  In particular
/// a fresh transaction, which buffers nothing, reads exactly what the
/// committed transaction saw.
pub proof fn lemma_committed_read(
    pre: TransactionDB,
    post: TransactionDB,
    ws: Seq<PendingWrite>,
    cf: int,
    key: Seq<u8>,
)
    requires
        pre.wf(),
        pre.seq < u64::MAX,
        post.log@ == pre.log@ + batch(ws, (pre.seq + 1) as u64),
        post.seq == pre.seq + 1,
    ensures
        value_at(post.log@, cf, key, post.seq) == pending_value(
            ws,
            cf,
            key,
            value_at(pre.log@, cf, key, pre.seq),
        ),
{
    lemma_batch_read(pre.log@, ws, (pre.seq + 1) as u64, cf, key, post.seq);
    lemma_value_at_pin_above(pre.log@, cf, key, pre.seq, post.seq);
}

} // verus!
