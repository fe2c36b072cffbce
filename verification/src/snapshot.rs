//! Snapshots: immutable point-in-time views of the store.

use vstd::prelude::*;

use crate::error::Error;
use crate::ops::get::GetCFOpt;
use crate::options::{ColumnFamily, ReadOptions};
use crate::store::{batch, lemma_batch_seq, lemma_value_at_append, res_bytes, value_at, PendingWrite};
use crate::transaction::{txn_read_result, Transaction};
use crate::transaction_db::TransactionDB;

verus! {

/// An immutable point-in-time view of the store, named by the sequence
/// number it was taken at.  All reads pinned to it observe the store
/// exactly as of that sequence number, unaffected by later commits.
///
/// A snapshot is a plain value that borrows nothing and owns nothing, so
/// there is no release step to forget or to repeat.
#[derive(Clone, Copy, Debug, PartialEq, Eq, Structural)]
pub struct Snapshot {
    /// The sequence number the view is pinned at.
    pub seq: u64,
}

impl Snapshot {
    /// The sequence number the view is pinned at.
    pub fn sequence_number(&self) -> (r: u64)
        ensures
            r == self.seq,
    {
        self.seq
    }

    /// Return the value associated with `key` in the given column family
    /// as of this snapshot: the read a transaction would serve with its
    /// options pinned here — the transaction's own buffered writes still
    /// shadow the pinned committed state.
    pub fn get_cf(&self, txn: &Transaction, db: &TransactionDB, cf: &ColumnFamily, key: &[u8]) -> (r:
        Result<Option<Vec<u8>>, Error>)
        ensures
            res_bytes(r) == txn_read_result(
                *txn,
                *db,
                *cf,
                key@,
                (ReadOptions { snapshot_seq: Option::Some(self.seq) }),
            ),
    {
        let ro = ReadOptions { snapshot_seq: Option::Some(self.seq) };
        txn.get_cf_opt(db, cf, key, &ro)
    }

    /// Return the value associated with `key` in the default column
    /// family as of this snapshot.
    pub fn get(&self, txn: &Transaction, db: &TransactionDB, key: &[u8]) -> (r: Result<
        Option<Vec<u8>>,
        Error,
    >)
        ensures
            res_bytes(r) == txn_read_result(
                *txn,
                *db,
                (ColumnFamily { id: 0 }),
                key@,
                (ReadOptions { snapshot_seq: Option::Some(self.seq) }),
            ),
    {
        self.get_cf(txn, db, &crate::options::default_column_family(), key)
    }
}

/// Snapshot isolation: a commit appends only entries bearing a sequence
/// number above the store's at the time a snapshot was taken, so every
/// read pinned to the snapshot observes exactly the values it observed
/// before the commit, in every column family and for every key.
pub proof fn lemma_snapshot_isolation(
    pre: TransactionDB,
    post: TransactionDB,
    s: Snapshot,
    ws: Seq<PendingWrite>,
    cf: int,
    key: Seq<u8>,
)
    requires
        s.seq <= pre.seq,
        pre.seq < u64::MAX,
        post.log@ == pre.log@ + batch(ws, (pre.seq + 1) as u64),
    ensures
        value_at(post.log@, cf, key, s.seq) == value_at(pre.log@, cf, key, s.seq),
{
    lemma_batch_seq(ws, (pre.seq + 1) as u64);
    lemma_value_at_append(pre.log@, batch(ws, (pre.seq + 1) as u64), cf, key, s.seq);
}

} // verus!
