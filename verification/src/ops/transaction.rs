//! Beginning transactions on a store.

use vstd::prelude::*;

use crate::options::{TransactionOptions, WriteOptions};
use crate::transaction::Transaction;
use crate::transaction_db::{owns_lock, TransactionDB};

verus! {

/// Begin a transaction under explicit write and transaction options.
pub trait TransactionBeginOpt: Sized {
    /// When beginning is permitted.
    spec fn begin_req(&self) -> bool;

    /// How a begun transaction and the store after it relate to the store
    /// before.
    spec fn begin_post(pre: Self, post: Self, tx_options: TransactionOptions, t: Transaction) -> bool;

    /// Begin a transaction.  The write options govern the durability of
    /// its eventual commit; the transaction options may bind a snapshot
    /// taken now.
    fn transaction_opt(&mut self, write_options: &WriteOptions, tx_options: &TransactionOptions) -> (t:
        Transaction)
        requires
            old(self).begin_req(),
        ensures
            Self::begin_post(*old(self), *final(self), *tx_options, t),
    ;
}

/// Begin a transaction under default options.
pub trait TransactionBegin: TransactionBeginOpt {
    /// Begin a transaction with default options: no bound snapshot.
    fn transaction(&mut self) -> (t: Transaction)
        requires
            old(self).begin_req(),
        ensures
            Self::begin_post(
                *old(self),
                *final(self),
                (TransactionOptions { snapshot: false }),
                t,
            ),
    ;
}

impl<T: TransactionBeginOpt> TransactionBegin for T {
    fn transaction(&mut self) -> (t: Transaction) {
        self.transaction_opt(&WriteOptions::default(), &TransactionOptions::default())
    }
}

impl TransactionBeginOpt for TransactionDB {
    /// Identifiers must not run out.
    open spec fn begin_req(&self) -> bool {
        self.next_txn_id < u64::MAX
    }

    /// Begin hands out a fresh, active, empty transaction under the next
    /// identifier, binds the current sequence number as its snapshot when
    /// asked to, and touches nothing else of the store.  A well-formed
    /// store stays well-formed, and the fresh transaction holds no locks.
    open spec fn begin_post(
        pre: TransactionDB,
        post: TransactionDB,
        tx_options: TransactionOptions,
        t: Transaction,
    ) -> bool {
        &&& post.log == pre.log
        &&& post.seq == pre.seq
        &&& post.locks == pre.locks
        &&& post.cfs == pre.cfs
        &&& post.path == pre.path
        &&& post.merge_operator == pre.merge_operator
        &&& post.next_txn_id == pre.next_txn_id + 1
        &&& t.id == pre.next_txn_id
        &&& t.is_active()
        &&& t.writes@.len() == 0
        &&& t.savepoints@.len() == 0
        &&& t.snapshot_seq == (if tx_options.snapshot {
            Option::Some(pre.seq)
        } else {
            Option::<u64>::None
        })
        &&& t.wf()
        &&& (pre.wf() ==> post.wf())
        &&& (pre.wf() ==> forall|cf: int, key: Seq<u8>| !owns_lock(post.locks@, t.id, cf, key))
    }

    fn transaction_opt(&mut self, write_options: &WriteOptions, tx_options: &TransactionOptions) -> (t:
        Transaction) {
        let mut t = Transaction::new(self.next_txn_id);
        self.next_txn_id = self.next_txn_id + 1;
        if tx_options.snapshot {
            t.snapshot_seq = Option::Some(self.seq);
        }
        proof {
            let pre = *old(self);
            if pre.wf() {
                assert forall|cf: int, key: Seq<u8>| !owns_lock(self.locks@, t.id, cf, key) by {
                    if owns_lock(self.locks@, t.id, cf, key) {
                        let i = choose|i: int|
                            0 <= i < self.locks@.len() && crate::transaction_db::lock_matches(
                                #[trigger] self.locks@[i],
                                cf,
                                key,
                            ) && self.locks@[i].txn_id == t.id && (false ==> self.locks@[i].exclusive);
                        assert(self.locks@[i].txn_id < pre.next_txn_id);
                    }
                }
            }
        }
        t
    }
}

} // verus!
