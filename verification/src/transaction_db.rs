//! The shared base store: committed log, row-lock table, sequence counter
//! and column families.
//!
//! A `TransactionDB` owns everything transactions coordinate through: the
//! log of committed writes, the lock table consulted by `get_for_update`
//! and by direct writes, the sequence counter that names snapshots, and
//! the column-family names.  Transactions hold only their local state and
//! take the store as an explicit argument, so distinct transactions may be
//! interleaved freely while every operation on the shared state stays a
//! single, atomic call.

use vstd::prelude::*;

use crate::error::Error;
use crate::options::{ColumnFamily, ColumnFamilyDescriptor, Options, ReadOptions, TransactionDBOptions};
use crate::snapshot::Snapshot;
use crate::store::{
    bytes_eq, bytes_to_vec, read_committed, value_at, CommittedEntry, WriteOp,
};

verus! {

/// One held row lock: a key of a column family, its owning transaction,
/// and whether the hold is exclusive.
#[derive(Debug)]
pub struct LockEntry {
    pub cf: usize,
    pub key: Vec<u8>,
    pub txn_id: u64,
    pub exclusive: bool,
}

/// Whether entry `e` is a lock on `key` of column family `cf`.
pub open spec fn lock_matches(e: LockEntry, cf: int, key: Seq<u8>) -> bool {
    e.cf as int == cf && e.key@ == key
}

/// Whether transaction `txn` holds a lock on the key, exclusively so when
/// `exclusive` is asked.
pub open spec fn owns_lock_with(
    locks: Seq<LockEntry>,
    txn: u64,
    cf: int,
    key: Seq<u8>,
    exclusive: bool,
) -> bool {
    exists|i: int|
        0 <= i < locks.len() && lock_matches(#[trigger] locks[i], cf, key) && locks[i].txn_id == txn
            && (exclusive ==> locks[i].exclusive)
}

/// Whether transaction `txn` holds any lock on the key.
pub open spec fn owns_lock(locks: Seq<LockEntry>, txn: u64, cf: int, key: Seq<u8>) -> bool {
    owns_lock_with(locks, txn, cf, key, false)
}

/// Whether transaction `txn` holds an exclusive lock on the key.
pub open spec fn owns_exclusive(locks: Seq<LockEntry>, txn: u64, cf: int, key: Seq<u8>) -> bool {
    owns_lock_with(locks, txn, cf, key, true)
}

/// Whether a request by `txn` for a lock on the key collides with another
/// transaction's hold: any other hold blocks an exclusive request, and
/// another exclusive hold blocks every request.
pub open spec fn lock_conflict(
    locks: Seq<LockEntry>,
    txn: u64,
    cf: int,
    key: Seq<u8>,
    exclusive: bool,
) -> bool {
    exists|i: int|
        0 <= i < locks.len() && lock_matches(#[trigger] locks[i], cf, key) && locks[i].txn_id != txn
            && (exclusive || locks[i].exclusive)
}

/// The lock-table entries that survive the release of all of
/// transaction `txn_id`'s holds: those owned by anyone else.
pub open spec fn other_owner(txn_id: u64) -> spec_fn(LockEntry) -> bool {
    |e: LockEntry| e.txn_id != txn_id
}

/// Whether any transaction at all holds a lock on the key.  A direct,
/// non-transactional write is blocked by any hold.
pub open spec fn any_lock(locks: Seq<LockEntry>, cf: int, key: Seq<u8>) -> bool {
    exists|i: int| 0 <= i < locks.len() && lock_matches(#[trigger] locks[i], cf, key)
}

/// The lock-table invariant: on one key, two holds of distinct
/// transactions are both non-exclusive — at most one transaction may hold
/// a key exclusively, and then it is the only holder.
pub open spec fn locks_exclusive_ok(locks: Seq<LockEntry>) -> bool {
    forall|i: int, j: int|
        0 <= i < locks.len() && 0 <= j < locks.len() && lock_matches(
            #[trigger] locks[i],
            locks[j].cf as int,
            locks[j].key@,
        ) && locks[i].txn_id != (#[trigger] locks[j]).txn_id ==> !locks[i].exclusive
            && !locks[j].exclusive
}

/// The committed entries a catch-up from sequence number `seq` replays.
pub open spec fn updates_from(seq: u64) -> spec_fn(CommittedEntry) -> bool {
    |e: CommittedEntry| e.seq >= seq
}

/// The name of the default column family.
pub open spec fn default_cf_name() -> Seq<u8> {
    seq![100u8, 101u8, 102u8, 97u8, 117u8, 108u8, 116u8]
}

/// An owned copy of the default column family's name.
pub fn default_cf_name_vec() -> (r: Vec<u8>)
    ensures
        r@ == default_cf_name(),
{
    let mut v: Vec<u8> = Vec::new();
    v.push(100u8);
    v.push(101u8);
    v.push(102u8);
    v.push(97u8);
    v.push(117u8);
    v.push(108u8);
    v.push(116u8);
    proof {
        assert(v@ =~= default_cf_name());
    }
    v
}

/// The names a list of descriptors asks to open.
pub open spec fn desc_names(descs: Seq<ColumnFamilyDescriptor>) -> Seq<Seq<u8>> {
    descs.map(|i: int, d: ColumnFamilyDescriptor| d.name@)
}

/// The names of a store's column families, in handle order.
pub open spec fn cfs_names(cfs: Seq<Vec<u8>>) -> Seq<Seq<u8>> {
    cfs.map(|i: int, n: Vec<u8>| n@)
}

/// Whether a list of names asks for the same column family twice.
pub open spec fn dup_names(names: Seq<Seq<u8>>) -> bool {
    exists|i: int, j: int| 0 <= i < j < names.len() && names[i] == names[j]
}

/// The names that stand beside the always-present default column family.
pub open spec fn non_default() -> spec_fn(Seq<u8>) -> bool {
    |n: Seq<u8>| n != default_cf_name()
}

/// What a freshly opened store looks like: empty log and lock table,
/// sequence number zero, the caller's path and merge operator, and the
/// default column family first, followed by the requested names in
/// request order.
pub open spec fn open_result_ok(
    db: TransactionDB,
    opts: Options,
    path: Seq<u8>,
    names: Seq<Seq<u8>>,
) -> bool {
    &&& db.wf()
    &&& db.log@.len() == 0
    &&& db.seq == 0
    &&& db.locks@.len() == 0
    &&& db.next_txn_id == 0
    &&& db.path@ == path
    &&& db.merge_operator == opts.merge_operator
    &&& cfs_names(db.cfs@) == seq![default_cf_name()] + names.filter(non_default())
}

/// Everything of the store but the lock table is untouched.
pub open spec fn same_but_locks(pre: TransactionDB, post: TransactionDB) -> bool {
    &&& post.log == pre.log
    &&& post.seq == pre.seq
    &&& post.cfs == pre.cfs
    &&& post.path == pre.path
    &&& post.merge_operator == pre.merge_operator
    &&& post.next_txn_id == pre.next_txn_id
}

/// The holds of every other transaction are exactly as they were.
pub open spec fn locks_others_same(pre: Seq<LockEntry>, post: Seq<LockEntry>, txn: u64) -> bool {
    forall|t2: u64, c: int, k: Seq<u8>, x: bool|
        t2 != txn ==> #[trigger] owns_lock_with(post, t2, c, k, x) == owns_lock_with(
            pre,
            t2,
            c,
            k,
            x,
        )
}

/// A granted lock request by `txn`: no collision stood in the way, the
/// hold now exists, at most the one requested entry was added, and no
/// key other than the requested one became locked.
pub open spec fn lock_step_ok(
    pre: Seq<LockEntry>,
    post: Seq<LockEntry>,
    txn: u64,
    cf: int,
    key: Seq<u8>,
    exclusive: bool,
) -> bool {
    &&& !lock_conflict(pre, txn, cf, key, exclusive)
    &&& owns_lock_with(post, txn, cf, key, exclusive)
    &&& (if owns_lock_with(pre, txn, cf, key, exclusive) {
        post == pre
    } else {
        post == pre.push(post.last()) && post.last().cf as int == cf && post.last().key@ == key
            && post.last().txn_id == txn && post.last().exclusive == exclusive
    })
    &&& locks_others_same(pre, post, txn)
    &&& forall|c2: int, k2: Seq<u8>|
        #[trigger] any_lock(post, c2, k2) == (any_lock(pre, c2, k2) || (c2 == cf && k2 == key))
}

/// The pin a read uses: the snapshot named in the read options, or the
/// store's current sequence number.
pub open spec fn pin_of(db_seq: u64, ro: ReadOptions) -> u64 {
    match ro.snapshot_seq {
        Option::None => db_seq,
        Option::Some(s) => s,
    }
}

/// Scans the lock table for a hold that collides with a request by `txn`.
fn scan_conflict(locks: &Vec<LockEntry>, txn: u64, cf: usize, key: &[u8], exclusive: bool) -> (r:
    bool)
    ensures
        r == lock_conflict(locks@, txn, cf as int, key@, exclusive),
{
    let mut i: usize = 0;
    while i < locks.len()
        invariant
            i <= locks.len(),
            forall|j: int|
                0 <= j < i ==> !(lock_matches(#[trigger] locks@[j], cf as int, key@)
                    && locks@[j].txn_id != txn && (exclusive || locks@[j].exclusive)),
        decreases locks.len() - i,
    {
        let e = &locks[i];
        if e.cf == cf && bytes_eq(e.key.as_slice(), key) && e.txn_id != txn && (exclusive
            || e.exclusive) {
            return true;
        }
        i += 1;
    }
    false
}

/// Scans the lock table for a hold by `txn` itself, exclusive when asked.
fn scan_owns(locks: &Vec<LockEntry>, txn: u64, cf: usize, key: &[u8], exclusive: bool) -> (r: bool)
    ensures
        r == owns_lock_with(locks@, txn, cf as int, key@, exclusive),
{
    let mut i: usize = 0;
    while i < locks.len()
        invariant
            i <= locks.len(),
            forall|j: int|
                0 <= j < i ==> !(lock_matches(#[trigger] locks@[j], cf as int, key@)
                    && locks@[j].txn_id == txn && (exclusive ==> locks@[j].exclusive)),
        decreases locks.len() - i,
    {
        let e = &locks[i];
        if e.cf == cf && bytes_eq(e.key.as_slice(), key) && e.txn_id == txn && (!exclusive
            || e.exclusive) {
            return true;
        }
        i += 1;
    }
    false
}

/// Scans the lock table for any hold on the key at all.
fn scan_any(locks: &Vec<LockEntry>, cf: usize, key: &[u8]) -> (r: bool)
    ensures
        r == any_lock(locks@, cf as int, key@),
{
    let mut i: usize = 0;
    while i < locks.len()
        invariant
            i <= locks.len(),
            forall|j: int| 0 <= j < i ==> !lock_matches(#[trigger] locks@[j], cf as int, key@),
        decreases locks.len() - i,
    {
        let e = &locks[i];
        if e.cf == cf && bytes_eq(e.key.as_slice(), key) {
            return true;
        }
        i += 1;
    }
    false
}

/// Appending one entry changes the ownership predicates exactly by what
/// the entry itself says.
proof fn lemma_lock_push(s: Seq<LockEntry>, e: LockEntry)
    ensures
        forall|t2: u64, c: int, k: Seq<u8>, x: bool|
            #[trigger] owns_lock_with(s.push(e), t2, c, k, x) == (owns_lock_with(s, t2, c, k, x)
                || (lock_matches(e, c, k) && e.txn_id == t2 && (x ==> e.exclusive))),
        forall|c: int, k: Seq<u8>|
            #[trigger] any_lock(s.push(e), c, k) == (any_lock(s, c, k) || lock_matches(e, c, k)),
{
    let sp = s.push(e);
    assert forall|t2: u64, c: int, k: Seq<u8>, x: bool|
        #[trigger] owns_lock_with(sp, t2, c, k, x) == (owns_lock_with(s, t2, c, k, x)
            || (lock_matches(e, c, k) && e.txn_id == t2 && (x ==> e.exclusive))) by {
        if owns_lock_with(sp, t2, c, k, x) {
            let i = choose|i: int|
                0 <= i < sp.len() && lock_matches(#[trigger] sp[i], c, k) && sp[i].txn_id == t2 && (
                x ==> sp[i].exclusive);
            if i < s.len() {
                assert(sp[i] == s[i]);
                assert(owns_lock_with(s, t2, c, k, x));
            } else {
                assert(sp[i] == e);
            }
        }
        if owns_lock_with(s, t2, c, k, x) {
            let i = choose|i: int|
                0 <= i < s.len() && lock_matches(#[trigger] s[i], c, k) && s[i].txn_id == t2 && (x
                    ==> s[i].exclusive);
            assert(sp[i] == s[i]);
            assert(owns_lock_with(sp, t2, c, k, x));
        }
        if lock_matches(e, c, k) && e.txn_id == t2 && (x ==> e.exclusive) {
            assert(sp[s.len() as int] == e);
            assert(owns_lock_with(sp, t2, c, k, x));
        }
    }
    assert forall|c: int, k: Seq<u8>|
        #[trigger] any_lock(sp, c, k) == (any_lock(s, c, k) || lock_matches(e, c, k)) by {
        if any_lock(sp, c, k) {
            let i = choose|i: int| 0 <= i < sp.len() && lock_matches(#[trigger] sp[i], c, k);
            if i < s.len() {
                assert(sp[i] == s[i]);
                assert(any_lock(s, c, k));
            } else {
                assert(sp[i] == e);
            }
        }
        if any_lock(s, c, k) {
            let i = choose|i: int| 0 <= i < s.len() && lock_matches(#[trigger] s[i], c, k);
            assert(sp[i] == s[i]);
            assert(any_lock(sp, c, k));
        }
        if lock_matches(e, c, k) {
            assert(sp[s.len() as int] == e);
            assert(any_lock(sp, c, k));
        }
    }
}

/// Exclusion.  While a transaction holds an exclusive lock on a key,
/// every lock request for that key by any other transaction collides —
/// so its `get_for_update` is refused with a conflict — and the key is
/// locked against direct writes — so a non-transactional write of it is
/// refused with a conflict too.  The contracts of `get_for_update` and
/// of the store's direct writes turn these predicates into those
/// refusals.
pub proof fn lemma_exclusive_lock_blocks(
    locks: Seq<LockEntry>,
    holder: u64,
    other: u64,
    cf: int,
    key: Seq<u8>,
    exclusive: bool,
)
    requires
        owns_exclusive(locks, holder, cf, key),
        other != holder,
    ensures
        lock_conflict(locks, other, cf, key, exclusive),
        any_lock(locks, cf, key),
{
    let i = choose|i: int|
        0 <= i < locks.len() && lock_matches(#[trigger] locks[i], cf, key) && locks[i].txn_id
            == holder && locks[i].exclusive;
    assert(lock_matches(locks[i], cf, key));
}

/// Every element a filter keeps occurs in the sequence it filtered.
proof fn lemma_filter_subset(s: Seq<LockEntry>, pred: spec_fn(LockEntry) -> bool)
    ensures
        forall|x: LockEntry| #[trigger] s.filter(pred).contains(x) ==> s.contains(x),
    decreases s.len(),
{
    reveal(Seq::filter);
    if s.len() == 0 {
    } else {
        lemma_filter_subset(s.drop_last(), pred);
        assert forall|x: LockEntry| #[trigger] s.filter(pred).contains(x) implies s.contains(
            x,
        ) by {
            if pred(s.last()) && x == s.last() {
                assert(s[s.len() - 1] == x);
            } else {
                assert(s.drop_last().filter(pred).contains(x));
                assert(s.drop_last().contains(x));
                let i = choose|i: int| 0 <= i < s.drop_last().len() && s.drop_last()[i] == x;
                assert(s[i] == x);
            }
        }
    }
}

/// A key-value store with transactions.
///
/// The whole store state is plain data: the committed log is the
/// authority for reads, the lock table guards conflicting writers, and
/// `seq` names the current point in time.
#[derive(Debug)]
pub struct TransactionDB {
    /// Committed writes, oldest first.
    pub log: Vec<CommittedEntry>,
    /// The sequence number of the newest commit.
    pub seq: u64,
    /// All currently held row locks.
    pub locks: Vec<LockEntry>,
    /// The identifier the next transaction will get.
    pub next_txn_id: u64,
    /// Column-family names; a handle's `id` indexes this list, and the
    /// default column family sits at index 0.
    pub cfs: Vec<Vec<u8>>,
    /// The path the store was opened under.
    pub path: Vec<u8>,
    /// The registered merge operator, if any.
    pub merge_operator: Option<crate::options::MergeOperator>,
}

/// The result a plain store read serves: an unknown column family is
/// rejected, and otherwise the committed value pinned per the options.
pub open spec fn db_read_result(
    db: TransactionDB,
    cf: ColumnFamily,
    key: Seq<u8>,
    ro: ReadOptions,
) -> Result<Option<Seq<u8>>, Error> {
    if cf.id >= db.cfs@.len() {
        Result::Err(Error::InvalidColumnFamily)
    } else {
        Result::Ok(value_at(db.log@, cf.id as int, key, pin_of(db.seq, ro)))
    }
}

impl TransactionDB {
    /// Well-formedness: every committed entry lies at or below the current
    /// sequence number, every lock belongs to a transaction already handed
    /// out, the lock table keeps exclusivity single, and the default
    /// column family exists.
    pub open spec fn wf(self) -> bool {
        &&& forall|i: int|
            0 <= i < self.log@.len() ==> (#[trigger] self.log@[i]).seq <= self.seq
        &&& forall|i: int|
            0 <= i < self.locks@.len() ==> (#[trigger] self.locks@[i]).txn_id < self.next_txn_id
        &&& locks_exclusive_ok(self.locks@)
        &&& self.cfs@.len() >= 1
    }

    /// Takes a row lock on the key for transaction `txn_id`, failing fast
    /// on a collision with another transaction's hold.  Re-acquisition of
    /// a hold the transaction already has is idempotent.  A failed
    /// request leaves the lock table untouched.
    pub(crate) fn acquire_lock(&mut self, txn_id: u64, cf: usize, key: &[u8], exclusive: bool) -> (r:
        Result<(), Error>)
        requires
            old(self).wf(),
            txn_id < old(self).next_txn_id,
        ensures
            final(self).wf(),
            final(self).log == old(self).log,
            final(self).seq == old(self).seq,
            final(self).cfs == old(self).cfs,
            final(self).path == old(self).path,
            final(self).merge_operator == old(self).merge_operator,
            final(self).next_txn_id == old(self).next_txn_id,
            match r {
                Result::Err(e) => e == Error::Conflict && lock_conflict(
                    old(self).locks@,
                    txn_id,
                    cf as int,
                    key@,
                    exclusive,
                ) && final(self).locks == old(self).locks,
                Result::Ok(()) => !lock_conflict(old(self).locks@, txn_id, cf as int, key@, exclusive)
                    && owns_lock_with(final(self).locks@, txn_id, cf as int, key@, exclusive) && (
                if owns_lock_with(old(self).locks@, txn_id, cf as int, key@, exclusive) {
                    final(self).locks == old(self).locks
                } else {
                    final(self).locks@ == old(self).locks@.push(final(self).locks@.last())
                        && final(self).locks@.last().cf == cf && final(self).locks@.last().key@
                        == key@ && final(self).locks@.last().txn_id == txn_id
                        && final(self).locks@.last().exclusive == exclusive
                }),
            },
            forall|t2: u64, c: int, k: Seq<u8>, x: bool|
                t2 != txn_id ==> #[trigger] owns_lock_with(final(self).locks@, t2, c, k, x)
                    == owns_lock_with(old(self).locks@, t2, c, k, x),
            forall|c: int, k: Seq<u8>|
                #[trigger] any_lock(final(self).locks@, c, k) == (any_lock(old(self).locks@, c, k)
                    || (r is Ok && c == cf as int && k == key@)),
    {
        if scan_conflict(&self.locks, txn_id, cf, key, exclusive) {
            return Result::Err(Error::Conflict);
        }
        if scan_owns(&self.locks, txn_id, cf, key, exclusive) {
            return Result::Ok(());
        }
        let entry = LockEntry { cf, key: bytes_to_vec(key), txn_id, exclusive };
        proof {
            lemma_lock_push(self.locks@, entry);
            let s = self.locks@;
            let sp = s.push(entry);
            assert forall|i: int, j: int|
                0 <= i < sp.len() && 0 <= j < sp.len() && lock_matches(
                    #[trigger] sp[i],
                    sp[j].cf as int,
                    sp[j].key@,
                ) && sp[i].txn_id != (#[trigger] sp[j]).txn_id implies !sp[i].exclusive
                && !sp[j].exclusive by {
                if i < s.len() && j < s.len() {
                    assert(sp[i] == s[i] && sp[j] == s[j]);
                } else if i < s.len() && j == s.len() {
                    assert(sp[j] == entry && sp[i] == s[i]);
                    assert(lock_matches(s[i], cf as int, key@));
                    assert(!(exclusive || s[i].exclusive));
                } else if i == s.len() && j < s.len() {
                    assert(sp[i] == entry && sp[j] == s[j]);
                    assert(lock_matches(entry, sp[j].cf as int, sp[j].key@));
                    assert(entry.key@ == sp[j].key@ && entry.cf == sp[j].cf);
                    assert(lock_matches(s[j], cf as int, key@));
                    assert(!(exclusive || s[j].exclusive));
                }
            }
        }
        self.locks.push(entry);
        Result::Ok(())
    }

    /// Releases every lock transaction `txn_id` holds.  The holds of all
    /// other transactions stay exactly as they were.
    pub(crate) fn release_locks(&mut self, txn_id: u64)
        requires
            old(self).wf(),
        ensures
            final(self).wf(),
            final(self).log == old(self).log,
            final(self).seq == old(self).seq,
            final(self).cfs == old(self).cfs,
            final(self).path == old(self).path,
            final(self).merge_operator == old(self).merge_operator,
            final(self).next_txn_id == old(self).next_txn_id,
            final(self).locks@ == old(self).locks@.filter(other_owner(txn_id)),
            forall|c: int, k: Seq<u8>| !(#[trigger] owns_lock(final(self).locks@, txn_id, c, k)),
            forall|t2: u64, c: int, k: Seq<u8>, x: bool|
                t2 != txn_id ==> #[trigger] owns_lock_with(final(self).locks@, t2, c, k, x)
                    == owns_lock_with(old(self).locks@, t2, c, k, x),
            forall|c: int, k: Seq<u8>|
                #[trigger] any_lock(final(self).locks@, c, k) == (exists|t2: u64|
                    t2 != txn_id && owns_lock(old(self).locks@, t2, c, k)),
    {
        let ghost orig: Seq<LockEntry> = self.locks@;
        let ghost pred = other_owner(txn_id);
        let mut tmp: Vec<LockEntry> = Vec::new();
        core::mem::swap(&mut self.locks, &mut tmp);
        let mut i: usize = 0;
        let n: usize = tmp.len();
        proof {
            assert(orig.len() == n as int);
            reveal(Seq::filter);
        }
        while tmp.len() > 0
            invariant
                i + tmp@.len() == orig.len(),
                i <= orig.len(),
                orig.len() <= usize::MAX,
                tmp@ == orig.subrange(i as int, orig.len() as int),
                self.locks@ == orig.take(i as int).filter(pred),
                pred == other_owner(txn_id),
                self.log == old(self).log,
                self.seq == old(self).seq,
                self.cfs == old(self).cfs,
                self.path == old(self).path,
                self.merge_operator == old(self).merge_operator,
                self.next_txn_id == old(self).next_txn_id,
            decreases tmp.len(),
        {
            let e = tmp.remove(0);
            proof {
                assert(e == orig[i as int]);
                assert(tmp@ =~= orig.subrange(i + 1, orig.len() as int));
                assert(orig.take(i + 1).drop_last() =~= orig.take(i as int));
                assert(orig.take(i + 1).last() == orig[i as int]);
                reveal(Seq::filter);
                assert(orig.take(i + 1).filter(pred) == (if pred(orig[i as int]) {
                    orig.take(i as int).filter(pred).push(orig[i as int])
                } else {
                    orig.take(i as int).filter(pred)
                }));
            }
            if e.txn_id != txn_id {
                self.locks.push(e);
            }
            i += 1;
        }
        proof {
            assert(orig.take(orig.len() as int) =~= orig);
            let f = orig.filter(pred);
            lemma_filter_subset(orig, pred);
            broadcast use vstd::seq_lib::group_filter_ensures;
            assert forall|c: int, k: Seq<u8>| !(#[trigger] owns_lock(f, txn_id, c, k)) by {
                if owns_lock(f, txn_id, c, k) {
                    let i = choose|i: int|
                        0 <= i < f.len() && lock_matches(#[trigger] f[i], c, k) && f[i].txn_id
                            == txn_id && (false ==> f[i].exclusive);
                    assert(pred(f[i]));
                }
            }
            assert forall|t2: u64, c: int, k: Seq<u8>, x: bool|
                t2 != txn_id implies #[trigger] owns_lock_with(f, t2, c, k, x) == owns_lock_with(
                orig,
                t2,
                c,
                k,
                x,
            ) by {
                if owns_lock_with(f, t2, c, k, x) {
                    let i = choose|i: int|
                        0 <= i < f.len() && lock_matches(#[trigger] f[i], c, k) && f[i].txn_id == t2
                            && (x ==> f[i].exclusive);
                    assert(f.contains(f[i]));
                    assert(orig.contains(f[i]));
                    let j = choose|j: int| 0 <= j < orig.len() && orig[j] == f[i];
                    assert(owns_lock_with(orig, t2, c, k, x));
                }
                if owns_lock_with(orig, t2, c, k, x) {
                    let j = choose|j: int|
                        0 <= j < orig.len() && lock_matches(#[trigger] orig[j], c, k)
                            && orig[j].txn_id == t2 && (x ==> orig[j].exclusive);
                    assert(pred(orig[j]));
                    assert(f.contains(orig[j]));
                    let i = choose|i: int| 0 <= i < f.len() && f[i] == orig[j];
                    assert(owns_lock_with(f, t2, c, k, x));
                }
            }
            assert forall|c: int, k: Seq<u8>|
                #[trigger] any_lock(f, c, k) == (exists|t2: u64|
                    t2 != txn_id && owns_lock(orig, t2, c, k)) by {
                if any_lock(f, c, k) {
                    let i = choose|i: int| 0 <= i < f.len() && lock_matches(#[trigger] f[i], c, k);
                    assert(pred(f[i]));
                    assert(f.contains(f[i]));
                    assert(orig.contains(f[i]));
                    let j = choose|j: int| 0 <= j < orig.len() && orig[j] == f[i];
                    assert(owns_lock(orig, f[i].txn_id, c, k));
                    assert(f[i].txn_id != txn_id);
                }
                if exists|t2: u64| t2 != txn_id && owns_lock(orig, t2, c, k) {
                    let t2 = choose|t2: u64| t2 != txn_id && owns_lock(orig, t2, c, k);
                    let j = choose|j: int|
                        0 <= j < orig.len() && lock_matches(#[trigger] orig[j], c, k)
                            && orig[j].txn_id == t2 && (false ==> orig[j].exclusive);
                    assert(pred(orig[j]));
                    assert(f.contains(orig[j]));
                    let i = choose|i: int| 0 <= i < f.len() && f[i] == orig[j];
                    assert(any_lock(f, c, k));
                }
            }
            assert forall|i: int, j: int|
                0 <= i < f.len() && 0 <= j < f.len() && lock_matches(
                    #[trigger] f[i],
                    f[j].cf as int,
                    f[j].key@,
                ) && f[i].txn_id != (#[trigger] f[j]).txn_id implies !f[i].exclusive
                && !f[j].exclusive by {
                assert(f.contains(f[i]));
                assert(f.contains(f[j]));
                assert(orig.contains(f[i]));
                assert(orig.contains(f[j]));
                let a = choose|a: int| 0 <= a < orig.len() && orig[a] == f[i];
                let b = choose|b: int| 0 <= b < orig.len() && orig[b] == f[j];
                assert(lock_matches(orig[a], orig[b].cf as int, orig[b].key@));
            }
            assert forall|idx: int| 0 <= idx < f.len() implies (#[trigger] f[idx]).txn_id
                < self.next_txn_id by {
                assert(f.contains(f[idx]));
                assert(orig.contains(f[idx]));
                let j = choose|j: int| 0 <= j < orig.len() && orig[j] == f[idx];
                assert(orig[j].txn_id < old(self).next_txn_id);
            }
        }
    }

    /// Return the value associated with `key` in the given column family,
    /// under the given read options.
    pub fn get_cf_opt(&self, cf: &ColumnFamily, key: &[u8], readopts: &ReadOptions) -> (r: Result<
        Option<Vec<u8>>,
        Error,
    >)
        ensures
            crate::store::res_bytes(r) == db_read_result(*self, *cf, key@, *readopts),
    {
        if cf.id >= self.cfs.len() {
            return Result::Err(Error::InvalidColumnFamily);
        }
        let pin = match readopts.snapshot_seq {
            Option::None => self.seq,
            Option::Some(s) => s,
        };
        Result::Ok(read_committed(&self.log, cf.id, key, pin))
    }

    /// Return the value associated with `key` in the default column
    /// family, under the given read options.
    pub fn get_opt(&self, key: &[u8], readopts: &ReadOptions) -> (r: Result<
        Option<Vec<u8>>,
        Error,
    >)
        ensures
            crate::store::res_bytes(r) == db_read_result(
                *self,
                (ColumnFamily { id: 0 }),
                key@,
                *readopts,
            ),
    {
        self.get_cf_opt(&crate::options::default_column_family(), key, readopts)
    }

    /// Return the value associated with `key` in the given column family.
    pub fn get_cf(&self, cf: &ColumnFamily, key: &[u8]) -> (r: Result<Option<Vec<u8>>, Error>)
        ensures
            crate::store::res_bytes(r) == db_read_result(
                *self,
                *cf,
                key@,
                (ReadOptions { snapshot_seq: Option::None }),
            ),
    {
        self.get_cf_opt(cf, key, &ReadOptions::default())
    }

    /// Return the value associated with `key`.
    pub fn get(&self, key: &[u8]) -> (r: Result<Option<Vec<u8>>, Error>)
        ensures
            crate::store::res_bytes(r) == db_read_result(
                *self,
                (ColumnFamily { id: 0 }),
                key@,
                (ReadOptions { snapshot_seq: Option::None }),
            ),
    {
        self.get_opt(key, &ReadOptions::default())
    }

    /// Applies one direct, non-transactional write: refused while any
    /// transaction holds a lock on the key, else committed alone under a
    /// fresh sequence number.
    fn write_direct(&mut self, cf: &ColumnFamily, key: &[u8], op: WriteOp) -> (r: Result<
        (),
        Error,
    >)
        requires
            old(self).wf(),
            old(self).seq < u64::MAX,
        ensures
            final(self).wf(),
            final(self).locks == old(self).locks,
            final(self).cfs == old(self).cfs,
            final(self).path == old(self).path,
            final(self).merge_operator == old(self).merge_operator,
            final(self).next_txn_id == old(self).next_txn_id,
            match r {
                Result::Ok(()) => cf.id < old(self).cfs@.len() && !any_lock(
                    old(self).locks@,
                    cf.id as int,
                    key@,
                ) && final(self).seq == old(self).seq + 1 && final(self).log@ == old(self).log@.push(final(self).log@.last()) && final(self).log@.last().seq == old(self).seq + 1 && final(self).log@.last().cf == cf.id && final(self).log@.last().key@
                    == key@ && final(self).log@.last().op == op,
                Result::Err(e) => final(self).log == old(self).log && final(self).seq == old(self).seq && (if cf.id >= old(self).cfs@.len() {
                    e == Error::InvalidColumnFamily
                } else {
                    e == Error::Conflict && any_lock(old(self).locks@, cf.id as int, key@)
                }),
            },
    {
        if cf.id >= self.cfs.len() {
            return Result::Err(Error::InvalidColumnFamily);
        }
        if scan_any(&self.locks, cf.id, key) {
            return Result::Err(Error::Conflict);
        }
        let s = self.seq + 1;
        let entry = CommittedEntry { seq: s, cf: cf.id, key: bytes_to_vec(key), op };
        self.log.push(entry);
        self.seq = s;
        proof {
            assert forall|i: int| 0 <= i < self.log@.len() implies (#[trigger] self.log@[i]).seq
                <= self.seq by {
                if i < old(self).log@.len() {
                    assert(self.log@[i] == old(self).log@[i]);
                }
            }
        }
        Result::Ok(())
    }

    /// Write `value` under `key` in the given column family, outside any
    /// transaction.  Fails with a conflict while any transaction holds a
    /// lock on the key.
    pub fn put_cf(&mut self, cf: &ColumnFamily, key: &[u8], value: &[u8]) -> (r: Result<(), Error>)
        requires
            old(self).wf(),
            old(self).seq < u64::MAX,
        ensures
            final(self).wf(),
            final(self).locks == old(self).locks,
            final(self).cfs == old(self).cfs,
            final(self).path == old(self).path,
            final(self).merge_operator == old(self).merge_operator,
            final(self).next_txn_id == old(self).next_txn_id,
            match r {
                Result::Ok(()) => cf.id < old(self).cfs@.len() && !any_lock(
                    old(self).locks@,
                    cf.id as int,
                    key@,
                ) && final(self).seq == old(self).seq + 1 && final(self).log@ == old(self).log@.push(final(self).log@.last()) && final(self).log@.last().seq == old(self).seq + 1 && final(self).log@.last().cf == cf.id && final(self).log@.last().key@
                    == key@ && (final(self).log@.last().op matches WriteOp::Put(v) && v@ == value@),
                Result::Err(e) => final(self).log == old(self).log && final(self).seq == old(self).seq && (if cf.id >= old(self).cfs@.len() {
                    e == Error::InvalidColumnFamily
                } else {
                    e == Error::Conflict && any_lock(old(self).locks@, cf.id as int, key@)
                }),
            },
    {
        self.write_direct(cf, key, WriteOp::Put(bytes_to_vec(value)))
    }

    /// Write `value` under `key` in the default column family, outside
    /// any transaction.
    pub fn put(&mut self, key: &[u8], value: &[u8]) -> (r: Result<(), Error>)
        requires
            old(self).wf(),
            old(self).seq < u64::MAX,
        ensures
            final(self).wf(),
            final(self).locks == old(self).locks,
            final(self).cfs == old(self).cfs,
            final(self).path == old(self).path,
            final(self).merge_operator == old(self).merge_operator,
            final(self).next_txn_id == old(self).next_txn_id,
            match r {
                Result::Ok(()) => !any_lock(old(self).locks@, 0, key@) && final(self).seq == old(self).seq + 1 && final(self).log@ == old(self).log@.push(final(self).log@.last())
                    && final(self).log@.last().seq == old(self).seq + 1 && final(self).log@.last().cf == 0 && final(self).log@.last().key@ == key@ && (final(self).log@.last().op matches WriteOp::Put(v) && v@ == value@),
                Result::Err(e) => final(self).log == old(self).log && final(self).seq == old(self).seq && e == Error::Conflict && any_lock(old(self).locks@, 0, key@),
            },
    {
        self.put_cf(&crate::options::default_column_family(), key, value)
    }

    /// Remove `key` from the given column family, outside any
    /// transaction.  Fails with a conflict while any transaction holds a
    /// lock on the key.
    pub fn delete_cf(&mut self, cf: &ColumnFamily, key: &[u8]) -> (r: Result<(), Error>)
        requires
            old(self).wf(),
            old(self).seq < u64::MAX,
        ensures
            final(self).wf(),
            final(self).locks == old(self).locks,
            final(self).cfs == old(self).cfs,
            final(self).path == old(self).path,
            final(self).merge_operator == old(self).merge_operator,
            final(self).next_txn_id == old(self).next_txn_id,
            match r {
                Result::Ok(()) => cf.id < old(self).cfs@.len() && !any_lock(
                    old(self).locks@,
                    cf.id as int,
                    key@,
                ) && final(self).seq == old(self).seq + 1 && final(self).log@ == old(self).log@.push(final(self).log@.last()) && final(self).log@.last().seq == old(self).seq + 1 && final(self).log@.last().cf == cf.id && final(self).log@.last().key@
                    == key@ && final(self).log@.last().op == WriteOp::Delete,
                Result::Err(e) => final(self).log == old(self).log && final(self).seq == old(self).seq && (if cf.id >= old(self).cfs@.len() {
                    e == Error::InvalidColumnFamily
                } else {
                    e == Error::Conflict && any_lock(old(self).locks@, cf.id as int, key@)
                }),
            },
    {
        self.write_direct(cf, key, WriteOp::Delete)
    }

    /// Remove `key` from the default column family, outside any
    /// transaction.
    pub fn delete(&mut self, key: &[u8]) -> (r: Result<(), Error>)
        requires
            old(self).wf(),
            old(self).seq < u64::MAX,
        ensures
            final(self).wf(),
            final(self).locks == old(self).locks,
            final(self).cfs == old(self).cfs,
            final(self).path == old(self).path,
            final(self).merge_operator == old(self).merge_operator,
            final(self).next_txn_id == old(self).next_txn_id,
            match r {
                Result::Ok(()) => !any_lock(old(self).locks@, 0, key@) && final(self).seq == old(self).seq + 1 && final(self).log@ == old(self).log@.push(final(self).log@.last())
                    && final(self).log@.last().seq == old(self).seq + 1 && final(self).log@.last().cf == 0 && final(self).log@.last().key@ == key@ && final(self).log@.last().op == WriteOp::Delete,
                Result::Err(e) => final(self).log == old(self).log && final(self).seq == old(self).seq && e == Error::Conflict && any_lock(old(self).locks@, 0, key@),
            },
    {
        self.delete_cf(&crate::options::default_column_family(), key)
    }

    /// The committed writes that have happened since the given sequence
    /// number, oldest first: every entry bearing that sequence number or
    /// a later one.  A sequence number beyond the most recent commit is
    /// out of bounds and an error.
    pub fn get_updates_since(&self, seq_number: u64) -> (r: Result<Vec<CommittedEntry>, Error>)
        ensures
            match r {
                Result::Ok(v) => seq_number <= self.seq && v@.len() == self.log@.filter(
                    updates_from(seq_number),
                ).len() && (forall|j: int|
                    0 <= j < v@.len() ==> crate::store::entry_like(
                        #[trigger] v@[j],
                        self.log@.filter(updates_from(seq_number))[j],
                    )),
                Result::Err(e) => e == Error::InvalidState && seq_number > self.seq,
            },
    {
        if seq_number > self.seq {
            return Result::Err(Error::InvalidState);
        }
        let ghost pred = updates_from(seq_number);
        let mut out: Vec<CommittedEntry> = Vec::new();
        let mut i: usize = 0;
        proof {
            reveal(Seq::filter);
            assert(self.log@.take(0).filter(pred) =~= Seq::<CommittedEntry>::empty());
        }
        while i < self.log.len()
            invariant
                i <= self.log@.len(),
                pred == updates_from(seq_number),
                out@.len() == self.log@.take(i as int).filter(pred).len(),
                forall|j: int|
                    0 <= j < out@.len() ==> crate::store::entry_like(
                        #[trigger] out@[j],
                        self.log@.take(i as int).filter(pred)[j],
                    ),
            decreases self.log@.len() - i,
        {
            proof {
                reveal(Seq::filter);
                assert(self.log@.take(i + 1).drop_last() =~= self.log@.take(i as int));
                assert(self.log@.take(i + 1).last() == self.log@[i as int]);
            }
            let e = &self.log[i];
            if e.seq >= seq_number {
                let copy = CommittedEntry {
                    seq: e.seq,
                    cf: e.cf,
                    key: bytes_to_vec(e.key.as_slice()),
                    op: crate::store::copy_op(&e.op),
                };
                proof {
                    assert(crate::store::entry_like(copy, self.log@[i as int]));
                }
                out.push(copy);
            }
            i += 1;
        }
        proof {
            assert(self.log@.take(self.log@.len() as int) =~= self.log@);
        }
        Result::Ok(out)
    }

    /// The sequence number of the most recent commit.
    pub fn latest_sequence_number(&self) -> (r: u64)
        ensures
            r == self.seq,
    {
        self.seq
    }

    /// The path the store was opened under.
    pub fn path(&self) -> (r: &Vec<u8>)
        ensures
            r@ == self.path@,
    {
        &self.path
    }

    /// A snapshot of the store as it stands now.
    pub fn snapshot(&self) -> (s: Snapshot)
        ensures
            s.seq == self.seq,
    {
        Snapshot { seq: self.seq }
    }

    /// The handle of the column family with the given name, if one
    /// exists: the first index whose name matches.
    pub fn cf_handle(&self, name: &[u8]) -> (r: Option<ColumnFamily>)
        ensures
            match r {
                Option::Some(cf) => cf.id < self.cfs@.len() && self.cfs@[cf.id as int]@ == name@
                    && (forall|j: int| 0 <= j < cf.id ==> (#[trigger] self.cfs@[j])@ != name@),
                Option::None => forall|j: int|
                    0 <= j < self.cfs@.len() ==> (#[trigger] self.cfs@[j])@ != name@,
            },
    {
        let mut i: usize = 0;
        while i < self.cfs.len()
            invariant
                i <= self.cfs@.len(),
                forall|j: int| 0 <= j < i ==> (#[trigger] self.cfs@[j])@ != name@,
            decreases self.cfs@.len() - i,
        {
            if bytes_eq(self.cfs[i].as_slice(), name) {
                return Option::Some(ColumnFamily { id: i });
            }
            i += 1;
        }
        Option::None
    }

    /// Creates a column family under a fresh handle.  Fails when the name
    /// is already taken.
    pub fn create_cf(&mut self, name: &[u8], opts: &Options) -> (r: Result<(), Error>)
        requires
            old(self).wf(),
        ensures
            final(self).wf(),
            final(self).log == old(self).log,
            final(self).seq == old(self).seq,
            final(self).locks == old(self).locks,
            final(self).path == old(self).path,
            final(self).merge_operator == old(self).merge_operator,
            final(self).next_txn_id == old(self).next_txn_id,
            match r {
                Result::Ok(()) => (forall|j: int|
                    0 <= j < old(self).cfs@.len() ==> (#[trigger] old(self).cfs@[j])@ != name@)
                    && final(self).cfs@ == old(self).cfs@.push(final(self).cfs@.last()) && final(self).cfs@.last()@ == name@,
                Result::Err(e) => e == Error::InvalidColumnFamily && (exists|j: int|
                    0 <= j < old(self).cfs@.len() && (#[trigger] old(self).cfs@[j])@ == name@)
                    && final(self).cfs == old(self).cfs,
            },
    {
        let mut i: usize = 0;
        while i < self.cfs.len()
            invariant
                i <= self.cfs@.len(),
                forall|j: int| 0 <= j < i ==> (#[trigger] self.cfs@[j])@ != name@,
                self == old(self),
                old(self).wf(),
            decreases self.cfs@.len() - i,
        {
            if bytes_eq(self.cfs[i].as_slice(), name) {
                return Result::Err(Error::InvalidColumnFamily);
            }
            i += 1;
        }
        self.cfs.push(bytes_to_vec(name));
        Result::Ok(())
    }

    /// Opens a store from a list of column-family descriptors: rejects a
    /// name asked for twice, always includes the default column family —
    /// first, under handle 0 — and starts with an empty log, an empty
    /// lock table and sequence number zero.
    fn open_cf_descriptors_internal(
        opts: &Options,
        path: &[u8],
        txopts: &TransactionDBOptions,
        cfs: Vec<ColumnFamilyDescriptor>,
    ) -> (r: Result<TransactionDB, Error>)
        ensures
            match r {
                Result::Ok(db) => !dup_names(desc_names(cfs@)) && open_result_ok(
                    db,
                    *opts,
                    path@,
                    desc_names(cfs@),
                ),
                Result::Err(e) => e == Error::InvalidColumnFamily && dup_names(desc_names(cfs@)),
            },
    {
        let mut i: usize = 0;
        while i < cfs.len()
            invariant
                i <= cfs@.len(),
                forall|a: int, b: int|
                    0 <= a < b < i ==> (#[trigger] cfs@[a]).name@ != (#[trigger] cfs@[b]).name@,
            decreases cfs@.len() - i,
        {
            let mut j: usize = 0;
            while j < i
                invariant
                    j <= i,
                    i < cfs@.len(),
                    forall|a: int, b: int|
                        0 <= a < b < i ==> (#[trigger] cfs@[a]).name@ != (#[trigger] cfs@[b]).name@,
                    forall|a: int| 0 <= a < j ==> (#[trigger] cfs@[a]).name@ != cfs@[i as int].name@,
                decreases i - j,
            {
                if bytes_eq(cfs[j].name.as_slice(), cfs[i].name.as_slice()) {
                    proof {
                        assert(desc_names(cfs@)[j as int] == desc_names(cfs@)[i as int]);
                        assert(dup_names(desc_names(cfs@)));
                    }
                    return Result::Err(Error::InvalidColumnFamily);
                }
                j += 1;
            }
            i += 1;
        }
        proof {
            if dup_names(desc_names(cfs@)) {
                let (a, b): (int, int) = choose|a: int, b: int|
                    0 <= a < b < desc_names(cfs@).len() && desc_names(cfs@)[a] == desc_names(
                        cfs@,
                    )[b];
                assert(cfs@[a].name@ != cfs@[b].name@);
                assert(false);
            }
        }
        let dname = default_cf_name_vec();
        let mut names_v: Vec<Vec<u8>> = Vec::new();
        names_v.push(default_cf_name_vec());
        proof {
            reveal(Seq::filter);
            assert(desc_names(cfs@.take(0)) =~= Seq::<Seq<u8>>::empty());
            assert(Seq::<Seq<u8>>::empty().filter(non_default()) =~= Seq::<Seq<u8>>::empty());
            assert(cfs_names(names_v@) =~= seq![default_cf_name()] + desc_names(
                cfs@.take(0),
            ).filter(non_default()));
        }
        let mut k: usize = 0;
        while k < cfs.len()
            invariant
                k <= cfs@.len(),
                dname@ == default_cf_name(),
                cfs_names(names_v@) == seq![default_cf_name()] + desc_names(
                    cfs@.take(k as int),
                ).filter(non_default()),
            decreases cfs@.len() - k,
        {
            proof {
                reveal(Seq::filter);
                assert(desc_names(cfs@.take(k + 1)).drop_last() =~= desc_names(cfs@.take(k as int)));
                assert(desc_names(cfs@.take(k + 1)).last() == cfs@[k as int].name@);
            }
            let keep = !bytes_eq(cfs[k].name.as_slice(), dname.as_slice());
            let ghost prev = names_v@;
            if keep {
                names_v.push(bytes_to_vec(cfs[k].name.as_slice()));
                proof {
                    assert(cfs_names(names_v@) =~= cfs_names(prev).push(cfs@[k as int].name@));
                }
            }
            k += 1;
        }
        proof {
            assert(cfs@.take(cfs@.len() as int) =~= cfs@);
        }
        let db = TransactionDB {
            log: Vec::new(),
            seq: 0,
            locks: Vec::new(),
            next_txn_id: 0,
            cfs: names_v,
            path: bytes_to_vec(path),
            merge_operator: opts.merge_operator,
        };
        proof {
            assert(cfs_names(db.cfs@).len() >= 1);
        }
        Result::Ok(db)
    }

    /// Opens a store with the given options, transaction options and
    /// column-family names.
    pub fn open_cf_opt(
        opts: &Options,
        path: &[u8],
        txopts: &TransactionDBOptions,
        cfs: &Vec<Vec<u8>>,
    ) -> (r: Result<TransactionDB, Error>)
        ensures
            match r {
                Result::Ok(db) => !dup_names(cfs_names(cfs@)) && open_result_ok(
                    db,
                    *opts,
                    path@,
                    cfs_names(cfs@),
                ),
                Result::Err(e) => e == Error::InvalidColumnFamily && dup_names(cfs_names(cfs@)),
            },
    {
        let mut descs: Vec<ColumnFamilyDescriptor> = Vec::new();
        let mut i: usize = 0;
        while i < cfs.len()
            invariant
                i <= cfs@.len(),
                desc_names(descs@) == cfs_names(cfs@.take(i as int)),
            decreases cfs@.len() - i,
        {
            let ghost prevd = descs@;
            descs.push(ColumnFamilyDescriptor::new(cfs[i].as_slice(), Options::default()));
            proof {
                assert(desc_names(prevd).len() == prevd.len());
                assert(cfs_names(cfs@.take(i as int)).len() == cfs@.take(i as int).len());
                assert(prevd.len() == i);
                assert forall|n: int| 0 <= n < descs@.len() implies desc_names(descs@)[n]
                    == cfs_names(cfs@.take(i + 1))[n] by {
                    if n < i {
                        assert(descs@[n] == prevd[n]);
                        assert(desc_names(prevd)[n] == cfs_names(cfs@.take(i as int))[n]);
                        assert(cfs@.take(i + 1)[n] == cfs@.take(i as int)[n]);
                    } else {
                        assert(descs@[n] == descs@.last());
                        assert(cfs@.take(i + 1)[n] == cfs@[i as int]);
                    }
                }
                assert(desc_names(descs@) =~= cfs_names(cfs@.take(i + 1)));
            }
            i += 1;
        }
        proof {
            assert(cfs@.take(cfs@.len() as int) =~= cfs@);
        }
        Self::open_cf_descriptors_internal(opts, path, txopts, descs)
    }

    /// Opens a store with the given options and column-family names;
    /// the column families are opened with default options.
    pub fn open_cf(opts: &Options, path: &[u8], cfs: &Vec<Vec<u8>>) -> (r: Result<
        TransactionDB,
        Error,
    >)
        ensures
            match r {
                Result::Ok(db) => !dup_names(cfs_names(cfs@)) && open_result_ok(
                    db,
                    *opts,
                    path@,
                    cfs_names(cfs@),
                ),
                Result::Err(e) => e == Error::InvalidColumnFamily && dup_names(cfs_names(cfs@)),
            },
    {
        let txopts = TransactionDBOptions::default();
        Self::open_cf_opt(opts, path, &txopts, cfs)
    }

    /// Opens a store with the given options and transaction options,
    /// with only the default column family.
    pub fn open_opt(opts: &Options, path: &[u8], txopts: &TransactionDBOptions) -> (r: Result<
        TransactionDB,
        Error,
    >)
        ensures
            r is Ok,
            match r {
                Result::Ok(db) => open_result_ok(db, *opts, path@, Seq::<Seq<u8>>::empty()),
                Result::Err(_) => false,
            },
    {
        let names: Vec<Vec<u8>> = Vec::new();
        proof {
            assert(cfs_names(names@) =~= Seq::<Seq<u8>>::empty());
        }
        Self::open_cf_opt(opts, path, txopts, &names)
    }

    /// Opens a store with the given options, with only the default
    /// column family.
    pub fn open(opts: &Options, path: &[u8]) -> (r: Result<TransactionDB, Error>)
        ensures
            r is Ok,
            match r {
                Result::Ok(db) => open_result_ok(db, *opts, path@, Seq::<Seq<u8>>::empty()),
                Result::Err(_) => false,
            },
    {
        let txopts = TransactionDBOptions::default();
        Self::open_opt(opts, path, &txopts)
    }

    /// Opens a store with default options.
    pub fn open_default(path: &[u8]) -> (r: Result<TransactionDB, Error>)
        ensures
            r is Ok,
            match r {
                Result::Ok(db) => open_result_ok(
                    db,
                    (Options { create_if_missing: true, merge_operator: Option::None }),
                    path@,
                    Seq::<Seq<u8>>::empty(),
                ),
                Result::Err(_) => false,
            },
    {
        let mut opts = Options::default();
        opts.set_create_if_missing(true);
        Self::open(&opts, path)
    }

    /// Opens a store with the given options and column-family
    /// descriptors.
    pub fn open_cf_descriptors(opts: &Options, path: &[u8], cfs: Vec<ColumnFamilyDescriptor>) -> (r:
        Result<TransactionDB, Error>)
        ensures
            match r {
                Result::Ok(db) => !dup_names(desc_names(cfs@)) && open_result_ok(
                    db,
                    *opts,
                    path@,
                    desc_names(cfs@),
                ),
                Result::Err(e) => e == Error::InvalidColumnFamily && dup_names(desc_names(cfs@)),
            },
    {
        let txopts = TransactionDBOptions::default();
        Self::open_cf_descriptors_internal(opts, path, &txopts, cfs)
    }
}

} // verus!
