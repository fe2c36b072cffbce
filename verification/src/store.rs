//! The base store model: a sequence-numbered log of committed writes.
//!
//! The log is the authority for every read.  A read is pinned to a sequence
//! number and folds, in order, all committed operations on its key whose
//! sequence number does not exceed the pin: a put replaces the value, a
//! delete removes it, and a merge concatenates its operand onto it.  A
//! snapshot is nothing but a pin, so reads through one are unaffected by
//! later commits.

use vstd::prelude::*;

use crate::error::Error;

verus! {

/// One buffered or committed mutation of a single key.
#[derive(Debug)]
pub enum WriteOp {
    /// Replace the key's value.
    Put(Vec<u8>),
    /// Remove the key.
    Delete,
    /// Combine the operand with the key's value through the merge operator.
    Merge(Vec<u8>),
}

/// A mutation buffered inside a transaction, not yet committed.
#[derive(Debug)]
pub struct PendingWrite {
    pub cf: usize,
    pub key: Vec<u8>,
    pub op: WriteOp,
}

/// A mutation that has been durably applied to the store.
#[derive(Debug)]
pub struct CommittedEntry {
    /// The sequence number of the commit that applied this entry.  All
    /// entries of one atomic commit share it.
    pub seq: u64,
    pub cf: usize,
    pub key: Vec<u8>,
    pub op: WriteOp,
}

/// The abstract value of an optional byte string.
pub open spec fn opt_bytes(o: Option<Vec<u8>>) -> Option<Seq<u8>> {
    match o {
        Option::None => Option::None,
        Option::Some(v) => Option::Some(v@),
    }
}

/// The abstract value of a read's result.
pub open spec fn res_bytes(r: Result<Option<Vec<u8>>, Error>) -> Result<Option<Seq<u8>>, Error> {
    match r {
        Result::Ok(o) => Result::Ok(opt_bytes(o)),
        Result::Err(e) => Result::Err(e),
    }
}

/// What one operation does to the current value of its key.  The merge
/// operator of the store is concatenation, so a merge on an absent key
/// leaves just its operand.
pub open spec fn apply_op(cur: Option<Seq<u8>>, op: WriteOp) -> Option<Seq<u8>> {
    match op {
        WriteOp::Put(v) => Option::Some(v@),
        WriteOp::Delete => Option::None,
        WriteOp::Merge(m) => match cur {
            Option::None => Option::Some(m@),
            Option::Some(c) => Option::Some(c + m@),
        },
    }
}

/// The value of `key` in column family `cf`, as of the log prefix given and
/// pinned at sequence number `upto`: the fold of every entry on that key
/// with `seq <= upto`, oldest first.
pub open spec fn value_at(log: Seq<CommittedEntry>, cf: int, key: Seq<u8>, upto: u64) -> Option<
    Seq<u8>,
>
    decreases log.len(),
{
    if log.len() == 0 {
        Option::None
    } else {
        let prev = value_at(log.drop_last(), cf, key, upto);
        let e = log.last();
        if e.cf as int == cf && e.key@ == key && e.seq <= upto {
            apply_op(prev, e.op)
        } else {
            prev
        }
    }
}

/// The value a transaction sees for `key`: its own buffered writes, oldest
/// first, folded over the base value `base` that the store serves it.
pub open spec fn pending_value(
    ws: Seq<PendingWrite>,
    cf: int,
    key: Seq<u8>,
    base: Option<Seq<u8>>,
) -> Option<Seq<u8>>
    decreases ws.len(),
{
    if ws.len() == 0 {
        base
    } else {
        let prev = pending_value(ws.drop_last(), cf, key, base);
        let w = ws.last();
        if w.cf as int == cf && w.key@ == key {
            apply_op(prev, w.op)
        } else {
            prev
        }
    }
}

/// The committed entries that one atomic commit at sequence number `s`
/// makes out of a transaction's buffered writes, in buffer order.
pub open spec fn batch(ws: Seq<PendingWrite>, s: u64) -> Seq<CommittedEntry>
    decreases ws.len(),
{
    if ws.len() == 0 {
        Seq::empty()
    } else {
        batch(ws.drop_last(), s).push(
            (CommittedEntry { seq: s, cf: ws.last().cf, key: ws.last().key, op: ws.last().op }),
        )
    }
}

/// Byte-string equality.
pub fn bytes_eq(a: &[u8], b: &[u8]) -> (r: bool)
    ensures
        r == (a@ == b@),
{
    if a.len() != b.len() {
        return false;
    }
    let mut i: usize = 0;
    while i < a.len()
        invariant
            i <= a.len(),
            a.len() == b.len(),
            forall|j: int| 0 <= j < i ==> a@[j] == b@[j],
        decreases a.len() - i,
    {
        if a[i] != b[i] {
            return false;
        }
        i += 1;
    }
    proof {
        assert(a@ =~= b@);
    }
    true
}

/// An owned copy of a byte string.
pub fn bytes_to_vec(s: &[u8]) -> (r: Vec<u8>)
    ensures
        r@ == s@,
{
    let mut v: Vec<u8> = Vec::new();
    let mut i: usize = 0;
    while i < s.len()
        invariant
            i <= s.len(),
            v@ =~= s@.take(i as int),
        decreases s.len() - i,
    {
        v.push(s[i]);
        i += 1;
    }
    proof {
        assert(v@ =~= s@);
    }
    v
}

/// Appends a byte string onto an owned value.
pub fn push_bytes(v: &mut Vec<u8>, s: &[u8])
    ensures
        final(v)@ == old(v)@ + s@,
{
    let mut i: usize = 0;
    while i < s.len()
        invariant
            i <= s.len(),
            v@ =~= old(v)@ + s@.take(i as int),
        decreases s.len() - i,
    {
        v.push(s[i]);
        i += 1;
    }
    proof {
        assert(v@ =~= old(v)@ + s@);
    }
}

/// Applies one operation to an owned current value.
pub fn apply_write_op(cur: Option<Vec<u8>>, op: &WriteOp) -> (r: Option<Vec<u8>>)
    ensures
        opt_bytes(r) == apply_op(opt_bytes(cur), *op),
{
    match op {
        WriteOp::Put(v) => Option::Some(bytes_to_vec(v.as_slice())),
        WriteOp::Delete => Option::None,
        WriteOp::Merge(m) => match cur {
            Option::None => Option::Some(bytes_to_vec(m.as_slice())),
            Option::Some(mut c) => {
                push_bytes(&mut c, m.as_slice());
                Option::Some(c)
            },
        },
    }
}

/// Reads the committed value of `key` in `cf`, pinned at `upto`.
pub fn read_committed(log: &Vec<CommittedEntry>, cf: usize, key: &[u8], upto: u64) -> (r: Option<
    Vec<u8>,
>)
    ensures
        opt_bytes(r) == value_at(log@, cf as int, key@, upto),
{
    let mut cur: Option<Vec<u8>> = Option::None;
    let mut i: usize = 0;
    while i < log.len()
        invariant
            i <= log.len(),
            opt_bytes(cur) == value_at(log@.take(i as int), cf as int, key@, upto),
        decreases log.len() - i,
    {
        proof {
            assert(log@.take(i + 1).drop_last() =~= log@.take(i as int));
        }
        let e = &log[i];
        if e.cf == cf && bytes_eq(e.key.as_slice(), key) && e.seq <= upto {
            cur = apply_write_op(cur, &e.op);
        }
        i += 1;
    }
    proof {
        assert(log@.take(log.len() as int) =~= log@);
    }
    cur
}

/// Folds a transaction's buffered writes on `key` over the base value.
pub fn read_pending(ws: &Vec<PendingWrite>, cf: usize, key: &[u8], base: Option<Vec<u8>>) -> (r:
    Option<Vec<u8>>)
    ensures
        opt_bytes(r) == pending_value(ws@, cf as int, key@, opt_bytes(base)),
{
    let mut cur = base;
    let mut i: usize = 0;
    while i < ws.len()
        invariant
            i <= ws.len(),
            opt_bytes(cur) == pending_value(ws@.take(i as int), cf as int, key@, opt_bytes(base)),
        decreases ws.len() - i,
    {
        proof {
            assert(ws@.take(i + 1).drop_last() =~= ws@.take(i as int));
        }
        let w = &ws[i];
        if w.cf == cf && bytes_eq(w.key.as_slice(), key) {
            cur = apply_write_op(cur, &w.op);
        }
        i += 1;
    }
    proof {
        assert(ws@.take(ws.len() as int) =~= ws@);
    }
    cur
}

/// Whether two operations carry the same abstract content.
pub open spec fn op_like(a: WriteOp, b: WriteOp) -> bool {
    match (a, b) {
        (WriteOp::Put(x), WriteOp::Put(y)) => x@ == y@,
        (WriteOp::Delete, WriteOp::Delete) => true,
        (WriteOp::Merge(x), WriteOp::Merge(y)) => x@ == y@,
        _ => false,
    }
}

/// Whether two committed entries carry the same abstract content.
pub open spec fn entry_like(a: CommittedEntry, b: CommittedEntry) -> bool {
    a.seq == b.seq && a.cf == b.cf && a.key@ == b.key@ && op_like(a.op, b.op)
}

/// An owned copy of one operation.
pub fn copy_op(op: &WriteOp) -> (r: WriteOp)
    ensures
        op_like(r, *op),
{
    match op {
        WriteOp::Put(v) => WriteOp::Put(bytes_to_vec(v.as_slice())),
        WriteOp::Delete => WriteOp::Delete,
        WriteOp::Merge(m) => WriteOp::Merge(bytes_to_vec(m.as_slice())),
    }
}

/// The entries of one commit's batch: as many as the buffered writes,
/// each carrying the commit's sequence number and its write's key,
/// column family and operation.
pub proof fn lemma_batch_seq(ws: Seq<PendingWrite>, s: u64)
    ensures
        batch(ws, s).len() == ws.len(),
        forall|i: int|
            0 <= i < ws.len() ==> (#[trigger] batch(ws, s)[i]).seq == s && batch(ws, s)[i].cf
                == ws[i].cf && batch(ws, s)[i].key == ws[i].key && batch(ws, s)[i].op == ws[i].op,
    decreases ws.len(),
{
    if ws.len() > 0 {
        lemma_batch_seq(ws.drop_last(), s);
        assert forall|i: int|
            0 <= i < ws.len() implies (#[trigger] batch(ws, s)[i]).seq == s && batch(ws, s)[i].cf
            == ws[i].cf && batch(ws, s)[i].key == ws[i].key && batch(ws, s)[i].op == ws[i].op by {
            if i < ws.len() - 1 {
                assert(batch(ws, s)[i] == batch(ws.drop_last(), s)[i]);
                assert(ws.drop_last()[i] == ws[i]);
            }
        }
    }
}

/// Entries whose sequence numbers lie above the pin do not change a pinned
/// read.  This is the heart of snapshot isolation: a commit appends only
/// entries with fresh sequence numbers, so a read pinned to an earlier
/// snapshot is unaffected by it.
pub proof fn lemma_value_at_append(
    log: Seq<CommittedEntry>,
    extra: Seq<CommittedEntry>,
    cf: int,
    key: Seq<u8>,
    upto: u64,
)
    requires
        forall|i: int| 0 <= i < extra.len() ==> (#[trigger] extra[i]).seq > upto,
    ensures
        value_at(log + extra, cf, key, upto) == value_at(log, cf, key, upto),
    decreases extra.len(),
{
    if extra.len() == 0 {
        assert(log + extra =~= log);
    } else {
        lemma_value_at_append(log, extra.drop_last(), cf, key, upto);
        assert((log + extra).drop_last() =~= log + extra.drop_last());
        assert((log + extra).last() == extra.last());
    }
}

/// Raising the pin above every sequence number in the log does not change
/// a read: the current value equals the value pinned at any sequence
/// number at or above the newest entry.
pub proof fn lemma_value_at_pin_above(log: Seq<CommittedEntry>, cf: int, key: Seq<u8>, u1: u64, u2: u64)
    requires
        forall|i: int| 0 <= i < log.len() ==> (#[trigger] log[i]).seq <= u1,
        u1 <= u2,
    ensures
        value_at(log, cf, key, u2) == value_at(log, cf, key, u1),
    decreases log.len(),
{
    if log.len() > 0 {
        lemma_value_at_pin_above(log.drop_last(), cf, key, u1, u2);
        assert(log.last() == log[log.len() - 1]);
    }
}

/// Committing a write batch makes the transaction's view durable: a read
/// pinned at or above the commit's sequence number sees exactly the fold
/// of the buffered writes over the base value the log held before.
pub proof fn lemma_batch_read(
    log: Seq<CommittedEntry>,
    ws: Seq<PendingWrite>,
    s: u64,
    cf: int,
    key: Seq<u8>,
    upto: u64,
)
    requires
        s <= upto,
    ensures
        value_at(log + batch(ws, s), cf, key, upto) == pending_value(
            ws,
            cf,
            key,
            value_at(log, cf, key, upto),
        ),
    decreases ws.len(),
{
    if ws.len() == 0 {
        assert(log + batch(ws, s) =~= log);
    } else {
        lemma_batch_read(log, ws.drop_last(), s, cf, key, upto);
        assert((log + batch(ws, s)).drop_last() =~= log + batch(ws.drop_last(), s));
        assert((log + batch(ws, s)).last() == batch(ws, s).last());
    }
}

} // verus!
