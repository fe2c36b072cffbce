//! The four shapes of the read operation.
//!
//! `GetCFOpt` is the fully parameterized form; the bare, with-options and
//! with-column-family shapes are derived from it by blanket delegation
//! using default options and the default column family.  A reader is
//! either the store itself (context `()`) or a transaction reading
//! through a store.

use vstd::prelude::*;

use crate::error::Error;
use crate::options::{default_column_family, ColumnFamily, ReadOptions};
use crate::store::{read_committed, read_pending, res_bytes};
use crate::transaction::{txn_read_result, Transaction, TransactionState};
use crate::transaction_db::{db_read_result, TransactionDB};

verus! {

/// The fully parameterized read: explicit column family and options.
/// `read_result` is what the implementor's read serves; every shape's
/// contract speaks through it.
pub trait GetCFOpt<Ctx> {
    /// What a read by this reader serves, given the context it reads
    /// through.
    spec fn read_result(&self, ctx: Ctx, cf: ColumnFamily, key: Seq<u8>, ro: ReadOptions) -> Result<
        Option<Seq<u8>>,
        Error,
    >;

    /// Return the value associated with `key` in the given column family,
    /// under the given read options.
    fn get_cf_opt(&self, ctx: &Ctx, cf: &ColumnFamily, key: &[u8], readopts: &ReadOptions) -> (r:
        Result<Option<Vec<u8>>, Error>)
        ensures
            res_bytes(r) == self.read_result(*ctx, *cf, key@, *readopts),
    ;
}

/// Read under explicit options, in the default column family.
pub trait GetOpt<Ctx>: GetCFOpt<Ctx> {
    /// Return the value associated with `key` in the default column
    /// family, under the given read options.
    fn get_opt(&self, ctx: &Ctx, key: &[u8], readopts: &ReadOptions) -> (r: Result<
        Option<Vec<u8>>,
        Error,
    >)
        ensures
            res_bytes(r) == self.read_result(*ctx, (ColumnFamily { id: 0 }), key@, *readopts),
    ;
}

/// Read in an explicit column family, under default options.
pub trait GetCF<Ctx>: GetCFOpt<Ctx> {
    /// Return the value associated with `key` in the given column family.
    fn get_cf(&self, ctx: &Ctx, cf: &ColumnFamily, key: &[u8]) -> (r: Result<
        Option<Vec<u8>>,
        Error,
    >)
        ensures
            res_bytes(r) == self.read_result(
                *ctx,
                *cf,
                key@,
                (ReadOptions { snapshot_seq: Option::None }),
            ),
    ;
}

/// The bare read: default column family, default options.
pub trait Get<Ctx>: GetOpt<Ctx> {
    /// Return the value associated with `key`.
    fn get(&self, ctx: &Ctx, key: &[u8]) -> (r: Result<Option<Vec<u8>>, Error>)
        ensures
            res_bytes(r) == self.read_result(
                *ctx,
                (ColumnFamily { id: 0 }),
                key@,
                (ReadOptions { snapshot_seq: Option::None }),
            ),
    ;
}

impl<Ctx, T: GetCFOpt<Ctx>> GetOpt<Ctx> for T {
    fn get_opt(&self, ctx: &Ctx, key: &[u8], readopts: &ReadOptions) -> (r: Result<
        Option<Vec<u8>>,
        Error,
    >) {
        self.get_cf_opt(ctx, &default_column_family(), key, readopts)
    }
}

impl<Ctx, T: GetCFOpt<Ctx>> GetCF<Ctx> for T {
    fn get_cf(&self, ctx: &Ctx, cf: &ColumnFamily, key: &[u8]) -> (r: Result<
        Option<Vec<u8>>,
        Error,
    >) {
        self.get_cf_opt(ctx, cf, key, &ReadOptions::default())
    }
}

impl<Ctx, T: GetOpt<Ctx>> Get<Ctx> for T {
    fn get(&self, ctx: &Ctx, key: &[u8]) -> (r: Result<Option<Vec<u8>>, Error>) {
        self.get_opt(ctx, key, &ReadOptions::default())
    }
}

impl GetCFOpt<TransactionDB> for Transaction {
    open spec fn read_result(
        &self,
        ctx: TransactionDB,
        cf: ColumnFamily,
        key: Seq<u8>,
        ro: ReadOptions,
    ) -> Result<Option<Seq<u8>>, Error> {
        txn_read_result(*self, ctx, cf, key, ro)
    }

    /// A transactional read: the transaction's own buffered writes shadow
    /// the committed value the store serves under the read options.
    fn get_cf_opt(
        &self,
        ctx: &TransactionDB,
        cf: &ColumnFamily,
        key: &[u8],
        readopts: &ReadOptions,
    ) -> (r: Result<Option<Vec<u8>>, Error>) {
        if !(self.state == TransactionState::Active) {
            return Result::Err(Error::InvalidState);
        }
        if cf.id >= ctx.cfs.len() {
            return Result::Err(Error::InvalidColumnFamily);
        }
        let pin = match readopts.snapshot_seq {
            Option::None => ctx.seq,
            Option::Some(s) => s,
        };
        let base = read_committed(&ctx.log, cf.id, key, pin);
        Result::Ok(read_pending(&self.writes, cf.id, key, base))
    }
}

impl GetCFOpt<()> for TransactionDB {
    open spec fn read_result(&self, ctx: (), cf: ColumnFamily, key: Seq<u8>, ro: ReadOptions) -> Result<
        Option<Seq<u8>>,
        Error,
    > {
        db_read_result(*self, cf, key, ro)
    }

    /// A plain store read, pinned per the read options.
    fn get_cf_opt(&self, ctx: &(), cf: &ColumnFamily, key: &[u8], readopts: &ReadOptions) -> (r:
        Result<Option<Vec<u8>>, Error>) {
        self.get_cf_opt(cf, key, readopts)
    }
}

} // verus!
