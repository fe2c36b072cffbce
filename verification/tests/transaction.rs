use txstore::error::Error;
use txstore::ops::get::Get;
use txstore::ops::transaction::{TransactionBegin, TransactionBeginOpt};
use txstore::options::{ColumnFamily, MergeOperator, Options, TransactionOptions, WriteOptions};
use txstore::transaction_db::TransactionDB;

#[test]
fn transaction() {
    let mut db = TransactionDB::open_default(b"_rust_rocksdb_transaction").unwrap();

    let mut trans = db.transaction();

    trans.put(&mut db, b"k1", b"v1").unwrap();
    trans.put(&mut db, b"k2", b"v2").unwrap();
    trans.put(&mut db, b"k3", b"v3").unwrap();
    trans.put(&mut db, b"k4", b"v4").unwrap();

    trans.commit(&mut db).unwrap();

    let mut trans2 = db.transaction();

    assert_eq!(trans2.get(&db, b"k1").unwrap(), Some(b"v1".to_vec()));
    assert_eq!(trans2.get(&db, b"k2").unwrap(), Some(b"v2".to_vec()));
    assert_eq!(trans2.get(&db, b"k3").unwrap(), Some(b"v3".to_vec()));
    assert_eq!(trans2.get(&db, b"k4").unwrap(), Some(b"v4".to_vec()));
    assert_eq!(trans2.get(&db, b"k5").unwrap(), None);

    let mut trans3 = db.transaction();

    trans2.put(&mut db, b"k2", b"v5").unwrap();
    trans3.put(&mut db, b"k2", b"v6").unwrap_err();

    trans3.commit(&mut db).unwrap();

    trans2.commit(&mut db).unwrap();
}

#[test]
pub fn transaction_rollback_savepoint() {
    let mut opts = Options::default();
    opts.set_create_if_missing(true);

    let mut db = TransactionDB::open(&opts, b"_rust_rocksdb_transaction_rollback_savepoint")
        .unwrap();

    let mut trans1 = db.transaction();
    let mut trans2 = db.transaction();

    trans1.put(&mut db, b"k1", b"v1").unwrap();

    let k1_2 = trans2.get(&db, b"k1").unwrap();
    assert!(k1_2.is_none());

    trans1.commit(&mut db).unwrap();

    let mut trans3 = db.transaction();

    let k1_2 = trans2.get(&db, b"k1").unwrap().unwrap();
    assert_eq!(&*k1_2, b"v1");

    trans3.delete(&mut db, b"k1").unwrap();

    let k1_2 = trans2.get(&db, b"k1").unwrap().unwrap();
    assert_eq!(&*k1_2, b"v1");

    trans3.rollback(&mut db).unwrap();

    let k1_2 = trans2.get(&db, b"k1").unwrap().unwrap();
    assert_eq!(&*k1_2, b"v1");

    let mut trans4 = db.transaction();

    trans4.delete(&mut db, b"k1").unwrap();
    trans4.set_savepoint().unwrap();
    trans4.put(&mut db, b"k2", b"v2").unwrap();
    trans4.rollback_to_savepoint().unwrap();
    trans4.commit(&mut db).unwrap();

    let k1_2 = trans2.get(&db, b"k1").unwrap();
    assert!(k1_2.is_none());

    let k2_2 = trans2.get(&db, b"k2").unwrap();
    assert!(k2_2.is_none());

    trans2.commit(&mut db).unwrap();
}

#[test]
pub fn transaction_snapshot() {
    let mut opts = Options::default();
    opts.set_create_if_missing(true);
    let mut db = TransactionDB::open(&opts, b"_rust_rocksdb_transaction_snapshot").unwrap();

    let write_options = WriteOptions::default();
    let transaction_options = TransactionOptions::new();
    let mut trans1 = db.transaction_opt(&write_options, &transaction_options);

    let mut transaction_options_snapshot = TransactionOptions::new();
    transaction_options_snapshot.set_snapshot(true);
    // create transaction with snapshot
    let mut trans2 = db.transaction_opt(&write_options, &transaction_options_snapshot);

    trans1.put(&mut db, b"k1", b"v1").unwrap();

    let k1_2 = trans2.get(&db, b"k1").unwrap();
    assert!(k1_2.is_none());

    trans1.commit(&mut db).unwrap();
    drop(trans1);

    trans2.commit(&mut db).unwrap();
    drop(trans2);

    let mut trans3 = db.transaction_opt(&write_options, &transaction_options_snapshot);

    let mut trans4 = db.transaction_opt(&write_options, &transaction_options);
    trans4.delete(&mut db, b"k1").unwrap();
    trans4.commit(&mut db).unwrap();
    drop(trans4);

    assert!(trans3.get(&db, b"k1").unwrap().is_none());

    let k1_3 = trans3.snapshot().unwrap().get(&trans3, &db, b"k1").unwrap().unwrap();
    assert_eq!(&*k1_3, b"v1");

    trans3.commit(&mut db).unwrap();
    drop(trans3);

    let mut trans5 = db.transaction_opt(&write_options, &transaction_options_snapshot);

    let k1_5 = trans5.snapshot().unwrap().get(&trans5, &db, b"k1").unwrap();
    assert!(k1_5.is_none());

    trans5.commit(&mut db).unwrap();
}

#[test]
pub fn get_for_update() {
    let mut opts = Options::default();
    opts.set_create_if_missing(true);
    let txopts = txstore::options::TransactionDBOptions::default();

    let mut db = TransactionDB::open_opt(&opts, b"_rust_rocksdb_get_for_update", &txopts).unwrap();

    db.put(b"k1", b"v1").expect("failed to put k1 v1");
    let v1 = db.get(b"k1").expect("failed to get k1").expect("k1 is not exists");
    assert_eq!(&*v1, b"v1");

    let mut tran1 = db.transaction();
    let v1 = tran1
        .get_for_update(&mut db, b"k1")
        .expect("failed to get for update k1")
        .expect("k1 is not exists");
    assert_eq!(&*v1, b"v1");

    assert!(db.put(b"k1", b"v2").is_err());

    let v1 = tran1
        .get_for_update(&mut db, b"k1")
        .expect("failed to get for update k1")
        .expect("k1 is not exists");
    assert_eq!(&*v1, b"v1");

    tran1.put(&mut db, b"k2", b"v2").expect("failed to put k1 v1");
    tran1.commit(&mut db).unwrap();
}

#[test]
pub fn get_for_update_cf() {
    let mut opts = Options::default();
    opts.set_create_if_missing(true);
    let txopts = txstore::options::TransactionDBOptions::default();

    let mut db = TransactionDB::open_opt(&opts, b"_rust_rocksdb_get_for_update_cf", &txopts)
        .unwrap();

    db.create_cf(b"cf1", &opts).expect("failed to create new column family cf1");
    let cf1 = db.cf_handle(b"cf1").expect("column family not exists.");

    db.put_cf(&cf1, b"k1", b"v1").expect("failed to put k1 v1");
    let v1 = db.get_cf(&cf1, b"k1").expect("failed to get k1").expect("k1 is not exists");
    assert_eq!(&*v1, b"v1");

    let mut tran1 = db.transaction();
    let v1 = tran1
        .get_for_update_cf(&mut db, &cf1, b"k1")
        .expect("failed to get for update k1")
        .expect("k1 is not exists");
    assert_eq!(&*v1, b"v1");

    assert!(db.put_cf(&cf1, b"k1", b"v2").is_err());

    let v1 = tran1
        .get_for_update_cf(&mut db, &cf1, b"k1")
        .expect("failed to get for update k1")
        .expect("k1 is not exists");
    assert_eq!(&*v1, b"v1");

    tran1.put_cf(&mut db, &cf1, b"k2", b"v2").expect("failed to put k1 v1");
    tran1.commit(&mut db).unwrap();
}

#[test]
pub fn test_transaction_merge() {
    let mut opts = Options::default();
    opts.set_create_if_missing(true);
    opts.set_merge_operator(MergeOperator::Concat);
    let mut db = TransactionDB::open(&opts, b"_rust_rocksdb_transaction_merge").unwrap();
    let mut trans1 = db.transaction();

    trans1.put(&mut db, b"k1", b"a").unwrap();
    trans1.merge(&mut db, b"k1", b"b").unwrap();
    trans1.merge(&mut db, b"k1", b"c").unwrap();
    trans1.merge(&mut db, b"k1", b"d").unwrap();
    trans1.merge(&mut db, b"k1", b"efg").unwrap();
    // buffered merges are visible to the transaction's own reads at once
    assert_eq!(trans1.get(&db, b"k1").unwrap(), Some(b"abcdefg".to_vec()));
    trans1.commit(&mut db).unwrap();

    let mut trans2 = db.transaction();
    let k1 = trans2.get(&db, b"k1").unwrap().unwrap();
    assert_eq!(&*k1, b"abcdefg");

    trans2.commit(&mut db).unwrap();
}

#[test]
fn exclusive_lock_blocks_other_transactions() {
    let mut db = TransactionDB::open_default(b"_lock_blocks").unwrap();
    db.put(b"k", b"v0").unwrap();

    let t1 = db.transaction();
    let t2 = db.transaction();

    assert_eq!(t1.get_for_update(&mut db, b"k").unwrap(), Some(b"v0".to_vec()));

    // another transaction's lock request on the same key is refused
    assert_eq!(t2.get_for_update(&mut db, b"k").unwrap_err(), Error::Conflict);
    // and so is a direct write
    assert_eq!(db.put(b"k", b"x").unwrap_err(), Error::Conflict);

    // an unrelated key is free
    assert_eq!(t2.get_for_update(&mut db, b"other").unwrap(), None);
}

#[test]
fn shared_locks_coexist_but_block_exclusive() {
    let mut db = TransactionDB::open_default(b"_shared_locks").unwrap();
    let ro = txstore::options::ReadOptions::default();

    let t1 = db.transaction();
    let t2 = db.transaction();

    t1.get_for_update_opt(&mut db, b"k", &ro, false).unwrap();
    // a second shared hold is granted
    t2.get_for_update_opt(&mut db, b"k", &ro, false).unwrap();
    // but an exclusive request collides with the other hold
    assert_eq!(t1.get_for_update(&mut db, b"k").unwrap_err(), Error::Conflict);
}

#[test]
fn rollback_discards_buffered_writes() {
    let mut db = TransactionDB::open_default(b"_rollback_discards").unwrap();
    db.put(b"k", b"before").unwrap();

    let mut t = db.transaction();
    t.put(&mut db, b"k", b"after").unwrap();
    assert_eq!(t.get(&db, b"k").unwrap(), Some(b"after".to_vec()));
    t.rollback(&mut db).unwrap();

    let f = db.transaction();
    assert_eq!(f.get(&db, b"k").unwrap(), Some(b"before".to_vec()));
    // the released lock frees the key for direct writes again
    db.put(b"k", b"direct").unwrap();
}

#[test]
fn rollback_twice_fails_with_invalid_state() {
    let mut db = TransactionDB::open_default(b"_rollback_twice").unwrap();
    let mut t = db.transaction();
    t.put(&mut db, b"k", b"v").unwrap();
    t.rollback(&mut db).unwrap();
    assert_eq!(t.rollback(&mut db).unwrap_err(), Error::InvalidState);
    // every further operation is refused too
    assert_eq!(t.put(&mut db, b"k", b"v").unwrap_err(), Error::InvalidState);
    assert_eq!(t.commit(&mut db).unwrap_err(), Error::InvalidState);
    assert_eq!(t.get(&db, b"k").unwrap_err(), Error::InvalidState);
}

#[test]
fn savepoint_restores_value_before_savepoint() {
    let mut db = TransactionDB::open_default(b"_savepoint_value").unwrap();
    let mut t = db.transaction();
    t.put(&mut db, b"k", b"v1").unwrap();
    t.set_savepoint().unwrap();
    t.put(&mut db, b"k", b"v2").unwrap();
    t.rollback_to_savepoint().unwrap();
    assert_eq!(t.get(&db, b"k").unwrap(), Some(b"v1".to_vec()));
    t.commit(&mut db).unwrap();

    let f = db.transaction();
    assert_eq!(f.get(&db, b"k").unwrap(), Some(b"v1".to_vec()));
}

#[test]
fn savepoints_nest_in_stack_order() {
    let mut db = TransactionDB::open_default(b"_savepoint_stack").unwrap();
    let mut t = db.transaction();
    t.put(&mut db, b"k", b"v1").unwrap();
    t.set_savepoint().unwrap();
    t.put(&mut db, b"k", b"v2").unwrap();
    t.set_savepoint().unwrap();
    t.put(&mut db, b"k", b"v3").unwrap();
    t.rollback_to_savepoint().unwrap();
    assert_eq!(t.get(&db, b"k").unwrap(), Some(b"v2".to_vec()));
    t.rollback_to_savepoint().unwrap();
    assert_eq!(t.get(&db, b"k").unwrap(), Some(b"v1".to_vec()));
    // the stack is empty now
    assert_eq!(t.rollback_to_savepoint().unwrap_err(), Error::InvalidState);
}

#[test]
fn merge_without_operator_is_refused() {
    let mut db = TransactionDB::open_default(b"_merge_no_operator").unwrap();
    let mut t = db.transaction();
    assert_eq!(t.merge(&mut db, b"k", b"x").unwrap_err(), Error::NoMergeOperator);
    // nothing was buffered
    assert_eq!(t.get(&db, b"k").unwrap(), None);
}

#[test]
fn unknown_column_family_is_refused() {
    let mut db = TransactionDB::open_default(b"_unknown_cf").unwrap();
    assert!(db.cf_handle(b"missing").is_none());
    let bogus = ColumnFamily { id: 7 };
    assert_eq!(db.get_cf(&bogus, b"k").unwrap_err(), Error::InvalidColumnFamily);
    let mut t = db.transaction();
    assert_eq!(t.put_cf(&mut db, &bogus, b"k", b"v").unwrap_err(), Error::InvalidColumnFamily);
}

#[test]
fn create_cf_rejects_existing_name() {
    let opts = Options::default();
    let mut db = TransactionDB::open_default(b"_create_cf_dup").unwrap();
    db.create_cf(b"cf1", &opts).unwrap();
    assert_eq!(db.create_cf(b"cf1", &opts).unwrap_err(), Error::InvalidColumnFamily);
    // the default column family is there from the start, under handle 0
    assert_eq!(db.cf_handle(b"default").unwrap(), ColumnFamily { id: 0 });
}

#[test]
fn open_rejects_duplicate_column_families() {
    let opts = Options::default();
    let names = vec![b"a".to_vec(), b"b".to_vec(), b"a".to_vec()];
    assert_eq!(
        TransactionDB::open_cf(&opts, b"_open_dup", &names).unwrap_err(),
        Error::InvalidColumnFamily
    );
    let names2 = vec![b"a".to_vec(), b"b".to_vec()];
    let db = TransactionDB::open_cf(&opts, b"_open_ok", &names2).unwrap();
    assert!(db.cf_handle(b"a").is_some());
    assert!(db.cf_handle(b"b").is_some());
    assert_eq!(db.cf_handle(b"default").unwrap(), ColumnFamily { id: 0 });
}

#[test]
fn sequence_numbers_grow_with_commits() {
    let mut db = TransactionDB::open_default(b"_seq_numbers").unwrap();
    assert_eq!(db.latest_sequence_number(), 0);
    db.put(b"k", b"v").unwrap();
    assert_eq!(db.latest_sequence_number(), 1);
    let snap = db.snapshot();
    assert_eq!(snap.sequence_number(), 1);
    let mut t = db.transaction();
    t.put(&mut db, b"a", b"1").unwrap();
    t.put(&mut db, b"b", b"2").unwrap();
    t.commit(&mut db).unwrap();
    // one atomic commit advances the sequence number once
    assert_eq!(db.latest_sequence_number(), 2);
}

#[test]
fn snapshot_accessor_fails_without_binding() {
    let mut db = TransactionDB::open_default(b"_snapshot_unbound").unwrap();
    let t = db.transaction();
    assert_eq!(t.snapshot().unwrap_err(), Error::InvalidState);
}

#[test]
fn updates_since_replays_later_commits() {
    let mut db = TransactionDB::open_default(b"_updates_since").unwrap();
    db.put(b"k0", b"v0").unwrap();
    let mut t = db.transaction();
    t.put(&mut db, b"a", b"1").unwrap();
    t.delete(&mut db, b"b").unwrap();
    t.commit(&mut db).unwrap();

    let ups = db.get_updates_since(2).unwrap();
    assert_eq!(ups.len(), 2);
    assert_eq!(ups[0].seq, 2);
    assert_eq!(ups[0].key, b"a".to_vec());
    assert!(matches!(ups[0].op, txstore::store::WriteOp::Put(ref v) if v == b"1"));
    assert_eq!(ups[1].seq, 2);
    assert_eq!(ups[1].key, b"b".to_vec());
    assert!(matches!(ups[1].op, txstore::store::WriteOp::Delete));

    let all = db.get_updates_since(0).unwrap();
    assert_eq!(all.len(), 3);

    // beyond the newest commit is out of bounds
    assert_eq!(db.get_updates_since(3).unwrap_err(), Error::InvalidState);
}

#[test]
fn path_is_kept() {
    let db = TransactionDB::open_default(b"_path_kept").unwrap();
    assert_eq!(db.path().as_slice(), b"_path_kept");
}
