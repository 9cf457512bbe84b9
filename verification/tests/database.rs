use mvcc_kv::db::Database;
use mvcc_kv::tx::Transaction;
use mvcc_kv::Error;

#[test]
fn commit_then_visible() {
    let mut db = Database::new();
    let t1 = db.begin();
    assert_eq!(db.put(&t1, 3, 42), Ok(()));
    assert_eq!(db.commit(&t1), Ok(()));

    let t2 = db.begin();
    assert_eq!(db.get(&t2, 3), Ok(42));
}

#[test]
fn uncommitted_write_stays_invisible() {
    let mut db = Database::new();
    let t1 = db.begin();
    assert_eq!(db.put(&t1, 3, 42), Ok(()));
    assert_eq!(db.commit(&t1), Ok(()));

    // A separate transaction writes the key but never commits.
    let writer = db.begin();
    assert_eq!(db.put(&writer, 3, 99), Ok(()));

    // A reader that begins afterwards still sees the committed 42.
    let t3 = db.begin();
    assert_eq!(db.get(&t3, 3), Ok(42));
}

#[test]
fn uncommitted_write_on_fresh_key_reads_not_found() {
    let mut db = Database::new();
    let writer = db.begin();
    assert_eq!(db.put(&writer, 4, 7), Ok(()));

    let reader = db.begin();
    assert_eq!(db.get(&reader, 4), Err(Error::NotFound));
}

#[test]
fn empty_table_query_not_found() {
    let mut db = Database::new();
    let t = db.begin();
    assert_eq!(db.get(&t, 0), Err(Error::NotFound));
    assert_eq!(db.get(&t, 9), Err(Error::NotFound));
}

#[test]
fn rollback_is_invisible() {
    let mut db = Database::new();
    let t1 = db.begin();
    assert_eq!(db.put(&t1, 4, 5), Ok(()));
    assert_eq!(db.abort(&t1), Ok(()));

    let t2 = db.begin();
    assert_eq!(db.get(&t2, 4), Err(Error::NotFound));
}

#[test]
fn rollback_preserves_prior_committed_value() {
    let mut db = Database::new();
    let t1 = db.begin();
    assert_eq!(db.put(&t1, 4, 5), Ok(()));
    assert_eq!(db.commit(&t1), Ok(()));

    let t2 = db.begin();
    assert_eq!(db.put(&t2, 4, 6), Ok(()));
    assert_eq!(db.abort(&t2), Ok(()));

    let t3 = db.begin();
    assert_eq!(db.get(&t3, 4), Ok(5));
}

#[test]
fn same_tx_overwrite_keeps_one_version() {
    let mut db = Database::new();
    let t1 = db.begin();
    assert_eq!(db.put(&t1, 0, 1), Ok(()));
    assert_eq!(db.put(&t1, 0, 2), Ok(()));
    assert_eq!(db.version_count(0), 1);
    assert_eq!(db.commit(&t1), Ok(()));

    let t2 = db.begin();
    assert_eq!(db.get(&t2, 0), Ok(2));
}

#[test]
fn greatest_committed_writer_wins() {
    let mut db = Database::new();
    let t1 = db.begin();
    assert_eq!(db.put(&t1, 5, 10), Ok(()));
    assert_eq!(db.commit(&t1), Ok(()));

    let t2 = db.begin();
    assert_eq!(db.put(&t2, 5, 20), Ok(()));
    assert_eq!(db.commit(&t2), Ok(()));

    let t3 = db.begin();
    assert_eq!(db.get(&t3, 5), Ok(20));
    assert_eq!(db.version_count(5), 2);
}

#[test]
fn write_conflict_against_future_writer() {
    let mut db = Database::new();
    let t1 = db.begin();
    let t2 = db.begin();
    assert_eq!(db.put(&t2, 6, 1), Ok(()));
    assert_eq!(db.put(&t1, 6, 2), Err(Error::WriteConflict));
    // The failed put left the chain untouched.
    assert_eq!(db.version_count(6), 1);
}

#[test]
fn dirty_write_against_active_writer() {
    let mut db = Database::new();
    let t1 = db.begin();
    assert_eq!(db.put(&t1, 7, 1), Ok(()));

    let t2 = db.begin();
    assert_eq!(db.put(&t2, 7, 2), Err(Error::WriteConflict));
    assert_eq!(db.version_count(7), 1);
}

#[test]
fn terminated_transaction_is_rejected() {
    let mut db = Database::new();
    let t1 = db.begin();
    assert_eq!(db.put(&t1, 8, 1), Ok(()));
    assert_eq!(db.commit(&t1), Ok(()));

    assert_eq!(db.put(&t1, 8, 2), Err(Error::TxNotActive));
    assert_eq!(db.get(&t1, 8), Err(Error::TxNotActive));
    assert_eq!(db.commit(&t1), Err(Error::TxNotActive));
    assert_eq!(db.abort(&t1), Err(Error::TxNotActive));
}

#[test]
fn snapshot_does_not_see_later_commits() {
    let mut db = Database::new();
    let t1 = db.begin();
    let t2 = db.begin();
    assert_eq!(db.put(&t2, 9, 5), Ok(()));
    assert_eq!(db.commit(&t2), Ok(()));

    // t1's snapshot was fixed before t2 began: the commit stays out of view.
    assert_eq!(db.get(&t1, 9), Err(Error::NotFound));

    let t3 = db.begin();
    assert_eq!(db.get(&t3, 9), Ok(5));
}

#[test]
fn write_after_aborted_writer_succeeds() {
    let mut db = Database::new();
    let t1 = db.begin();
    assert_eq!(db.put(&t1, 1, 9), Ok(()));
    assert_eq!(db.abort(&t1), Ok(()));

    let t2 = db.begin();
    assert_eq!(db.put(&t2, 1, 11), Ok(()));
    assert_eq!(db.commit(&t2), Ok(()));

    let t3 = db.begin();
    assert_eq!(db.get(&t3, 1), Ok(11));
    assert_eq!(db.version_count(1), 2);
}

#[test]
fn forged_transaction_is_rejected() {
    let mut db = Database::new();
    let forged = Transaction::new(999);
    assert_eq!(db.put(&forged, 2, 1), Err(Error::TxNotActive));
    assert_eq!(db.get(&forged, 2), Err(Error::TxNotActive));
}

#[test]
fn fixed_table_shape() {
    let db = Database::new();
    assert_eq!(db.num_keys(), 10);
    for k in 0..10 {
        assert_eq!(db.version_count(k), 0);
    }
}
