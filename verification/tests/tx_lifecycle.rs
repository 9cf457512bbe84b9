use mvcc_kv::tx::{Snapshot, Transaction};
use mvcc_kv::tx_manager::{TxManager, TxStatus};
use mvcc_kv::Error;

#[test]
fn ids_are_ordered_and_start_at_one() {
    let mut m = TxManager::new();
    assert_eq!(m.begin(), 1);
    assert_eq!(m.begin(), 2);
    assert_eq!(m.begin(), 3);
}

#[test]
fn status_transitions_are_one_way() {
    let mut m = TxManager::new();
    let a = m.begin();
    let b = m.begin();
    let c = m.begin();
    assert_eq!(m.get_status(a), TxStatus::Active);

    assert_eq!(m.commit(a), Ok(()));
    assert_eq!(m.get_status(a), TxStatus::Committed);
    assert_eq!(m.commit(a), Err(Error::TxNotActive));
    assert_eq!(m.abort(a), Err(Error::TxNotActive));

    assert_eq!(m.abort(b), Ok(()));
    assert_eq!(m.get_status(b), TxStatus::Aborted);
    assert_eq!(m.commit(b), Err(Error::TxNotActive));

    assert_eq!(m.get_status(c), TxStatus::Active);
}

#[test]
fn unissued_ids_report_the_safe_default() {
    let mut m = TxManager::new();
    assert_eq!(m.get_status(0), TxStatus::Aborted);
    assert_eq!(m.get_status(1), TxStatus::Aborted);
    let a = m.begin();
    assert_eq!(m.get_status(a), TxStatus::Active);
    assert_eq!(m.get_status(999), TxStatus::Aborted);
    assert_eq!(m.get_status(u64::MAX), TxStatus::Aborted);
    assert_eq!(m.commit(999), Err(Error::TxNotActive));
}

#[test]
fn snapshot_boundary_rules() {
    let s = Snapshot::new(5);
    assert!(s.can_see(0));
    assert!(s.can_see(4));
    assert!(s.can_see(5));
    assert!(!s.can_see(6));
}

#[test]
fn transaction_sees_itself_and_earlier_ids_only() {
    let t = Transaction::new(3);
    assert_eq!(t.id(), 3);
    assert!(t.snapshot().can_see(1));
    assert!(t.snapshot().can_see(3));
    assert!(!t.snapshot().can_see(4));
}
