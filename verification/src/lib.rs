//! An in-memory multi-version concurrency control (MVCC) core for a
//! transactional key-value store.
//!
//! Each key owns an ordered chain of versions. A transaction reads through a
//! snapshot fixed when it begins: a version is visible to it exactly when the
//! creating transaction's id does not exceed the snapshot boundary and that
//! transaction has committed. Writes stay isolated until commit, rolled-back
//! writes are never observed, and conflicting concurrent writers are detected
//! rather than silently overwriting history.
//!
//! Access to one database value is serialized by Rust's borrow rules: a write
//! holds exclusive access and a read shared access for the duration of its
//! scan, so every call is atomic — a failed call leaves the state exactly as
//! it was. A writer that runs into an in-flight writer of the same key fails
//! immediately with [`Error::WriteConflict`] rather than blocking on it; the
//! caller is expected to abort and retry with a fresh transaction.

use vstd::prelude::*;

pub mod db;
pub mod laws;
pub mod tx;
pub mod tx_manager;

verus! {

/// The error kinds that database operations report.
#[derive(Clone, Copy, PartialEq, Eq, Structural, Debug)]
pub enum Error {
    /// `get` found no visible, committed version of the key.
    NotFound,
    /// `put` found a conflicting writer on the key: either a writer with a
    /// greater id already holds the newest version, or the newest version's
    /// writer is still active (dirty-write prevention).
    WriteConflict,
    /// The calling transaction is not currently `Active`.
    TxNotActive,
}

} // verus!
