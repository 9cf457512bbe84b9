//! Per-key version chains and the database that owns them.
//!
//! A `Versions` value is the old-to-new history of one key. The write path
//! either overwrites the caller's own earlier version in place, appends a new
//! version after closing the committed predecessor, or fails with
//! `WriteConflict`; the read path returns the visible committed version with
//! the greatest creator id. A failed call leaves the chain exactly as it was.

use vstd::prelude::*;

use crate::tx::{Snapshot, Transaction};
use crate::tx_manager::{TxId, TxManager, TxStatus, TX_ID_UNBOUNDED};
use crate::Error;

verus! {

/// One version of a key's value.
#[derive(Clone, Copy, PartialEq, Eq, Structural, Debug)]
pub struct Record {
    /// The creating transaction ("tmin").
    pub tmin: TxId,
    /// The superseding transaction ("tmax"); `TX_ID_UNBOUNDED` while no later
    /// writer has closed this version.
    pub tmax: TxId,
    /// The current value.
    pub data: usize,
    /// The value as first written by the creator, kept in case the creator
    /// later rolls back; reads never consult it.
    pub backup: usize,
}

/// A version as first written by `txid`: open-ended, with the backup equal to
/// the value.
pub open spec fn fresh_record(txid: TxId, value: usize) -> Record {
    Record { tmin: txid, tmax: TX_ID_UNBOUNDED, data: value, backup: value }
}

/// Whether a snapshot with boundary `b` may read record `r`: created at or
/// before the boundary, by a transaction that committed.
pub open spec fn is_visible(r: Record, b: TxId, txm: TxManager) -> bool {
    r.tmin <= b && txm.status_of(r.tmin) is Committed
}

/// Whether some record of the chain is visible to boundary `b`.
pub open spec fn has_visible(s: Seq<Record>, b: TxId, txm: TxManager) -> bool {
    exists|i: int| 0 <= i < s.len() && is_visible(#[trigger] s[i], b, txm)
}

/// Whether index `i` holds the version a read returns: visible, and no
/// visible record of the chain has a greater creator id.
pub open spec fn is_winner(s: Seq<Record>, b: TxId, txm: TxManager, i: int) -> bool {
    &&& 0 <= i < s.len()
    &&& is_visible(s[i], b, txm)
    &&& forall|j: int| 0 <= j < s.len() && is_visible(#[trigger] s[j], b, txm) ==> s[j].tmin
        <= s[i].tmin
}

/// Whether the chain already holds a version created by `txid`.
pub open spec fn has_writer(s: Seq<Record>, txid: TxId) -> bool {
    exists|i: int| 0 <= i < s.len() && (#[trigger] s[i]).tmin == txid
}

/// The index of the version created by `txid`; meaningful only under
/// `has_writer` and `distinct_writers`, where it is unique.
pub open spec fn writer_index(s: Seq<Record>, txid: TxId) -> int {
    choose|i: int| 0 <= i < s.len() && (#[trigger] s[i]).tmin == txid
}

/// At most one version of the chain per creating transaction.
pub open spec fn distinct_writers(s: Seq<Record>) -> bool {
    forall|i: int, j: int|
        0 <= i < j < s.len() ==> (#[trigger] s[i]).tmin != (#[trigger] s[j]).tmin
}

/// What one `put` by `txid` does to a chain, or the error it fails with:
/// - a chain already holding a version by `txid` has that version overwritten
///   in place (same-transaction re-writes never grow the chain);
/// - an empty chain gains the fresh version;
/// - a newest version created by a transaction ordered after `txid` is a
///   write-write conflict;
/// - a newest version whose creator is still active is a dirty write; the
///   incoming writer fails at once rather than stalling on the prior one;
/// - a committed newest version is closed (its "tmax" set to `txid`) and the
///   fresh version is appended;
/// - an aborted newest version was never valid and needs no closing; the
///   fresh version is appended after it.
pub open spec fn put_outcome(s: Seq<Record>, txid: TxId, value: usize, txm: TxManager) -> Result<
    Seq<Record>,
    Error,
> {
    if has_writer(s, txid) {
        Ok(s.update(writer_index(s, txid), (Record { data: value, ..s[writer_index(s, txid)] })))
    } else if s.len() == 0 {
        Ok(s.push(fresh_record(txid, value)))
    } else if s.last().tmin > txid {
        Err(Error::WriteConflict)
    } else if txm.status_of(s.last().tmin) is Active {
        Err(Error::WriteConflict)
    } else if txm.status_of(s.last().tmin) is Committed {
        Ok(s.update(s.len() - 1, (Record { tmax: txid, ..s.last() })).push(
            fresh_record(txid, value),
        ))
    } else {
        Ok(s.push(fresh_record(txid, value)))
    }
}

/// A chain index holding `txid`'s version is the writer index.
pub proof fn lemma_writer_index_is(s: Seq<Record>, txid: TxId, i: int)
    requires
        distinct_writers(s),
        0 <= i < s.len(),
        s[i].tmin == txid,
    ensures
        has_writer(s, txid),
        writer_index(s, txid) == i,
{
    assert(has_writer(s, txid));
    let w = writer_index(s, txid);
    assert(0 <= w < s.len() && s[w].tmin == txid);
    if w != i {
        if w < i {
            assert(s[w].tmin != s[i].tmin);
        } else {
            assert(s[i].tmin != s[w].tmin);
        }
    }
}

/// The old-to-new version history of exactly one key.
pub struct Versions {
    records: Vec<Record>,
}

impl View for Versions {
    type V = Seq<Record>;

    closed spec fn view(&self) -> Seq<Record> {
        self.records@
    }
}

impl Versions {
    /// Chain invariant: at most one version per creating transaction.
    pub open spec fn wf(self) -> bool {
        distinct_writers(self@)
    }

    pub fn new() -> (v: Versions)
        ensures
            v.wf(),
            v@ =~= Seq::<Record>::empty(),
    {
        Versions { records: Vec::new() }
    }

    /// How many versions this chain holds.
    pub fn len(&self) -> (n: usize)
        ensures
            n == self@.len(),
    {
        self.records.len()
    }

    /// The index of the version `txid` created earlier, if any.
    fn find_writer(&self, txid: TxId) -> (r: Option<usize>)
        ensures
            match r {
                Some(i) => i < self@.len() && self@[i as int].tmin == txid,
                None => !has_writer(self@, txid),
            },
    {
        let n = self.records.len();
        let mut k: usize = 0;
        while k < n
            invariant
                n == self@.len(),
                k <= n,
                forall|j: int| 0 <= j < k ==> (#[trigger] self@[j]).tmin != txid,
            decreases n - k,
        {
            if self.records[k].tmin == txid {
                return Some(k);
            }
            k = k + 1;
        }
        None
    }

    /// Writes `value` as `txid`'s version of this key, or fails with
    /// `WriteConflict`; a failed call leaves the chain unchanged.
    pub fn put(&mut self, txid: TxId, value: usize, txm: &TxManager) -> (r: Result<(), Error>)
        requires
            old(self).wf(),
        ensures
            final(self).wf(),
            match put_outcome(old(self)@, txid, value, *txm) {
                Ok(ns) => r is Ok && final(self)@ =~= ns,
                Err(e) => r == Err::<(), Error>(e) && final(self)@ == old(self)@,
            },
    {
        match self.find_writer(txid) {
            Some(i) => {
                // Same-transaction re-write: overwrite in place, never grow
                // the chain.
                proof {
                    lemma_writer_index_is(self@, txid, i as int);
                }
                let mut rec = self.records[i];
                rec.data = value;
                self.records[i] = rec;
                Ok(())
            },
            None => {
                let n = self.records.len();
                if n == 0 {
                    self.records.push(
                        Record { tmin: txid, tmax: TX_ID_UNBOUNDED, data: value, backup: value },
                    );
                    Ok(())
                } else {
                    let last = self.records[n - 1];
                    if last.tmin > txid {
                        // Write-write conflict against a logically future
                        // transaction.
                        Err(Error::WriteConflict)
                    } else {
                        match txm.get_status(last.tmin) {
                            TxStatus::Active => {
                                // Dirty-write prevention: the newest version's
                                // writer is still in flight; fail at once
                                // rather than stall until it resolves.
                                Err(Error::WriteConflict)
                            },
                            TxStatus::Committed => {
                                let mut closed_rec = last;
                                closed_rec.tmax = txid;
                                self.records[n - 1] = closed_rec;
                                self.records.push(
                                    Record {
                                        tmin: txid,
                                        tmax: TX_ID_UNBOUNDED,
                                        data: value,
                                        backup: value,
                                    },
                                );
                                Ok(())
                            },
                            TxStatus::Aborted => {
                                self.records.push(
                                    Record {
                                        tmin: txid,
                                        tmax: TX_ID_UNBOUNDED,
                                        data: value,
                                        backup: value,
                                    },
                                );
                                Ok(())
                            },
                        }
                    }
                }
            },
        }
    }

    /// Reads the value a snapshot with boundary `snap` observes: the visible,
    /// committed version with the greatest creator id, or `NotFound` when no
    /// version of this key is visible and committed.
    pub fn get(&self, snap: &Snapshot, txm: &TxManager) -> (r: Result<usize, Error>)
        requires
            self.wf(),
        ensures
            has_visible(self@, snap.spec_boundary(), *txm) <==> r is Ok,
            !has_visible(self@, snap.spec_boundary(), *txm) ==> r == Err::<usize, Error>(
                Error::NotFound,
            ),
            r is Ok ==> exists|w: int|
                is_winner(self@, snap.spec_boundary(), *txm, w) && r == Ok::<usize, Error>(
                    (#[trigger] self@[w]).data,
                ),
            forall|w: int|
                is_winner(self@, snap.spec_boundary(), *txm, w) ==> r == Ok::<usize, Error>(
                    (#[trigger] self@[w]).data,
                ),
    {
        let ghost b = snap.spec_boundary();
        let n = self.records.len();
        let mut found: bool = false;
        let mut best_tmin: TxId = 0;
        let mut best_data: usize = 0;
        let mut k: usize = 0;
        while k < n
            invariant
                n == self@.len(),
                k <= n,
                b == snap.spec_boundary(),
                !found ==> forall|j: int| 0 <= j < k ==> !is_visible(#[trigger] self@[j], b, *txm),
                found ==> exists|j: int|
                    0 <= j < k && is_visible(#[trigger] self@[j], b, *txm) && self@[j].tmin
                        == best_tmin && self@[j].data == best_data,
                found ==> forall|j: int|
                    0 <= j < k && is_visible(#[trigger] self@[j], b, *txm) ==> self@[j].tmin
                        <= best_tmin,
            decreases n - k,
        {
            let rec = self.records[k];
            if snap.can_see(rec.tmin) && (!found || rec.tmin >= best_tmin) {
                let st = txm.get_status(rec.tmin);
                if st == TxStatus::Committed {
                    found = true;
                    best_tmin = rec.tmin;
                    best_data = rec.data;
                }
            }
            k = k + 1;
        }
        if found {
            proof {
                let j = choose|j: int|
                    0 <= j < n && is_visible(#[trigger] self@[j], b, *txm) && self@[j].tmin
                        == best_tmin && self@[j].data == best_data;
                assert(is_winner(self@, b, *txm, j));
                assert forall|w: int| is_winner(self@, b, *txm, w) implies self@[w].data
                    == best_data by {
                    assert(self@[w].tmin <= self@[j].tmin);
                    assert(self@[j].tmin <= self@[w].tmin);
                    if w != j {
                        if w < j {
                            assert(self@[w].tmin != self@[j].tmin);
                        } else {
                            assert(self@[j].tmin != self@[w].tmin);
                        }
                    }
                }
            }
            Ok(best_data)
        } else {
            Err(Error::NotFound)
        }
    }
}

/// The number of key slots a database is constructed with; the table is
/// fixed at construction and never resized.
pub const KEY_COUNT: usize = 10;

/// A fixed table of version chains, one per dense integer key, plus the one
/// transaction manager that issues ids and tracks statuses.
pub struct Database {
    data: Vec<Versions>,
    tx_manager: TxManager,
}

impl Database {
    /// The version chains, one per key, as mathematical sequences.
    pub closed spec fn chains(self) -> Seq<Seq<Record>> {
        Seq::new(self.data@.len(), |i: int| self.data@[i]@)
    }

    /// The owned transaction manager.
    pub closed spec fn txm(self) -> TxManager {
        self.tx_manager
    }

    pub open spec fn wf(self) -> bool {
        &&& self.txm().wf()
        &&& forall|k: int|
            0 <= k < self.chains().len() ==> distinct_writers(#[trigger] self.chains()[k])
    }

    /// Builds a database with `KEY_COUNT` empty chains and a fresh manager.
    pub fn new() -> (db: Database)
        ensures
            db.wf(),
            db.chains().len() == KEY_COUNT,
            forall|k: int| 0 <= k < KEY_COUNT ==> (#[trigger] db.chains()[k]).len() == 0,
            db.txm()@.len() == 0,
    {
        let mut data: Vec<Versions> = Vec::new();
        let mut k: usize = 0;
        while k < KEY_COUNT
            invariant
                k <= KEY_COUNT,
                data@.len() == k,
                forall|j: int| 0 <= j < k ==> (#[trigger] data@[j])@.len() == 0,
            decreases KEY_COUNT - k,
        {
            data.push(Versions::new());
            k = k + 1;
        }
        Database { data, tx_manager: TxManager::new() }
    }

    /// The number of key slots.
    pub fn num_keys(&self) -> (n: usize)
        ensures
            n == self.chains().len(),
    {
        self.data.len()
    }

    /// How many versions the chain at `key` holds.
    pub fn version_count(&self, key: usize) -> (n: usize)
        requires
            key < self.chains().len(),
        ensures
            n == self.chains()[key as int].len(),
    {
        self.data[key].len()
    }

    /// Begins a transaction: a fresh id, recorded `Active`, with a snapshot
    /// whose boundary is that id.
    pub fn begin(&mut self) -> (tx: Transaction)
        requires
            old(self).wf(),
            old(self).txm()@.len() + 1 < TX_ID_UNBOUNDED,
        ensures
            final(self).wf(),
            final(self).chains() == old(self).chains(),
            tx.spec_id() == old(self).txm()@.len() + 1,
            tx.spec_snapshot().spec_boundary() == tx.spec_id(),
            final(self).txm()@ =~= old(self).txm()@.push(TxStatus::Active),
            final(self).txm().status_of(tx.spec_id()) is Active,
            forall|j: TxId|
                j != tx.spec_id() ==> final(self).txm().status_of(j) == old(self).txm().status_of(
                    j,
                ),
    {
        let id = self.tx_manager.begin();
        let tx = Transaction::new(id);
        proof {
            assert(self.chains() =~= old(self).chains());
        }
        tx
    }

    /// `Active -> Committed` for `tx`'s id; rejected unless currently active.
    pub fn commit(&mut self, tx: &Transaction) -> (r: Result<(), Error>)
        requires
            old(self).wf(),
        ensures
            final(self).wf(),
            final(self).chains() == old(self).chains(),
            final(self).txm()@.len() == old(self).txm()@.len(),
            old(self).txm().status_of(tx.spec_id()) is Active ==> r is Ok
                && final(self).txm().status_of(tx.spec_id()) is Committed,
            !(old(self).txm().status_of(tx.spec_id()) is Active) ==> r == Err::<(), Error>(
                Error::TxNotActive,
            ) && final(self).txm()@ == old(self).txm()@,
            forall|j: TxId|
                j != tx.spec_id() ==> final(self).txm().status_of(j) == old(self).txm().status_of(
                    j,
                ),
    {
        let r = self.tx_manager.commit(tx.id());
        proof {
            assert(self.chains() =~= old(self).chains());
        }
        r
    }

    /// `Active -> Aborted` for `tx`'s id; rejected unless currently active.
    /// An aborted transaction's versions stay in their chains but no read
    /// ever returns them.
    pub fn abort(&mut self, tx: &Transaction) -> (r: Result<(), Error>)
        requires
            old(self).wf(),
        ensures
            final(self).wf(),
            final(self).chains() == old(self).chains(),
            final(self).txm()@.len() == old(self).txm()@.len(),
            old(self).txm().status_of(tx.spec_id()) is Active ==> r is Ok
                && final(self).txm().status_of(tx.spec_id()) is Aborted,
            !(old(self).txm().status_of(tx.spec_id()) is Active) ==> r == Err::<(), Error>(
                Error::TxNotActive,
            ) && final(self).txm()@ == old(self).txm()@,
            forall|j: TxId|
                j != tx.spec_id() ==> final(self).txm().status_of(j) == old(self).txm().status_of(
                    j,
                ),
    {
        let r = self.tx_manager.abort(tx.id());
        proof {
            assert(self.chains() =~= old(self).chains());
        }
        r
    }

    /// Writes `value` under `key` as `tx`'s version. Rejected when `tx` is no
    /// longer active; otherwise the chain at `key` changes exactly as
    /// `put_outcome` says and every other key is untouched.
    pub fn put(&mut self, tx: &Transaction, key: usize, value: usize) -> (r: Result<(), Error>)
        requires
            old(self).wf(),
            key < old(self).chains().len(),
        ensures
            final(self).wf(),
            final(self).txm() == old(self).txm(),
            final(self).chains().len() == old(self).chains().len(),
            forall|k: int|
                0 <= k < old(self).chains().len() && k != key ==> final(self).chains()[k]
                    == old(self).chains()[k],
            !(old(self).txm().status_of(tx.spec_id()) is Active) ==> r == Err::<(), Error>(
                Error::TxNotActive,
            ) && final(self).chains() == old(self).chains(),
            old(self).txm().status_of(tx.spec_id()) is Active ==> match put_outcome(
                old(self).chains()[key as int],
                tx.spec_id(),
                value,
                old(self).txm(),
            ) {
                Ok(ns) => r is Ok && final(self).chains()[key as int] =~= ns,
                Err(e) => r == Err::<(), Error>(e) && final(self).chains()[key as int]
                    == old(self).chains()[key as int],
            },
    {
        let st = self.tx_manager.get_status(tx.id());
        if !(st == TxStatus::Active) {
            return Err(Error::TxNotActive);
        }
        let txid = tx.id();
        let chain = &mut self.data[key];
        let r = chain.put(txid, value, &self.tx_manager);
        proof {
            assert(self.chains() =~= old(self).chains().update(
                key as int,
                self.chains()[key as int],
            ));
        }
        r
    }

    /// Reads `key` through `tx`'s snapshot. Rejected when `tx` is no longer
    /// active; otherwise returns the visible committed version with the
    /// greatest creator id, or `NotFound` when there is none.
    pub fn get(&self, tx: &Transaction, key: usize) -> (r: Result<usize, Error>)
        requires
            self.wf(),
            key < self.chains().len(),
        ensures
            !(self.txm().status_of(tx.spec_id()) is Active) ==> r == Err::<usize, Error>(
                Error::TxNotActive,
            ),
            self.txm().status_of(tx.spec_id()) is Active ==> {
                let s = self.chains()[key as int];
                let b = tx.spec_snapshot().spec_boundary();
                &&& (has_visible(s, b, self.txm()) <==> r is Ok)
                &&& (!has_visible(s, b, self.txm()) ==> r == Err::<usize, Error>(Error::NotFound))
                &&& (r is Ok ==> exists|w: int|
                    is_winner(s, b, self.txm(), w) && r == Ok::<usize, Error>(
                        (#[trigger] s[w]).data,
                    ))
                &&& forall|w: int|
                    is_winner(s, b, self.txm(), w) ==> r == Ok::<usize, Error>(
                        (#[trigger] s[w]).data,
                    )
            },
    {
        let st = self.tx_manager.get_status(tx.id());
        if !(st == TxStatus::Active) {
            return Err(Error::TxNotActive);
        }
        proof {
            assert(distinct_writers(self.chains()[key as int]));
        }
        self.data[key].get(tx.snapshot(), &self.tx_manager)
    }
}

} // verus!
