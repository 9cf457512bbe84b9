//! Transaction-id issuance and lifecycle status tracking.

use vstd::prelude::*;

use crate::Error;

verus! {

/// A transaction identifier. Ids are issued in increasing order starting at 1
/// and are never reused.
pub type TxId = u64;

/// Sentinel id: "no transaction". Never issued.
pub const TX_ID_NONE: TxId = 0;

/// Sentinel id: "unbounded / open-ended". Never issued; marks a version that
/// no later transaction has superseded yet.
pub const TX_ID_UNBOUNDED: TxId = u64::MAX;

/// Lifecycle status of a transaction. `Active` is the only non-terminal
/// state; the transitions `Active -> Committed` and `Active -> Aborted` are
/// one-way and final.
#[derive(Clone, Copy, PartialEq, Eq, Structural, Debug)]
pub enum TxStatus {
    Active,
    Committed,
    Aborted,
}

/// Issues unique, ordered transaction ids and tracks each issued id's status.
pub struct TxManager {
    /// The id `begin` hands out next; issued ids are `1 ..= next_id - 1`.
    next_id: TxId,
    /// Entry `i` is the status of id `i + 1`.
    statuses: Vec<TxStatus>,
}

impl View for TxManager {
    type V = Seq<TxStatus>;

    closed spec fn view(&self) -> Seq<TxStatus> {
        self.statuses@
    }
}

impl TxManager {
    /// Internal consistency: the next id to issue follows the issued ones.
    pub closed spec fn wf(self) -> bool {
        self.next_id == self@.len() + 1
    }

    /// An id this manager has handed out.
    pub open spec fn issued(self, id: TxId) -> bool {
        1 <= id <= self@.len()
    }

    /// The status of `id`. An id never issued reports `Aborted`, the defined
    /// "not committed" default, so visibility checks degrade safely.
    pub open spec fn status_of(self, id: TxId) -> TxStatus {
        if self.issued(id) {
            self@[id - 1]
        } else {
            TxStatus::Aborted
        }
    }

    pub fn new() -> (m: TxManager)
        ensures
            m.wf(),
            m@ =~= Seq::<TxStatus>::empty(),
    {
        TxManager { next_id: 1, statuses: Vec::new() }
    }

    /// Allocates the next unused id and records it `Active`.
    pub fn begin(&mut self) -> (id: TxId)
        requires
            old(self).wf(),
            old(self)@.len() + 1 < TX_ID_UNBOUNDED,
        ensures
            final(self).wf(),
            id == old(self)@.len() + 1,
            1 <= id < TX_ID_UNBOUNDED,
            final(self)@ =~= old(self)@.push(TxStatus::Active),
            final(self).status_of(id) is Active,
            forall|j: TxId| j != id ==> final(self).status_of(j) == old(self).status_of(j),
    {
        let id = self.next_id;
        self.next_id = self.next_id + 1;
        self.statuses.push(TxStatus::Active);
        id
    }

    /// Pure status lookup.
    pub fn get_status(&self, id: TxId) -> (st: TxStatus)
        ensures
            st == self.status_of(id),
    {
        if 1 <= id && id <= self.statuses.len() as u64 {
            self.statuses[(id - 1) as usize]
        } else {
            TxStatus::Aborted
        }
    }

    /// `Active -> Committed`; rejected unless `id` is currently `Active`.
    pub fn commit(&mut self, id: TxId) -> (r: Result<(), Error>)
        requires
            old(self).wf(),
        ensures
            final(self).wf(),
            old(self).status_of(id) is Active ==> r is Ok && final(self)@ =~= old(self)@.update(
                id - 1,
                TxStatus::Committed,
            ),
            !(old(self).status_of(id) is Active) ==> r == Err::<(), Error>(Error::TxNotActive)
                && final(self)@ == old(self)@,
            final(self).status_of(id) == if old(self).status_of(id) is Active {
                TxStatus::Committed
            } else {
                old(self).status_of(id)
            },
            forall|j: TxId| j != id ==> final(self).status_of(j) == old(self).status_of(j),
    {
        let st = self.get_status(id);
        if st == TxStatus::Active {
            let n = self.statuses.len();
            proof {
                assert(old(self).issued(id));
                assert(id - 1 < n);
            }
            let idx = (id - 1) as usize;
            self.statuses[idx] = TxStatus::Committed;
            Ok(())
        } else {
            Err(Error::TxNotActive)
        }
    }

    /// `Active -> Aborted`; rejected unless `id` is currently `Active`.
    pub fn abort(&mut self, id: TxId) -> (r: Result<(), Error>)
        requires
            old(self).wf(),
        ensures
            final(self).wf(),
            old(self).status_of(id) is Active ==> r is Ok && final(self)@ =~= old(self)@.update(
                id - 1,
                TxStatus::Aborted,
            ),
            !(old(self).status_of(id) is Active) ==> r == Err::<(), Error>(Error::TxNotActive)
                && final(self)@ == old(self)@,
            final(self).status_of(id) == if old(self).status_of(id) is Active {
                TxStatus::Aborted
            } else {
                old(self).status_of(id)
            },
            forall|j: TxId| j != id ==> final(self).status_of(j) == old(self).status_of(j),
    {
        let st = self.get_status(id);
        if st == TxStatus::Active {
            let n = self.statuses.len();
            proof {
                assert(old(self).issued(id));
                assert(id - 1 < n);
            }
            let idx = (id - 1) as usize;
            self.statuses[idx] = TxStatus::Aborted;
            Ok(())
        } else {
            Err(Error::TxNotActive)
        }
    }
}

} // verus!
