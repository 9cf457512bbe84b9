//! A transaction's identity together with the immutable snapshot captured
//! when it began.

use vstd::prelude::*;

use crate::tx_manager::TxId;

verus! {

/// A pure visibility rule over transaction ids, decided when a transaction
/// begins and never mutated afterward: ids up to the boundary are in view.
#[derive(Clone, Copy, PartialEq, Eq, Structural, Debug)]
pub struct Snapshot {
    boundary: TxId,
}

impl Snapshot {
    /// The highest transaction id this snapshot may observe.
    pub closed spec fn spec_boundary(self) -> TxId {
        self.boundary
    }

    /// Whether a version created by `id` is within this snapshot's view.
    /// Committedness is checked separately wherever visibility is used.
    pub open spec fn spec_can_see(self, id: TxId) -> bool {
        id <= self.spec_boundary()
    }

    pub fn new(boundary: TxId) -> (s: Snapshot)
        ensures
            s.spec_boundary() == boundary,
    {
        Snapshot { boundary }
    }

    pub fn can_see(&self, id: TxId) -> (r: bool)
        ensures
            r == self.spec_can_see(id),
    {
        id <= self.boundary
    }
}

/// A transaction: its id plus the snapshot fixed at creation. The snapshot
/// boundary is the transaction's own id, so it observes itself and every
/// transaction that began earlier, and nothing that began later.
#[derive(Clone, Copy, PartialEq, Eq, Structural, Debug)]
pub struct Transaction {
    id: TxId,
    snapshot: Snapshot,
}

impl Transaction {
    pub closed spec fn spec_id(self) -> TxId {
        self.id
    }

    pub closed spec fn spec_snapshot(self) -> Snapshot {
        self.snapshot
    }

    pub fn new(id: TxId) -> (t: Transaction)
        ensures
            t.spec_id() == id,
            t.spec_snapshot().spec_boundary() == id,
    {
        Transaction { id, snapshot: Snapshot::new(id) }
    }

    pub fn id(&self) -> (r: TxId)
        ensures
            r == self.spec_id(),
    {
        self.id
    }

    pub fn snapshot(&self) -> (s: &Snapshot)
        ensures
            *s == self.spec_snapshot(),
    {
        &self.snapshot
    }
}

} // verus!
