//! Library-wide laws, each stated and proved over the spec functions that the
//! component contracts use: `is_visible`, `is_winner`, `has_writer` and
//! `put_outcome` from the chain module, and `status_of` from the manager.

use vstd::prelude::*;

use crate::db::{
    distinct_writers, fresh_record, has_visible, has_writer, is_visible, is_winner, put_outcome,
    writer_index, Record,
};
use crate::tx_manager::{TxId, TxManager};
use crate::Error;

verus! {

/// Law: reads are deterministic. A chain with at most one version per
/// creating transaction has at most one winning version for any snapshot
/// boundary, so every read of the same chain through the same boundary and
/// statuses returns the same value, whatever order the writers appended in.
pub proof fn lemma_winner_unique(s: Seq<Record>, b: TxId, txm: TxManager, i: int, j: int)
    requires
        distinct_writers(s),
        is_winner(s, b, txm, i),
        is_winner(s, b, txm, j),
    ensures
        i == j,
{
    assert(is_visible(s[i], b, txm));
    assert(is_visible(s[j], b, txm));
    assert(s[i].tmin <= s[j].tmin);
    assert(s[j].tmin <= s[i].tmin);
    if i < j {
        assert(s[i].tmin != s[j].tmin);
    } else if j < i {
        assert(s[j].tmin != s[i].tmin);
    }
}

/// Law: for any set of committed, visible writers to a key there is a winning
/// version — one whose creator id is the greatest among them — so a read of a
/// chain with any visible version never fails.
pub proof fn lemma_winner_exists(s: Seq<Record>, b: TxId, txm: TxManager)
    requires
        has_visible(s, b, txm),
    ensures
        exists|w: int| is_winner(s, b, txm, w),
    decreases s.len(),
{
    let last = s.len() - 1;
    let prefix = s.drop_last();
    assert(forall|i: int| 0 <= i < prefix.len() ==> prefix[i] == s[i]);
    if is_visible(s[last], b, txm) {
        if has_visible(prefix, b, txm) {
            lemma_winner_exists(prefix, b, txm);
            let w = choose|w: int| is_winner(prefix, b, txm, w);
            if s[w].tmin >= s[last].tmin {
                assert(is_winner(s, b, txm, w));
            } else {
                assert(is_winner(s, b, txm, last));
            }
        } else {
            assert(is_winner(s, b, txm, last));
        }
    } else {
        let v = choose|i: int| 0 <= i < s.len() && is_visible(#[trigger] s[i], b, txm);
        assert(is_visible(prefix[v], b, txm));
        lemma_winner_exists(prefix, b, txm);
        let w = choose|w: int| is_winner(prefix, b, txm, w);
        assert(is_winner(s, b, txm, w));
    }
}

/// Law: read-your-own-commit. A committed write that a snapshot sees, and
/// that no visible committed writer with a greater id supersedes, is exactly
/// what a read through that snapshot returns: index `i` is the winning
/// version, and every winning version holds its value.
pub proof fn lemma_read_your_own_commit(s: Seq<Record>, b: TxId, txm: TxManager, i: int)
    requires
        distinct_writers(s),
        0 <= i < s.len(),
        s[i].tmin <= b,
        txm.status_of(s[i].tmin) is Committed,
        forall|j: int|
            0 <= j < s.len() && is_visible(#[trigger] s[j], b, txm) ==> s[j].tmin <= s[i].tmin,
    ensures
        has_visible(s, b, txm),
        is_winner(s, b, txm, i),
        forall|w: int| is_winner(s, b, txm, w) ==> (#[trigger] s[w]).data == s[i].data,
{
    assert(is_visible(s[i], b, txm));
    assert forall|w: int| is_winner(s, b, txm, w) implies (#[trigger] s[w]).data == s[i].data by {
        lemma_winner_unique(s, b, txm, i, w);
    }
}

/// Law: write isolation. While a transaction is active, no read through any
/// snapshot returns the version it wrote: an active creator's version is
/// never visible, so it is never the winning version.
pub proof fn lemma_active_write_invisible(s: Seq<Record>, b: TxId, txm: TxManager, i: int)
    requires
        0 <= i < s.len(),
        txm.status_of(s[i].tmin) is Active,
    ensures
        !is_visible(s[i], b, txm),
        forall|w: int| is_winner(s, b, txm, w) ==> w != i,
{
}

/// Law: rollback invisibility. Once a transaction aborts, no read through
/// any snapshot returns the version it wrote, under any scan order: the
/// winning version is defined over the whole chain, and an aborted creator's
/// version is never visible.
pub proof fn lemma_aborted_write_invisible(s: Seq<Record>, b: TxId, txm: TxManager, i: int)
    requires
        0 <= i < s.len(),
        txm.status_of(s[i].tmin) is Aborted,
    ensures
        !is_visible(s[i], b, txm),
        forall|w: int| is_winner(s, b, txm, w) ==> w != i,
{
}

/// After any successful put by `txid`, the chain holds exactly one version
/// created by `txid`, and it holds the written value.
pub proof fn lemma_put_ok_one_writer(
    s: Seq<Record>,
    txid: TxId,
    value: usize,
    txm: TxManager,
    ns: Seq<Record>,
)
    requires
        distinct_writers(s),
        put_outcome(s, txid, value, txm) == Ok::<Seq<Record>, Error>(ns),
    ensures
        distinct_writers(ns),
        has_writer(ns, txid),
        ns[writer_index(ns, txid)].data == value,
        forall|i: int, j: int|
            0 <= i < j < ns.len() ==> !((#[trigger] ns[i]).tmin == txid && (#[trigger] ns[j]).tmin
                == txid),
{
    if has_writer(s, txid) {
        let w = writer_index(s, txid);
        assert(0 <= w < s.len() && s[w].tmin == txid);
        assert(ns == s.update(w, (Record { data: value, ..s[w] })));
        assert(distinct_writers(ns));
        crate::db::lemma_writer_index_is(ns, txid, w);
    } else {
        let w = ns.len() - 1;
        assert(ns.last() == fresh_record(txid, value));
        assert(distinct_writers(ns));
        crate::db::lemma_writer_index_is(ns, txid, w);
    }
}

/// Law: idempotent same-transaction overwrite. A transaction that has
/// already written this key and writes it again before reaching a terminal
/// status succeeds, grows the chain by nothing, and is left with exactly one
/// version, holding the second value.
pub proof fn lemma_same_tx_overwrite(
    s0: Seq<Record>,
    txid: TxId,
    v1: usize,
    v2: usize,
    txm1: TxManager,
    txm2: TxManager,
    s1: Seq<Record>,
    s2: Seq<Record>,
)
    requires
        distinct_writers(s0),
        put_outcome(s0, txid, v1, txm1) == Ok::<Seq<Record>, Error>(s1),
        put_outcome(s1, txid, v2, txm2) == Ok::<Seq<Record>, Error>(s2),
    ensures
        s2.len() == s1.len(),
        has_writer(s2, txid),
        s2[writer_index(s2, txid)].data == v2,
        forall|i: int, j: int|
            0 <= i < j < s2.len() ==> !((#[trigger] s2[i]).tmin == txid && (#[trigger] s2[j]).tmin
                == txid),
{
    lemma_put_ok_one_writer(s0, txid, v1, txm1, s1);
    assert(has_writer(s1, txid));
    assert(s2 == s1.update(writer_index(s1, txid), (Record { data: v2, ..s1[writer_index(s1, txid)] })));
    lemma_put_ok_one_writer(s1, txid, v2, txm2, s2);
}

/// The second put of the pair above cannot fail: a chain already holding the
/// caller's version is always overwritten in place.
pub proof fn lemma_same_tx_put_succeeds(s: Seq<Record>, txid: TxId, value: usize, txm: TxManager)
    requires
        has_writer(s, txid),
    ensures
        put_outcome(s, txid, value, txm) is Ok,
{
}

/// Law: write-conflict detection. When the newest version of the chain was
/// created by a transaction ordered after the incoming writer — and that
/// incoming writer has no version of its own to overwrite — the put fails
/// with `WriteConflict` and overwrites nothing.
pub proof fn lemma_write_conflict_detected(s: Seq<Record>, txid: TxId, value: usize, txm: TxManager)
    requires
        s.len() > 0,
        !has_writer(s, txid),
        s.last().tmin > txid,
    ensures
        put_outcome(s, txid, value, txm) == Err::<Seq<Record>, Error>(Error::WriteConflict),
{
}

/// Law: dirty-write prevention. When the newest version's creator is still
/// active and the incoming writer is ordered after it, the put fails with
/// `WriteConflict` rather than writing beside an in-flight writer.
pub proof fn lemma_dirty_write_prevented(s: Seq<Record>, txid: TxId, value: usize, txm: TxManager)
    requires
        s.len() > 0,
        !has_writer(s, txid),
        s.last().tmin < txid,
        txm.status_of(s.last().tmin) is Active,
    ensures
        put_outcome(s, txid, value, txm) == Err::<Seq<Record>, Error>(Error::WriteConflict),
{
}

/// Law: empty-table query. An empty chain has no visible version for any
/// boundary and any statuses, so a read of a never-written key returns
/// `NotFound`.
pub proof fn lemma_empty_chain_nothing_visible(b: TxId, txm: TxManager)
    ensures
        !has_visible(Seq::<Record>::empty(), b, txm),
{
}

} // verus!
