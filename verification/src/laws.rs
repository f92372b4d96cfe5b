//! Laws of the store model: properties of the operations that hold for
//! every store, stated and proved once over the spec-level transitions.

use vstd::prelude::*;
use vstd::seq_lib::group_filter_ensures;
use crate::models::PeerConnection;
use crate::store::{
    has_peer, keep_log_pred, keep_peer_pred, lemma_filter_is_subset, lemma_ref_at, log_expired,
    peer_referenced, purge_spec, update_peer_spec, updated_row, StoreView,
};

verus! {

/// Applying the same update payload twice leaves the table in the same
/// state as applying it once.
pub proof fn lemma_update_idempotent(s: StoreView, row: PeerConnection)
    ensures
        update_peer_spec(update_peer_spec(s, row), row) == update_peer_spec(s, row),
{
    let once = update_peer_spec(s, row);
    let twice = update_peer_spec(once, row);
    assert forall|i: int|
        0 <= i < twice.peers.len() implies #[trigger] twice.peers[i] == once.peers[i] by {
        assert(once.peers[i] == updated_row(s.peers[i], row));
        assert(twice.peers[i] == updated_row(once.peers[i], row));
    }
    assert(twice =~= once);
}

/// After a purge cycle no surviving log record is both non-audit and older
/// than the cutoff.
pub proof fn lemma_purge_removes_expired(s: StoreView, cutoff: int)
    requires
        s.wf(),
    ensures
        forall|i: int|
            0 <= i < purge_spec(s, cutoff).logs.len() ==> ((#[trigger] purge_spec(
                s,
                cutoff,
            ).logs[i]).audit || purge_spec(s, cutoff).logs[i].created_at >= cutoff),
{
    broadcast use group_filter_ensures;

    let pred = keep_log_pred(s.peers, cutoff);
    let logs1 = s.logs.filter(pred);
    lemma_filter_is_subset(s.logs, pred);
    assert forall|i: int|
        0 <= i < purge_spec(s, cutoff).logs.len() implies ((#[trigger] purge_spec(
        s,
        cutoff,
    ).logs[i]).audit || purge_spec(s, cutoff).logs[i].created_at >= cutoff) by {
        let l = logs1[i];
        assert(pred(l));
        assert(!log_expired(s.peers, cutoff, l));
        assert(s.logs.contains(l));
        let w = choose|w: int| 0 <= w < s.logs.len() && s.logs[w] == l;
        lemma_ref_at(s, w);
        assert(has_peer(s.peers, l.peer_connection_id));
    }
}

/// After a purge cycle every surviving peer-connection row is referenced
/// by some surviving log record: the orphan sweep leaves no orphans.
pub proof fn lemma_purge_no_orphans(s: StoreView, cutoff: int)
    ensures
        forall|i: int|
            0 <= i < purge_spec(s, cutoff).peers.len() ==> peer_referenced(
                purge_spec(s, cutoff).logs,
                (#[trigger] purge_spec(s, cutoff).peers[i]).id,
            ),
{
    broadcast use group_filter_ensures;

    let logs1 = s.logs.filter(keep_log_pred(s.peers, cutoff));
    let pred = keep_peer_pred(logs1);
    assert forall|i: int|
        0 <= i < purge_spec(s, cutoff).peers.len() implies peer_referenced(
        purge_spec(s, cutoff).logs,
        (#[trigger] purge_spec(s, cutoff).peers[i]).id,
    ) by {
        assert(pred(purge_spec(s, cutoff).peers[i]));
    }
}

/// An audit log record survives a purge cycle of any cutoff, and — in a
/// well-formed store — so does the peer-connection row it references.
pub proof fn lemma_audit_record_survives(s: StoreView, cutoff: int, i: int)
    requires
        0 <= i < s.logs.len(),
        s.logs[i].audit,
    ensures
        purge_spec(s, cutoff).logs.contains(s.logs[i]),
        s.wf() ==> has_peer(purge_spec(s, cutoff).peers, s.logs[i].peer_connection_id),
{
    broadcast use group_filter_ensures;

    let l = s.logs[i];
    let pred = keep_log_pred(s.peers, cutoff);
    let logs1 = s.logs.filter(pred);
    assert(pred(l));
    assert(logs1.contains(l));
    if s.wf() {
        lemma_ref_at(s, i);
        let j = choose|j: int|
            0 <= j < s.peers.len() && (#[trigger] s.peers[j]).id == l.peer_connection_id;
        let k = choose|k: int| 0 <= k < logs1.len() && logs1[k] == l;
        assert((logs1[k]).peer_connection_id == s.peers[j].id);
        assert(peer_referenced(logs1, s.peers[j].id));
        let pred2 = keep_peer_pred(logs1);
        assert(pred2(s.peers[j]));
        assert(s.peers.filter(pred2).contains(s.peers[j]));
        let w = choose|w: int|
            0 <= w < s.peers.filter(pred2).len() && s.peers.filter(pred2)[w] == s.peers[j];
        assert((purge_spec(s, cutoff).peers[w]).id == l.peer_connection_id);
    }
}

} // verus!
