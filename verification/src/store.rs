//! Model of the relational store: the `peer_connections` and `tetcore_logs`
//! tables, the invariants that tie them together, and the row-level effect
//! of each operation.
//!
//! The two standing invariants are:
//! - identifiers of `peer_connections` rows are unique, and
//! - every `tetcore_logs` row references an existing `peer_connections` row.
//!
//! The purge sweep has two phases in a fixed order: first delete every
//! non-audit log record older than the cutoff whose owner still exists, then
//! delete every peer connection that no longer has a referencing log record.

use vstd::prelude::*;
use vstd::seq_lib::group_filter_ensures;
use crate::models::{NewPeerConnection, NewTetcoreLog, PeerConnection};
use crate::models::assigned_row;

verus! {

/// The contents of the store: the rows of the two tables, in insertion
/// order.
#[verifier::ext_equal]
pub struct StoreView {
    pub peers: Seq<PeerConnection>,
    pub logs: Seq<NewTetcoreLog>,
}

/// Whether some `peer_connections` row carries the identifier `id`.
pub open spec fn has_peer(peers: Seq<PeerConnection>, id: i32) -> bool {
    exists|i: int| 0 <= i < peers.len() && (#[trigger] peers[i]).id == id
}

/// Whether some `tetcore_logs` row references the peer-connection
/// identifier `id`.
pub open spec fn peer_referenced(logs: Seq<NewTetcoreLog>, id: i32) -> bool {
    exists|i: int| 0 <= i < logs.len() && (#[trigger] logs[i]).peer_connection_id == id
}

/// Identifiers of `peer_connections` rows are pairwise distinct.
pub open spec fn unique_ids(peers: Seq<PeerConnection>) -> bool {
    forall|i: int, j: int|
        0 <= i < j < peers.len() ==> (#[trigger] peers[i]).id != (#[trigger] peers[j]).id
}

impl StoreView {
    /// Referential integrity: every log record's owning-connection
    /// identifier points at an existing peer-connection row.
    pub open spec fn refs_valid(self) -> bool {
        forall|i: int|
            0 <= i < self.logs.len() ==> has_peer(
                self.peers,
                (#[trigger] self.logs[i]).peer_connection_id,
            )
    }

    /// Well-formedness of the store contents: unique identifiers and
    /// referential integrity.
    pub open spec fn wf(self) -> bool {
        unique_ids(self.peers) && self.refs_valid()
    }
}

/// Effect of inserting one peer-connection row.
pub open spec fn insert_peer_spec(s: StoreView, row: PeerConnection) -> StoreView {
    StoreView { peers: s.peers.push(row), logs: s.logs }
}

/// The row that a full-column update keyed by `row.id` leaves in place of
/// `p`: `row` where the key matches, `p` unchanged elsewhere.
pub open spec fn updated_row(p: PeerConnection, row: PeerConnection) -> PeerConnection {
    if p.id == row.id {
        row
    } else {
        p
    }
}

/// Effect of the update operation: a full-column update of every row whose
/// identifier equals `row.id`; no row is added or removed.
pub open spec fn update_peer_spec(s: StoreView, row: PeerConnection) -> StoreView {
    StoreView {
        peers: s.peers.map_values(|p: PeerConnection| updated_row(p, row)),
        logs: s.logs,
    }
}

/// A batch may be inserted only if every record references an existing
/// peer-connection row.
pub open spec fn append_ok(s: StoreView, batch: Seq<NewTetcoreLog>) -> bool {
    forall|i: int|
        0 <= i < batch.len() ==> has_peer(s.peers, (#[trigger] batch[i]).peer_connection_id)
}

/// Effect of a successful batch insert: the records are appended in order.
pub open spec fn append_logs_spec(s: StoreView, batch: Seq<NewTetcoreLog>) -> StoreView {
    StoreView { peers: s.peers, logs: s.logs + batch }
}

/// A log record is deleted by the first purge phase when it is not an audit
/// record, is older than the cutoff, and its owning peer-connection row
/// still exists (the delete joins against `peer_connections`).
pub open spec fn log_expired(
    peers: Seq<PeerConnection>,
    cutoff: int,
    l: NewTetcoreLog,
) -> bool {
    !l.audit && l.created_at < cutoff && has_peer(peers, l.peer_connection_id)
}

/// The predicate that a log record survives the first purge phase.
pub open spec fn keep_log_pred(
    peers: Seq<PeerConnection>,
    cutoff: int,
) -> spec_fn(NewTetcoreLog) -> bool {
    |l: NewTetcoreLog| !log_expired(peers, cutoff, l)
}

/// Effect of the first purge phase: expired log records are deleted, the
/// peer-connection rows are untouched.
pub open spec fn purge_logs_spec(s: StoreView, cutoff: int) -> StoreView {
    StoreView { peers: s.peers, logs: s.logs.filter(keep_log_pred(s.peers, cutoff)) }
}

/// The predicate that a peer-connection row survives the second purge
/// phase: some log record still references it.
pub open spec fn keep_peer_pred(logs: Seq<NewTetcoreLog>) -> spec_fn(PeerConnection) -> bool {
    |p: PeerConnection| peer_referenced(logs, p.id)
}

/// Effect of the second purge phase: peer-connection rows with no
/// referencing log record are deleted, the log records are untouched.
pub open spec fn purge_orphans_spec(s: StoreView) -> StoreView {
    StoreView { peers: s.peers.filter(keep_peer_pred(s.logs)), logs: s.logs }
}

/// Effect of one whole purge cycle: the first phase strictly before the
/// second, so that the orphan test sees the store with expired log records
/// already gone.
pub open spec fn purge_spec(s: StoreView, cutoff: int) -> StoreView {
    purge_orphans_spec(purge_logs_spec(s, cutoff))
}

/// Referential integrity, instantiated at one log record.
pub proof fn lemma_ref_at(s: StoreView, i: int)
    requires
        s.refs_valid(),
        0 <= i < s.logs.len(),
    ensures
        has_peer(s.peers, s.logs[i].peer_connection_id),
{
    assert(has_peer(s.peers, (s.logs[i]).peer_connection_id));
}

/// Uniqueness of identifiers, instantiated at one unordered pair of rows.
pub proof fn lemma_unique_at(peers: Seq<PeerConnection>, a: int, b: int)
    requires
        unique_ids(peers),
        0 <= a < peers.len(),
        0 <= b < peers.len(),
        a != b,
    ensures
        peers[a].id != peers[b].id,
{
    if a < b {
        assert(peers[a].id != peers[b].id);
    } else {
        assert(peers[b].id != peers[a].id);
    }
}

/// Every element of a filtered sequence is an element of the original.
pub proof fn lemma_filter_is_subset<A>(s: Seq<A>, pred: spec_fn(A) -> bool)
    ensures
        forall|k: int|
            0 <= k < s.filter(pred).len() ==> s.contains(#[trigger] s.filter(pred)[k]),
    decreases s.len(),
{
    reveal(Seq::filter);
    if s.len() > 0 {
        let d = s.drop_last();
        lemma_filter_is_subset(d, pred);
        assert forall|k: int|
            0 <= k < s.filter(pred).len() implies s.contains(#[trigger] s.filter(pred)[k]) by {
            if k < d.filter(pred).len() {
                assert(s.filter(pred)[k] == d.filter(pred)[k]);
                assert(d.contains(d.filter(pred)[k]));
                let j = choose|j: int| 0 <= j < d.len() && d[j] == d.filter(pred)[k];
                assert(s[j] == d.filter(pred)[k]);
            } else {
                assert(s.filter(pred)[k] == s.last());
                assert(s[s.len() - 1] == s.last());
            }
        }
    }
}

/// Filtering preserves uniqueness of peer-connection identifiers.
pub proof fn lemma_filter_unique(peers: Seq<PeerConnection>, pred: spec_fn(PeerConnection) -> bool)
    requires
        unique_ids(peers),
    ensures
        unique_ids(peers.filter(pred)),
    decreases peers.len(),
{
    reveal(Seq::filter);
    if peers.len() > 0 {
        let d = peers.drop_last();
        assert forall|i: int, j: int|
            0 <= i < j < d.len() implies (#[trigger] d[i]).id != (#[trigger] d[j]).id by {
            assert(peers[i].id != peers[j].id);
        }
        lemma_filter_unique(d, pred);
        lemma_filter_is_subset(d, pred);
        let f = peers.filter(pred);
        let fd = d.filter(pred);
        assert forall|i: int, j: int|
            0 <= i < j < f.len() implies (#[trigger] f[i]).id != (#[trigger] f[j]).id by {
            if j < fd.len() {
                assert(f[i] == fd[i] && f[j] == fd[j]);
                assert(fd[i].id != fd[j].id);
            } else {
                // `f[j]` is the last element of `peers`; `f[i]` comes from
                // the front, whose identifiers all differ from the last.
                assert(f[j] == peers.last());
                assert(f[i] == fd[i]);
                assert(d.contains(fd[i]));
                let w = choose|w: int| 0 <= w < d.len() && d[w] == fd[i];
                assert(peers[w] == fd[i]);
                lemma_unique_at(peers, w, peers.len() - 1);
            }
        }
    }
}

/// The rows of the store, held in `Vec`s in insertion order, together with
/// the next identifier to assign.
pub struct Store {
    pub peers: Vec<PeerConnection>,
    pub logs: Vec<NewTetcoreLog>,
    pub next_id: i32,
}

impl View for Store {
    type V = StoreView;

    open spec fn view(&self) -> StoreView {
        StoreView { peers: self.peers@, logs: self.logs@ }
    }
}

impl Store {
    /// Well-formedness: the contents are well formed and every assigned
    /// identifier is below `next_id`, so that `next_id` is fresh.
    pub open spec fn wf(self) -> bool {
        &&& self@.wf()
        &&& forall|i: int|
            0 <= i < self.peers@.len() ==> (#[trigger] self.peers@[i]).id < self.next_id
    }

    /// An empty store.
    pub fn new() -> (s: Store)
        ensures
            s.wf(),
            s@.peers.len() == 0,
            s@.logs.len() == 0,
            s.next_id == 1,
    {
        Store { peers: Vec::new(), logs: Vec::new(), next_id: 1 }
    }

    /// Insert one peer-connection row with a freshly assigned identifier
    /// and return the inserted row.
    pub fn insert_peer(&mut self, msg: NewPeerConnection) -> (row: PeerConnection)
        requires
            old(self).wf(),
            old(self).next_id < i32::MAX,
        ensures
            final(self).wf(),
            row == assigned_row(msg, old(self).next_id),
            final(self)@ == insert_peer_spec(old(self)@, row),
            final(self).next_id == old(self).next_id + 1,
    {
        let row = PeerConnection {
            id: self.next_id,
            peer_id: msg.peer_id,
            ip_addr: msg.ip_addr,
            name: msg.name,
            chain: msg.chain,
            version: msg.version,
            authority: msg.authority,
            startup_time: msg.startup_time,
            implementation: msg.implementation,
        };
        let returned = row.clone_row();
        self.peers.push(row);
        self.next_id = self.next_id + 1;
        proof {
            let s0 = old(self)@;
            assert forall|i: int|
                0 <= i < self@.logs.len() implies has_peer(
                self@.peers,
                (#[trigger] self@.logs[i]).peer_connection_id,
            ) by {
                assert(self@.logs[i] == s0.logs[i]);
                lemma_ref_at(s0, i);
                let j = choose|j: int|
                    0 <= j < s0.peers.len() && (#[trigger] s0.peers[j]).id
                        == s0.logs[i].peer_connection_id;
                assert((self@.peers[j]).id == self@.logs[i].peer_connection_id);
            }
        }
        returned
    }

    /// Whether the table holds a row with identifier `id`.
    pub fn contains_peer(peers: &Vec<PeerConnection>, id: i32) -> (r: bool)
        ensures
            r == has_peer(peers@, id),
    {
        let mut i: usize = 0;
        while i < peers.len()
            invariant
                i <= peers.len(),
                forall|j: int| 0 <= j < i ==> (#[trigger] peers@[j]).id != id,
            decreases peers.len() - i,
        {
            if peers[i].id == id {
                return true;
            }
            i = i + 1;
        }
        false
    }

    /// Full-column update of the row keyed by `msg.id`; reports whether a
    /// row matched.  No row is added or removed either way.
    #[verifier::loop_isolation(false)]
    pub fn update_peer(&mut self, msg: PeerConnection) -> (updated: bool)
        requires
            old(self).wf(),
        ensures
            final(self).wf(),
            updated == has_peer(old(self)@.peers, msg.id),
            final(self)@ == update_peer_spec(old(self)@, msg),
            !updated ==> *final(self) == *old(self),
            final(self).next_id == old(self).next_id,
    {
        let ghost s0 = old(self)@;
        let mut i: usize = 0;
        while i < self.peers.len()
            invariant
                i <= self.peers.len(),
                *self == *old(self),
                forall|j: int| 0 <= j < i ==> (#[trigger] self.peers@[j]).id != msg.id,
            decreases self.peers.len() - i,
        {
            if self.peers[i].id == msg.id {
                self.peers.set(i, msg);
                proof {
                    assert forall|j: int|
                        0 <= j < s0.peers.len() implies #[trigger] self.peers@[j] == updated_row(
                        s0.peers[j],
                        msg,
                    ) by {
                        if j != i {
                            // identifiers are unique, so only index `i` matches
                            lemma_unique_at(s0.peers, j, i as int);
                        }
                    }
                    assert(self.peers@ =~= s0.peers.map_values(
                        |p: PeerConnection| updated_row(p, msg),
                    ));
                    assert(self@ =~= update_peer_spec(s0, msg));
                    assert forall|a: int|
                        0 <= a < self@.logs.len() implies has_peer(
                        self@.peers,
                        (#[trigger] self@.logs[a]).peer_connection_id,
                    ) by {
                        lemma_ref_at(s0, a);
                        let j = choose|j: int|
                            0 <= j < s0.peers.len() && (#[trigger] s0.peers[j]).id
                                == s0.logs[a].peer_connection_id;
                        assert((self.peers@[j]).id == self@.logs[a].peer_connection_id);
                    }
                    assert forall|a: int, b: int|
                        0 <= a < b < self.peers@.len() implies (#[trigger] self.peers@[a]).id
                        != (#[trigger] self.peers@[b]).id by {
                        lemma_unique_at(s0.peers, a, b);
                    }
                }
                return true;
            }
            i = i + 1;
        }
        proof {
            assert forall|j: int|
                0 <= j < s0.peers.len() implies updated_row(#[trigger] s0.peers[j], msg)
                == s0.peers[j] by {
                assert(s0.peers[j].id != msg.id);
            }
            assert(self@ =~= update_peer_spec(s0, msg));
        }
        false
    }

    /// Insert a batch of log records if every record references an existing
    /// peer-connection row; otherwise leave the store unchanged.  Reports
    /// whether the batch was inserted.
    #[verifier::loop_isolation(false)]
    pub fn append_logs(&mut self, batch: Vec<NewTetcoreLog>) -> (ok: bool)
        requires
            old(self).wf(),
        ensures
            final(self).wf(),
            ok == append_ok(old(self)@, batch@),
            ok ==> final(self)@ == append_logs_spec(old(self)@, batch@),
            !ok ==> *final(self) == *old(self),
            final(self).next_id == old(self).next_id,
    {
        let ghost s0 = old(self)@;
        let mut i: usize = 0;
        while i < batch.len()
            invariant
                i <= batch.len(),
                *self == *old(self),
                forall|j: int|
                    0 <= j < i ==> has_peer(s0.peers, (#[trigger] batch@[j]).peer_connection_id),
            decreases batch.len() - i,
        {
            if !Store::contains_peer(&self.peers, batch[i].peer_connection_id) {
                return false;
            }
            i = i + 1;
        }
        let mut rest = batch;
        while rest.len() > 0
            invariant
                self.peers@ == s0.peers,
                self.next_id == old(self).next_id,
                self.logs@ + rest@ == s0.logs + batch@,
                forall|j: int|
                    0 <= j < rest@.len() ==> has_peer(
                        s0.peers,
                        (#[trigger] rest@[j]).peer_connection_id,
                    ),
                forall|j: int|
                    0 <= j < self.logs@.len() ==> has_peer(
                        s0.peers,
                        (#[trigger] self.logs@[j]).peer_connection_id,
                    ),
            decreases rest.len(),
        {
            let ghost logs_before = self.logs@;
            let ghost rest_before = rest@;
            let x = rest.remove(0);
            self.logs.push(x);
            proof {
                assert(self.logs@ + rest@ =~= logs_before + rest_before);
            }
        }
        proof {
            assert(self.logs@ =~= self.logs@ + rest@);
            assert(self@ =~= append_logs_spec(s0, batch@));
            assert forall|j: int|
                0 <= j < s0.logs.len() implies has_peer(
                s0.peers,
                (#[trigger] s0.logs[j]).peer_connection_id,
            ) by {
                lemma_ref_at(s0, j);
            }
        }
        true
    }

    /// First purge phase: delete every log record that is non-audit, older
    /// than `cutoff`, and owned by a still-existing peer-connection row.
    #[verifier::loop_isolation(false)]
    pub fn purge_expired(&mut self, cutoff: i64)
        requires
            old(self).wf(),
        ensures
            final(self).wf(),
            final(self)@ == purge_logs_spec(old(self)@, cutoff as int),
            final(self).next_id == old(self).next_id,
    {
        let ghost s0 = old(self)@;
        let ghost pred = keep_log_pred(s0.peers, cutoff as int);
        let mut kept: Vec<NewTetcoreLog> = Vec::new();
        let mut i: usize = 0;
        while i < self.logs.len()
            invariant
                i <= self.logs.len(),
                *self == *old(self),
                kept@ == self.logs@.subrange(0, i as int).filter(pred),
            decreases self.logs.len() - i,
        {
            let ghost prefix = self.logs@.subrange(0, i as int);
            let l = &self.logs[i];
            let expired = !l.audit && l.created_at < cutoff && Store::contains_peer(
                &self.peers,
                l.peer_connection_id,
            );
            if !expired {
                kept.push(l.clone_record());
            }
            proof {
                let elem = self.logs@[i as int];
                assert(expired == log_expired(s0.peers, cutoff as int, elem));
                prefix.lemma_filter_push(elem, pred);
                assert(self.logs@.subrange(0, i + 1) =~= prefix.push(elem));
            }
            i = i + 1;
        }
        proof {
            assert(self.logs@.subrange(0, self.logs@.len() as int) =~= self.logs@);
        }
        self.logs = kept;
        proof {
            assert(self@ =~= purge_logs_spec(s0, cutoff as int));
            lemma_filter_is_subset(s0.logs, pred);
            assert forall|a: int|
                0 <= a < self@.logs.len() implies has_peer(
                self@.peers,
                (#[trigger] self@.logs[a]).peer_connection_id,
            ) by {
                assert(self@.logs[a] == s0.logs.filter(pred)[a]);
                assert(s0.logs.contains(s0.logs.filter(pred)[a]));
                let w = choose|w: int| 0 <= w < s0.logs.len() && s0.logs[w] == self@.logs[a];
                lemma_ref_at(s0, w);
            }
        }
    }

    /// Second purge phase: delete every peer-connection row that no log
    /// record references.
    #[verifier::loop_isolation(false)]
    pub fn purge_orphans(&mut self)
        requires
            old(self).wf(),
        ensures
            final(self).wf(),
            final(self)@ == purge_orphans_spec(old(self)@),
            final(self).next_id == old(self).next_id,
    {
        let ghost s0 = old(self)@;
        let ghost pred = keep_peer_pred(s0.logs);
        let mut kept: Vec<PeerConnection> = Vec::new();
        let mut i: usize = 0;
        while i < self.peers.len()
            invariant
                i <= self.peers.len(),
                *self == *old(self),
                kept@ == self.peers@.subrange(0, i as int).filter(pred),
            decreases self.peers.len() - i,
        {
            let ghost prefix = self.peers@.subrange(0, i as int);
            let p = &self.peers[i];
            let referenced = Store::contains_referencing_log(&self.logs, p.id);
            if referenced {
                kept.push(p.clone_row());
            }
            proof {
                let elem = self.peers@[i as int];
                assert(referenced == pred(elem));
                prefix.lemma_filter_push(elem, pred);
                assert(self.peers@.subrange(0, i + 1) =~= prefix.push(elem));
            }
            i = i + 1;
        }
        proof {
            assert(self.peers@.subrange(0, self.peers@.len() as int) =~= self.peers@);
        }
        self.peers = kept;
        proof {
            assert(self@ =~= purge_orphans_spec(s0));
            lemma_filter_unique(s0.peers, pred);
            lemma_filter_is_subset(s0.peers, pred);
            // referential integrity survives: the owner of a log record is
            // referenced by that record, hence kept by the filter
            assert forall|a: int|
                0 <= a < self@.logs.len() implies has_peer(
                self@.peers,
                (#[trigger] self@.logs[a]).peer_connection_id,
            ) by {
                lemma_ref_at(s0, a);
                let j = choose|j: int|
                    0 <= j < s0.peers.len() && (#[trigger] s0.peers[j]).id
                        == s0.logs[a].peer_connection_id;
                assert(peer_referenced(s0.logs, s0.peers[j].id));
                assert(pred(s0.peers[j]));
                assert(s0.peers.filter(pred).contains(s0.peers[j]));
                let w = choose|w: int|
                    0 <= w < self@.peers.len() && self@.peers[w] == s0.peers[j];
                assert((self@.peers[w]).id == self@.logs[a].peer_connection_id);
            }
            assert forall|a: int|
                0 <= a < self.peers@.len() implies (#[trigger] self.peers@[a]).id
                < self.next_id by {
                assert(s0.peers.contains(s0.peers.filter(pred)[a]));
                let w = choose|w: int| 0 <= w < s0.peers.len() && s0.peers[w] == self.peers@[a];
                assert(old(self).peers@[w].id < old(self).next_id);
            }
        }
    }

    /// Whether some log record references the peer-connection identifier
    /// `id`.
    pub fn contains_referencing_log(logs: &Vec<NewTetcoreLog>, id: i32) -> (r: bool)
        ensures
            r == peer_referenced(logs@, id),
    {
        let mut i: usize = 0;
        while i < logs.len()
            invariant
                i <= logs.len(),
                forall|j: int| 0 <= j < i ==> (#[trigger] logs@[j]).peer_connection_id != id,
            decreases logs.len() - i,
        {
            if logs[i].peer_connection_id == id {
                return true;
            }
            i = i + 1;
        }
        false
    }
}

} // verus!
