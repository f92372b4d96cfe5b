//! The serialized data-access executor.
//!
//! The executor owns the connection pool and the store model and runs one
//! typed operation at a time: create a peer connection, update a peer
//! connection, append a batch of log records, purge expired log records.
//! Every operation checks one connection out of the pool, runs, and returns
//! the connection in all cases.
//!
//! Two error policies coexist: create and update feed the live ingestion
//! path and surface failures to the caller; append and purge are
//! best-effort maintenance and always report success, counting swallowed
//! failures instead, so that a transient store failure never stalls the
//! ingestion pipeline.

use vstd::prelude::*;
use crate::models::{assigned_row, NewPeerConnection, NewTetcoreLog, PeerConnection};
use crate::pool::ConnectionPool;
use crate::store::{
    append_logs_spec, append_ok, has_peer, insert_peer_spec, peer_referenced, purge_spec,
    update_peer_spec, Store,
};
use crate::laws::{lemma_audit_record_survives, lemma_purge_no_orphans, lemma_purge_removes_expired};

verus! {

/// Error of the propagating operations, naming the distinguishing field of
/// the failing payload: the IP address for a create, the identifier for an
/// update.
#[derive(Debug)]
pub enum DbError {
    CreatePeerConnection { ip_addr: String },
    UpdatePeerConnection { id: i32 },
}

/// Payload of the append operation: a batch of log records inserted as one
/// statement.
pub struct LogBatch(pub Vec<NewTetcoreLog>);

/// Payload of the purge operation: the retention window in hours.  Log
/// records older than that (and not marked audit) are deleted.
#[derive(Clone, Copy)]
pub struct PurgeLogs {
    pub hours_valid: u32,
}

/// One saturating step of the swallowed-failure count.
pub open spec fn sat_inc(c: u64) -> u64 {
    if c == u64::MAX {
        c
    } else {
        (c + 1) as u64
    }
}

/// Decision rule of the create operation: a confirmed inserted row is
/// handed to the caller; anything else (pool failure, constraint violation,
/// query failure) becomes an error naming the payload's IP address.
pub fn create_result(inserted: Option<PeerConnection>, ip_addr: String) -> (r: Result<
    PeerConnection,
    DbError,
>)
    ensures
        inserted matches Some(p) ==> r == Ok::<PeerConnection, DbError>(p),
        inserted is None ==> r == Err::<PeerConnection, DbError>(
            DbError::CreatePeerConnection { ip_addr },
        ),
{
    match inserted {
        Some(p) => Ok(p),
        None => Err(DbError::CreatePeerConnection { ip_addr }),
    }
}

/// Decision rule of the update operation: any execution that cannot be
/// confirmed successful — pool failure, query failure, or no row matching
/// the identifier — is surfaced as an error naming the identifier.
pub fn update_result(confirmed: bool, id: i32) -> (r: Result<(), DbError>)
    ensures
        confirmed ==> r == Ok::<(), DbError>(()),
        !confirmed ==> r == Err::<(), DbError>(DbError::UpdatePeerConnection { id }),
{
    if confirmed {
        Ok(())
    } else {
        Err(DbError::UpdatePeerConnection { id })
    }
}

/// The executor: the bounded pool, the store, and a count of failures that
/// the best-effort operations swallowed (the model of the error log).
pub struct DbExecutor {
    pub pool: ConnectionPool,
    pub store: Store,
    pub swallowed_failures: u64,
}

impl DbExecutor {
    /// Well-formedness: the pool respects its bound and the store its
    /// invariants.
    pub open spec fn wf(self) -> bool {
        self.pool.wf() && self.store.wf()
    }

    /// An executor over the given pool, with an empty store.
    pub fn new(pool: ConnectionPool) -> (e: DbExecutor)
        requires
            pool.wf(),
        ensures
            e.wf(),
            e.pool == pool,
            e.store@.peers.len() == 0,
            e.store@.logs.len() == 0,
            e.store.next_id == 1,
            e.swallowed_failures == 0,
    {
        DbExecutor { pool, store: Store::new(), swallowed_failures: 0 }
    }

    /// Record one failure that a best-effort operation swallowed.
    fn note_swallowed_failure(&mut self)
        ensures
            final(self).pool == old(self).pool,
            final(self).store == old(self).store,
            final(self).swallowed_failures == sat_inc(old(self).swallowed_failures),
    {
        if self.swallowed_failures < u64::MAX {
            self.swallowed_failures = self.swallowed_failures + 1;
        }
    }

    /// Insert one peer-connection row and return it with its assigned
    /// identifier.  Fails — naming the payload's IP address — when the pool
    /// cannot supply a connection, when the required IP address is empty,
    /// or when the identifier space is exhausted; on failure the store is
    /// unchanged.
    pub fn create_peer_connection(&mut self, msg: NewPeerConnection) -> (r: Result<
        PeerConnection,
        DbError,
    >)
        requires
            old(self).wf(),
        ensures
            final(self).wf(),
            final(self).pool == old(self).pool,
            final(self).swallowed_failures == old(self).swallowed_failures,
            (r is Ok) == (old(self).pool.can_acquire() && msg.ip_addr@.len() > 0 && old(self).store.next_id < i32::MAX),
            r is Ok ==> r == Ok::<PeerConnection, DbError>(
                assigned_row(msg, old(self).store.next_id),
            ) && final(self).store@ == insert_peer_spec(
                old(self).store@,
                assigned_row(msg, old(self).store.next_id),
            ) && final(self).store.next_id == old(self).store.next_id + 1,
            r is Err ==> r == Err::<PeerConnection, DbError>(
                DbError::CreatePeerConnection { ip_addr: msg.ip_addr },
            ) && final(self).store == old(self).store,
    {
        let ip = msg.ip_addr.clone();
        if !self.pool.acquire() {
            return create_result(None, ip);
        }
        if msg.ip_addr.as_str().unicode_len() == 0 || self.store.next_id == i32::MAX {
            self.pool.release();
            return create_result(None, ip);
        }
        let row = self.store.insert_peer(msg);
        self.pool.release();
        create_result(Some(row), ip)
    }

    /// Full-column update of the peer-connection row keyed by `msg.id`.
    /// Any execution that cannot be confirmed successful — pool failure or
    /// no matching row — is an error naming the identifier; on error no row
    /// has been added, removed, or changed.
    pub fn update_peer_connection(&mut self, msg: PeerConnection) -> (r: Result<(), DbError>)
        requires
            old(self).wf(),
        ensures
            final(self).wf(),
            final(self).pool == old(self).pool,
            final(self).swallowed_failures == old(self).swallowed_failures,
            final(self).store.next_id == old(self).store.next_id,
            (r is Ok) == (old(self).pool.can_acquire() && has_peer(
                old(self).store@.peers,
                msg.id,
            )),
            old(self).pool.can_acquire() ==> final(self).store@ == update_peer_spec(
                old(self).store@,
                msg,
            ),
            !old(self).pool.can_acquire() ==> final(self).store == old(self).store,
            r is Err ==> r == Err::<(), DbError>(DbError::UpdatePeerConnection { id: msg.id })
                && final(self).store@ == old(self).store@,
    {
        let id = msg.id;
        if !self.pool.acquire() {
            return update_result(false, id);
        }
        let updated = self.store.update_peer(msg);
        self.pool.release();
        update_result(updated, id)
    }

    /// Insert a batch of log records.  Best-effort: the caller always sees
    /// success; a pool failure or a failed insert (a record referencing no
    /// existing peer connection) leaves the store unchanged and is only
    /// counted.  When the batch is applied, every record references a peer
    /// connection that existed before the insert.
    pub fn append_log_batch(&mut self, msg: LogBatch) -> (r: Result<(), &'static str>)
        requires
            old(self).wf(),
        ensures
            final(self).wf(),
            final(self).pool == old(self).pool,
            final(self).store.next_id == old(self).store.next_id,
            r is Ok,
            old(self).pool.can_acquire() && append_ok(old(self).store@, msg.0@) ==> final(self).store@ == append_logs_spec(old(self).store@, msg.0@) && final(self).swallowed_failures == old(self).swallowed_failures,
            !(old(self).pool.can_acquire() && append_ok(old(self).store@, msg.0@)) ==> final(self).store == old(self).store && final(self).swallowed_failures == sat_inc(
                old(self).swallowed_failures,
            ),
            final(self).store@.logs != old(self).store@.logs ==> append_ok(
                old(self).store@,
                msg.0@,
            ),
    {
        if !self.pool.acquire() {
            self.note_swallowed_failure();
            return Ok(());
        }
        let ok = self.store.append_logs(msg.0);
        self.pool.release();
        if !ok {
            self.note_swallowed_failure();
        }
        Ok(())
    }

    /// One purge cycle with the given retention window, evaluated against
    /// the current time `now` (seconds).  Best-effort: the caller always
    /// sees success, and a pool failure in either phase is only counted.
    /// Phase order is fixed: expired non-audit log records older than
    /// `now - hours_valid` hours are deleted first, then peer-connection
    /// rows left with no referencing log record.
    pub fn purge_expired_logs(&mut self, msg: PurgeLogs, now: i64) -> (r: Result<
        (),
        &'static str,
    >)
        requires
            old(self).wf(),
            i64::MIN + 3600 * (msg.hours_valid as int) <= now,
        ensures
            final(self).wf(),
            final(self).pool == old(self).pool,
            final(self).store.next_id == old(self).store.next_id,
            r is Ok,
            old(self).pool.can_acquire() ==> final(self).store@ == purge_spec(
                old(self).store@,
                now - 3600 * (msg.hours_valid as int),
            ) && final(self).swallowed_failures == old(self).swallowed_failures,
            !old(self).pool.can_acquire() ==> final(self).store == old(self).store && final(self).swallowed_failures == sat_inc(sat_inc(old(self).swallowed_failures)),
            old(self).pool.can_acquire() ==> (forall|i: int|
                0 <= i < final(self).store@.logs.len() ==> ((#[trigger] final(self).store@.logs[i]).audit || final(self).store@.logs[i].created_at >= now - 3600 * (
                msg.hours_valid as int))),
            old(self).pool.can_acquire() ==> (forall|i: int|
                0 <= i < final(self).store@.peers.len() ==> peer_referenced(
                    final(self).store@.logs,
                    (#[trigger] final(self).store@.peers[i]).id,
                )),
            old(self).pool.can_acquire() ==> (forall|i: int|
                0 <= i < old(self).store@.logs.len() && (#[trigger] old(self).store@.logs[i]).audit ==> final(self).store@.logs.contains(
                    old(self).store@.logs[i],
                ) && has_peer(
                    final(self).store@.peers,
                    old(self).store@.logs[i].peer_connection_id,
                )),
    {
        let cutoff = now - (msg.hours_valid as i64) * 3600;
        let ghost s0 = self.store@;
        if self.pool.acquire() {
            self.store.purge_expired(cutoff);
            self.pool.release();
        } else {
            self.note_swallowed_failure();
        }
        if self.pool.acquire() {
            self.store.purge_orphans();
            self.pool.release();
            proof {
                lemma_purge_removes_expired(s0, cutoff as int);
                lemma_purge_no_orphans(s0, cutoff as int);
                assert forall|i: int|
                    0 <= i < s0.logs.len() && (#[trigger] s0.logs[i]).audit implies purge_spec(
                    s0,
                    cutoff as int,
                ).logs.contains(s0.logs[i]) && has_peer(
                    purge_spec(s0, cutoff as int).peers,
                    s0.logs[i].peer_connection_id,
                ) by {
                    lemma_audit_record_survives(s0, cutoff as int, i);
                }
            }
        } else {
            self.note_swallowed_failure();
        }
        Ok(())
    }
}

} // verus!
