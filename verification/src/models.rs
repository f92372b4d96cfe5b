//! Row types of the two tables.
//!
//! A `PeerConnection` is one row of `peer_connections`: one observed peer
//! session and its metadata, keyed by a store-assigned identifier.  A
//! `NewPeerConnection` is the same row before the identifier is assigned.
//! A `NewTetcoreLog` is one row of `tetcore_logs`: a timestamped event tied
//! to a peer connection by `peer_connection_id`.  Timestamps are seconds.

use vstd::prelude::*;

verus! {

/// Payload of a create-peer-connection operation: every column of a
/// `peer_connections` row except the identifier, which the store assigns.
#[derive(Debug)]
pub struct NewPeerConnection {
    pub peer_id: String,
    pub ip_addr: String,
    pub name: String,
    pub chain: String,
    pub version: String,
    pub authority: bool,
    pub startup_time: i64,
    pub implementation: String,
}

/// One row of `peer_connections`.  `id` is unique within a store.
#[derive(Debug, PartialEq)]
pub struct PeerConnection {
    pub id: i32,
    pub peer_id: String,
    pub ip_addr: String,
    pub name: String,
    pub chain: String,
    pub version: String,
    pub authority: bool,
    pub startup_time: i64,
    pub implementation: String,
}

/// One row of `tetcore_logs`.  `peer_connection_id` references a
/// `peer_connections` row; `audit` exempts the record from age-based purge;
/// `created_at` is the creation timestamp in seconds.
#[derive(Debug, PartialEq)]
pub struct NewTetcoreLog {
    pub peer_connection_id: i32,
    pub created_at: i64,
    pub audit: bool,
    pub logs: String,
}

/// The row that a create operation inserts: the payload's columns with the
/// assigned identifier.
pub open spec fn assigned_row(msg: NewPeerConnection, id: i32) -> PeerConnection {
    PeerConnection {
        id: id,
        peer_id: msg.peer_id,
        ip_addr: msg.ip_addr,
        name: msg.name,
        chain: msg.chain,
        version: msg.version,
        authority: msg.authority,
        startup_time: msg.startup_time,
        implementation: msg.implementation,
    }
}

impl PeerConnection {
    /// A field-for-field copy of the row.
    pub fn clone_row(&self) -> (r: PeerConnection)
        ensures
            r == *self,
    {
        PeerConnection {
            id: self.id,
            peer_id: self.peer_id.clone(),
            ip_addr: self.ip_addr.clone(),
            name: self.name.clone(),
            chain: self.chain.clone(),
            version: self.version.clone(),
            authority: self.authority,
            startup_time: self.startup_time,
            implementation: self.implementation.clone(),
        }
    }
}

impl NewTetcoreLog {
    /// A field-for-field copy of the record.
    pub fn clone_record(&self) -> (r: NewTetcoreLog)
        ensures
            r == *self,
    {
        NewTetcoreLog {
            peer_connection_id: self.peer_connection_id,
            created_at: self.created_at,
            audit: self.audit,
            logs: self.logs.clone(),
        }
    }
}

} // verus!
