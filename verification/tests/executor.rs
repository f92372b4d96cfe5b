use telemetry_db::executor::{create_result, update_result, DbError, DbExecutor, LogBatch, PurgeLogs};
use telemetry_db::models::{NewPeerConnection, NewTetcoreLog, PeerConnection};
use telemetry_db::pool::create_pool;

const NOW: i64 = 1_700_000_000;

fn new_peer(ip: &str) -> NewPeerConnection {
    NewPeerConnection {
        peer_id: "peer".to_string(),
        ip_addr: ip.to_string(),
        name: "alice".to_string(),
        chain: "main".to_string(),
        version: "1.0".to_string(),
        authority: false,
        startup_time: NOW - 100,
        implementation: "ref".to_string(),
    }
}

fn log_for(id: i32, age_hours: i64, audit: bool) -> NewTetcoreLog {
    NewTetcoreLog {
        peer_connection_id: id,
        created_at: NOW - age_hours * 3600,
        audit,
        logs: "event".to_string(),
    }
}

fn executor_with_capacity(capacity: u32) -> DbExecutor {
    DbExecutor::new(create_pool(capacity))
}

fn carol_payload() -> PeerConnection {
    PeerConnection {
        id: 2,
        peer_id: "peer".to_string(),
        ip_addr: "10.9.9.9".to_string(),
        name: "carol".to_string(),
        chain: "side".to_string(),
        version: "3.0".to_string(),
        authority: true,
        startup_time: 11,
        implementation: "other".to_string(),
    }
}

#[test]
fn scenario_a_expired_logs_and_owner_are_purged() {
    let mut e = executor_with_capacity(4);
    let row = e.create_peer_connection(new_peer("10.0.0.1")).unwrap();
    assert_eq!(row.id, 1);
    assert_eq!(row.ip_addr, "10.0.0.1");

    let batch = vec![
        log_for(row.id, 48, false),
        log_for(row.id, 48, false),
        log_for(row.id, 48, false),
    ];
    assert!(e.append_log_batch(LogBatch(batch)).is_ok());
    assert_eq!(e.store.logs.len(), 3);

    assert!(e.purge_expired_logs(PurgeLogs { hours_valid: 24 }, NOW).is_ok());
    assert_eq!(e.store.logs.len(), 0);
    assert_eq!(e.store.peers.len(), 0);
}

#[test]
fn scenario_b_audit_record_and_owner_survive() {
    let mut e = executor_with_capacity(4);
    let row = e.create_peer_connection(new_peer("10.0.0.1")).unwrap();

    let batch = vec![
        log_for(row.id, 48, false),
        log_for(row.id, 48, true),
        log_for(row.id, 48, false),
    ];
    assert!(e.append_log_batch(LogBatch(batch)).is_ok());

    assert!(e.purge_expired_logs(PurgeLogs { hours_valid: 24 }, NOW).is_ok());
    assert_eq!(e.store.logs.len(), 1);
    assert!(e.store.logs[0].audit);
    assert_eq!(e.store.peers.len(), 1);
    assert_eq!(e.store.peers[0].id, row.id);
}

#[test]
fn scenario_c_update_of_unknown_identifier_changes_nothing() {
    let mut e = executor_with_capacity(4);
    let row = e.create_peer_connection(new_peer("10.0.0.1")).unwrap();

    let mut payload = row;
    payload.id = 99;
    payload.name = "mallory".to_string();
    let err = e.update_peer_connection(payload).unwrap_err();
    match err {
        DbError::UpdatePeerConnection { id } => assert_eq!(id, 99),
        other => panic!("unexpected error: {:?}", other),
    }
    assert_eq!(e.store.peers.len(), 1);
    assert_eq!(e.store.peers[0].name, "alice");
}

#[test]
fn scenario_d_append_failure_still_reports_success() {
    // a pool that can supply no connection stands in for a connection failure
    let mut e = executor_with_capacity(0);
    let batch = vec![log_for(1, 1, false)];
    let r = e.append_log_batch(LogBatch(batch));
    assert!(r.is_ok());
    assert_eq!(e.store.logs.len(), 0);
    // the failure is observable only through the telemetry count
    assert_eq!(e.swallowed_failures, 1);
}

#[test]
fn append_rejecting_unknown_owner_reports_success() {
    let mut e = executor_with_capacity(4);
    e.create_peer_connection(new_peer("10.0.0.1")).unwrap();
    let batch = vec![log_for(1, 1, false), log_for(42, 1, false)];
    let r = e.append_log_batch(LogBatch(batch));
    assert!(r.is_ok());
    // the whole batch is one statement: nothing of it was inserted
    assert_eq!(e.store.logs.len(), 0);
    assert_eq!(e.swallowed_failures, 1);
}

#[test]
fn create_assigns_increasing_identifiers() {
    let mut e = executor_with_capacity(4);
    let a = e.create_peer_connection(new_peer("10.0.0.1")).unwrap();
    let b = e.create_peer_connection(new_peer("10.0.0.2")).unwrap();
    assert_eq!(a.id, 1);
    assert_eq!(b.id, 2);
    assert_eq!(e.store.peers.len(), 2);
}

#[test]
fn create_with_empty_ip_fails_naming_the_ip() {
    let mut e = executor_with_capacity(4);
    let err = e.create_peer_connection(new_peer("")).unwrap_err();
    match err {
        DbError::CreatePeerConnection { ip_addr } => assert_eq!(ip_addr, ""),
        other => panic!("unexpected error: {:?}", other),
    }
    assert_eq!(e.store.peers.len(), 0);
}

#[test]
fn create_on_exhausted_pool_fails_naming_the_ip() {
    let mut e = executor_with_capacity(0);
    let err = e.create_peer_connection(new_peer("10.0.0.7")).unwrap_err();
    match err {
        DbError::CreatePeerConnection { ip_addr } => assert_eq!(ip_addr, "10.0.0.7"),
        other => panic!("unexpected error: {:?}", other),
    }
}

#[test]
fn update_on_exhausted_pool_fails_naming_the_identifier() {
    let mut e = executor_with_capacity(0);
    let payload = PeerConnection {
        id: 7,
        peer_id: "peer".to_string(),
        ip_addr: "10.0.0.1".to_string(),
        name: "alice".to_string(),
        chain: "main".to_string(),
        version: "1.0".to_string(),
        authority: false,
        startup_time: 0,
        implementation: "ref".to_string(),
    };
    let err = e.update_peer_connection(payload).unwrap_err();
    match err {
        DbError::UpdatePeerConnection { id } => assert_eq!(id, 7),
        other => panic!("unexpected error: {:?}", other),
    }
}

#[test]
fn update_rewrites_every_column_of_the_matching_row() {
    let mut e = executor_with_capacity(4);
    let row = e.create_peer_connection(new_peer("10.0.0.1")).unwrap();

    let mut payload = row;
    payload.name = "bob".to_string();
    payload.version = "2.0".to_string();
    payload.authority = true;
    assert!(e.update_peer_connection(payload).is_ok());

    assert_eq!(e.store.peers.len(), 1);
    assert_eq!(e.store.peers[0].name, "bob");
    assert_eq!(e.store.peers[0].version, "2.0");
    assert!(e.store.peers[0].authority);
    assert_eq!(e.store.peers[0].ip_addr, "10.0.0.1");
}

#[test]
fn applying_the_same_update_twice_equals_applying_it_once() {
    let mut once = executor_with_capacity(4);
    let mut twice = executor_with_capacity(4);
    for e in [&mut once, &mut twice] {
        e.create_peer_connection(new_peer("10.0.0.1")).unwrap();
        e.create_peer_connection(new_peer("10.0.0.2")).unwrap();
    }
    assert!(once.update_peer_connection(carol_payload()).is_ok());
    assert!(twice.update_peer_connection(carol_payload()).is_ok());
    assert!(twice.update_peer_connection(carol_payload()).is_ok());
    assert_eq!(once.store.peers, twice.store.peers);
    assert_eq!(once.store.logs, twice.store.logs);
}

#[test]
fn pool_bound_is_never_exceeded() {
    let mut pool = create_pool(2);
    assert!(pool.acquire());
    assert!(pool.acquire());
    assert!(!pool.acquire());
    assert_eq!(pool.checked_out, 2);
    assert_eq!(pool.capacity, 2);
    pool.release();
    assert_eq!(pool.checked_out, 1);
    assert!(pool.acquire());
    assert!(!pool.acquire());
}

#[test]
fn operations_return_their_connection_to_the_pool() {
    let mut e = executor_with_capacity(1);
    let row = e.create_peer_connection(new_peer("10.0.0.1")).unwrap();
    assert_eq!(e.pool.checked_out, 0);
    assert!(e.update_peer_connection(row).is_ok());
    assert_eq!(e.pool.checked_out, 0);
    assert!(e.append_log_batch(LogBatch(vec![log_for(1, 1, false)])).is_ok());
    assert_eq!(e.pool.checked_out, 0);
    assert!(e.purge_expired_logs(PurgeLogs { hours_valid: 24 }, NOW).is_ok());
    assert_eq!(e.pool.checked_out, 0);
}

#[test]
fn purge_keeps_recent_logs_and_their_owner() {
    let mut e = executor_with_capacity(4);
    let row = e.create_peer_connection(new_peer("10.0.0.1")).unwrap();
    let batch = vec![log_for(row.id, 1, false), log_for(row.id, 2, false)];
    assert!(e.append_log_batch(LogBatch(batch)).is_ok());
    assert!(e.purge_expired_logs(PurgeLogs { hours_valid: 24 }, NOW).is_ok());
    assert_eq!(e.store.logs.len(), 2);
    assert_eq!(e.store.peers.len(), 1);
}

#[test]
fn purge_reclaims_a_peer_with_no_logs_at_all() {
    let mut e = executor_with_capacity(4);
    e.create_peer_connection(new_peer("10.0.0.1")).unwrap();
    assert!(e.purge_expired_logs(PurgeLogs { hours_valid: 24 }, NOW).is_ok());
    assert_eq!(e.store.peers.len(), 0);
}

#[test]
fn purge_on_exhausted_pool_reports_success_and_counts_both_phases() {
    let mut e = executor_with_capacity(0);
    let r = e.purge_expired_logs(PurgeLogs { hours_valid: 24 }, NOW);
    assert!(r.is_ok());
    assert_eq!(e.swallowed_failures, 2);
}

#[test]
fn create_result_maps_a_confirmed_row_and_a_failure() {
    let row = PeerConnection {
        id: 3,
        peer_id: "peer".to_string(),
        ip_addr: "10.0.0.3".to_string(),
        name: "alice".to_string(),
        chain: "main".to_string(),
        version: "1.0".to_string(),
        authority: false,
        startup_time: 0,
        implementation: "ref".to_string(),
    };
    let ok = create_result(Some(row), "10.0.0.3".to_string()).unwrap();
    assert_eq!(ok.id, 3);
    let err = create_result(None, "10.0.0.3".to_string()).unwrap_err();
    match err {
        DbError::CreatePeerConnection { ip_addr } => assert_eq!(ip_addr, "10.0.0.3"),
        other => panic!("unexpected error: {:?}", other),
    }
}

#[test]
fn update_result_maps_confirmation_and_failure() {
    assert!(update_result(true, 5).is_ok());
    let err = update_result(false, 5).unwrap_err();
    match err {
        DbError::UpdatePeerConnection { id } => assert_eq!(id, 5),
        other => panic!("unexpected error: {:?}", other),
    }
}

#[test]
fn purge_reclaims_only_peers_left_without_logs() {
    let mut e = executor_with_capacity(4);
    let a = e.create_peer_connection(new_peer("10.0.0.1")).unwrap();
    let b = e.create_peer_connection(new_peer("10.0.0.2")).unwrap();
    let batch = vec![log_for(a.id, 48, false), log_for(b.id, 1, false)];
    assert!(e.append_log_batch(LogBatch(batch)).is_ok());

    assert!(e.purge_expired_logs(PurgeLogs { hours_valid: 24 }, NOW).is_ok());
    assert_eq!(e.store.logs.len(), 1);
    assert_eq!(e.store.logs[0].peer_connection_id, b.id);
    assert_eq!(e.store.peers.len(), 1);
    assert_eq!(e.store.peers[0].id, b.id);
}
