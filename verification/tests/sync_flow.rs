use orbit_sync::items::ItemsDB;
use orbit_sync::sync_models::{PendingSyncData, SyncAuthRequest, SyncDataPayload};
use orbit_sync::validator::SyncValidator;
use orbit_sync::wallet::WalletDB;
use sha2::Digest;
use orbit_sync::sync_state::{AuthError, SyncServerState};
use orbit_sync::server::{handle_auth, handle_data, handle_status};

fn started_state(pin: &str, now: u64) -> SyncServerState {
    let mut state = SyncServerState::new(8080);
    state.start(pin.to_string(), now);
    state
}

#[test]
fn generate_pin_is_six_digit_number_in_range() {
    for _ in 0..50 {
        let pin = SyncServerState::generate_pin();
        assert_eq!(pin.len(), 6);
        assert!(pin.chars().all(|c| c.is_ascii_digit()));
        let n: u64 = pin.parse().unwrap();
        assert!((100000..=999999).contains(&n));
    }
}

#[test]
fn generate_token_is_64_hex_chars() {
    let token = SyncServerState::generate_token("123456");
    assert_eq!(token.len(), 64);
    assert!(token.chars().all(|c| c.is_ascii_hexdigit() && !c.is_ascii_uppercase()));
}

#[test]
fn token_from_parts_is_deterministic_and_matches_digest() {
    let a = SyncServerState::token_from_parts("123456", 1700000000000, "uid-1");
    let b = SyncServerState::token_from_parts("123456", 1700000000000, "uid-1");
    assert_eq!(a, b);
    let c = SyncServerState::token_from_parts("123456", 1700000000001, "uid-1");
    assert_ne!(a, c);

    // The token must really be the hex SHA-256 of "pin-millis-uid".
    let digest = sha2::Sha256::digest("123456-1700000000000-uid-1".as_bytes());
    let expected: String = digest.iter().map(|b| format!("{:02x}", b)).collect();
    assert_eq!(a, expected);
}

#[test]
fn authenticate_unknown_pin_is_invalid() {
    let mut state = started_state("123456", 1_000);
    let r = state.authenticate("654321", "phone", 2_000, "tok".to_string());
    assert_eq!(r, Err(AuthError::InvalidPin));
}

#[test]
fn authenticate_expired_pin_deactivates_session() {
    let mut state = started_state("123456", 1_000);
    // The PIN window is ten minutes; one millisecond past it must expire.
    let r = state.authenticate("123456", "phone", 1_000 + 600_000 + 1, "tok".to_string());
    assert_eq!(r, Err(AuthError::ExpiredPin));
    assert!(!state.sessions[0].is_active);
    // A later attempt finds no active session at all.
    let r2 = state.authenticate("123456", "phone", 1_000 + 600_000 + 2, "tok2".to_string());
    assert_eq!(r2, Err(AuthError::InvalidPin));
}

#[test]
fn reauthentication_returns_identical_token() {
    let mut state = started_state("123456", 1_000);
    let (t1, _) = state
        .authenticate("123456", "phone", 2_000, "first-token".to_string())
        .unwrap();
    assert_eq!(t1, "first-token");
    let (t2, _) = state
        .authenticate("123456", "tablet", 3_000, "second-token".to_string())
        .unwrap();
    assert_eq!(t1, t2);
    // The device name stays bound to the first authentication.
    assert_eq!(state.sessions[0].device_name.as_deref(), Some("phone"));
}

#[test]
fn authenticate_reports_seconds_left() {
    let mut state = started_state("123456", 0);
    let (_, expires_in) = state
        .authenticate("123456", "phone", 60_000, "tok".to_string())
        .unwrap();
    assert_eq!(expires_in, (600_000 - 60_000) / 1000);
}

#[test]
fn validate_token_none_for_unknown_inactive_and_expired() {
    let mut state = started_state("123456", 1_000);
    let (token, _) = state
        .authenticate("123456", "phone", 2_000, "tok".to_string())
        .unwrap();

    // A valid token names its session.
    let hit = state.validate_token_at(&token, 3_000);
    assert!(hit.is_some());
    assert_eq!(hit.unwrap().pin, "123456");

    // Unknown token.
    assert!(state.validate_token_at("no-such-token", 3_000).is_none());

    // Expired session's token.
    assert!(state.validate_token_at(&token, 1_000 + 600_000).is_none());

    // Inactive session's token: expire the session through authentication.
    let _ = state.authenticate("123456", "phone", 1_000 + 600_000 + 1, "t2".to_string());
    assert!(!state.sessions[0].is_active);
    assert!(state.validate_token_at(&token, 3_000).is_none());
}

#[test]
fn stop_then_start_invalidates_every_old_token() {
    let mut state = started_state("123456", 1_000);
    let (old_token, _) = state
        .authenticate("123456", "phone", 2_000, "tok".to_string())
        .unwrap();
    state.stop();
    assert!(state.sessions.is_empty());
    assert!(state.pending_data.is_empty());
    assert!(!state.server_running);

    state.start("777777".to_string(), 5_000);
    assert_eq!(state.sessions.len(), 1);
    assert_eq!(state.sessions[0].pin, "777777");
    assert!(state.sessions[0].token.is_none());
    // No stale token is valid against the new run.
    assert!(state.validate_token_at(&old_token, 5_500).is_none());
    // The old PIN is gone too.
    let r = state.authenticate("123456", "phone", 5_500, "t3".to_string());
    assert_eq!(r, Err(AuthError::InvalidPin));
}

#[test]
fn shutdown_is_idempotent() {
    let mut state = started_state("123456", 1_000);
    state.shutdown_auto();
    let sessions_after_first = state.sessions.len();
    let running_after_first = state.server_running;
    state.shutdown_auto();
    assert_eq!(state.sessions.len(), sessions_after_first);
    assert_eq!(state.server_running, running_after_first);
    state.stop();
    state.stop();
    assert!(state.sessions.is_empty());
    assert!(state.started_at.is_none());
}

#[test]
fn remaining_time_counts_down_and_floors_at_zero() {
    let state = started_state("123456", 1_000);
    assert_eq!(state.get_remaining_time_at(1_000), Some(900_000));
    assert_eq!(state.get_remaining_time_at(301_000), Some(600_000));
    assert_eq!(state.get_remaining_time_at(1_000 + 900_000 + 5), Some(0));
    let stopped = SyncServerState::new(8080);
    assert_eq!(stopped.get_remaining_time_at(42), None);
}

#[test]
fn handle_auth_maps_outcomes_to_responses() {
    let mut state = started_state("123456", 1_000);
    let bad = handle_auth(
        &mut state,
        &SyncAuthRequest { pin: "000000".to_string(), device_name: "phone".to_string() },
        2_000,
        "tok".to_string(),
    );
    assert!(!bad.success);
    assert_eq!(bad.message, "Invalid PIN");
    assert!(bad.token.is_none());

    let good = handle_auth(
        &mut state,
        &SyncAuthRequest { pin: "123456".to_string(), device_name: "phone".to_string() },
        2_000,
        "tok".to_string(),
    );
    assert!(good.success);
    assert_eq!(good.token.as_deref(), Some("tok"));
    assert_eq!(good.message, "Authentication successful");

    let expired = handle_auth(
        &mut state,
        &SyncAuthRequest { pin: "123456".to_string(), device_name: "phone".to_string() },
        1_000 + 600_000 + 1,
        "t2".to_string(),
    );
    assert!(!expired.success);
    assert_eq!(expired.message, "PIN expired");
}

#[test]
fn handle_data_rejects_before_anything_else() {
    let mut state = started_state("123456", 1_000);
    let detector = SyncValidator::new(WalletDB::empty(), ItemsDB::empty());
    let payload = SyncDataPayload {
        transactions: Vec::new(),
        device_name: "phone".to_string(),
        timestamp: 2_000,
    };

    // Missing token: unauthorized, nothing stored.
    let r = handle_data(&mut state, &detector, None, payload, 2_000, "batch-1".to_string());
    assert!(r.is_err());
    assert!(state.pending_data.is_empty());

    // Invalid token: unauthorized, nothing stored.
    let payload2 = SyncDataPayload {
        transactions: Vec::new(),
        device_name: "phone".to_string(),
        timestamp: 2_000,
    };
    let r2 = handle_data(
        &mut state,
        &detector,
        Some("bogus"),
        payload2,
        2_000,
        "batch-2".to_string(),
    );
    assert!(r2.is_err());
    assert!(state.pending_data.is_empty());

    // A real token gets the batch queued and a successful response back.
    let (token, _) = state
        .authenticate("123456", "phone", 2_000, "tok".to_string())
        .unwrap();
    let payload3 = SyncDataPayload {
        transactions: Vec::new(),
        device_name: "phone".to_string(),
        timestamp: 2_000,
    };
    let resp = handle_data(
        &mut state,
        &detector,
        Some(&token),
        payload3,
        2_500,
        "batch-3".to_string(),
    )
    .unwrap();
    assert!(resp.success);
    assert!(resp.pending_approval);
    assert!(resp.conflicts.is_empty());
    assert_eq!(resp.message, "Data received, pending user approval");
    assert_eq!(state.pending_data.len(), 1);
    assert_eq!(state.pending_data[0].id, "batch-3");
    assert_eq!(state.pending_data[0].received_at, 2_500);

    let (running, sessions, pending) = handle_status(&state);
    assert!(running);
    assert_eq!(sessions, 1);
    assert_eq!(pending, 1);
}

#[test]
fn list_and_take_pending() {
    let mut state = started_state("123456", 1_000);
    let (token, _) = state
        .authenticate("123456", "phone", 2_000, "tok".to_string())
        .unwrap();
    let detector = SyncValidator::new(WalletDB::empty(), ItemsDB::empty());
    let payload = SyncDataPayload {
        transactions: Vec::new(),
        device_name: "phone".to_string(),
        timestamp: 2_000,
    };
    handle_data(&mut state, &detector, Some(&token), payload, 2_500, "b1".to_string()).unwrap();

    let listed = state.list_pending();
    assert_eq!(listed.len(), 1);
    assert_eq!(listed[0].id, "b1");

    assert!(state.take_pending("nope").is_err());
    let taken = state.take_pending("b1").unwrap();
    assert_eq!(taken.id, "b1");
    assert!(state.pending_data.is_empty());
}

#[test]
fn enqueue_replaces_a_batch_stored_under_the_same_id() {
    let mut state = started_state("123456", 1_000);
    let batch = |received_at: u64| PendingSyncData {
        id: "b1".to_string(),
        payload: SyncDataPayload {
            transactions: Vec::new(),
            device_name: "phone".to_string(),
            timestamp: received_at,
        },
        conflicts: Vec::new(),
        received_at,
        device_name: "phone".to_string(),
    };
    state.enqueue_pending(batch(1));
    state.enqueue_pending(batch(2));
    assert_eq!(state.pending_data.len(), 1);
    assert_eq!(state.pending_data[0].received_at, 2);
}
