use identity_service::clock::{add_hours, split_timestamp, MILLIS_PER_HOUR};
use identity_service::error::ServiceError;
use identity_service::models::Session;
use identity_service::session_repository::SessionRepository;

const T0: i64 = 1_700_000_000_000;

fn store_with(id: u128, user: u128, hours: i64) -> SessionRepository {
    let mut store = SessionRepository::new();
    store
        .create_session(id, user, Some("10.0.0.1".to_string()), None, hours, T0)
        .unwrap();
    store
}

#[test]
fn create_session_sets_times() {
    let mut store = SessionRepository::new();
    let s = store
        .create_session(7, 42, None, Some("agent".to_string()), 24, T0)
        .unwrap();
    assert_eq!(s.session_id, 7);
    assert_eq!(s.user_id, 42);
    assert_eq!(s.created_at, T0);
    assert_eq!(s.last_accessed_at, T0);
    assert_eq!(s.expires_at, T0 + 86_400_000);
    assert_eq!(s.user_agent, Some("agent".to_string()));
    assert_eq!(store.len(), 1);
}

#[test]
fn create_session_rejects_non_positive_duration() {
    let mut store = SessionRepository::new();
    assert_eq!(
        store.create_session(1, 2, None, None, 0, T0).unwrap_err(),
        ServiceError::InvalidArgument
    );
    assert_eq!(
        store.create_session(1, 2, None, None, -3, T0).unwrap_err(),
        ServiceError::InvalidArgument
    );
    assert_eq!(store.len(), 0);
}

#[test]
fn create_session_rejects_end_past_i64() {
    let mut store = SessionRepository::new();
    assert_eq!(
        store.create_session(1, 2, None, None, 1, i64::MAX - 10).unwrap_err(),
        ServiceError::InvalidArgument
    );
}

#[test]
fn create_session_with_taken_id_is_internal() {
    let mut store = store_with(9, 1, 1);
    assert_eq!(
        store.create_session(9, 2, None, None, 1, T0).unwrap_err(),
        ServiceError::Internal
    );
    assert_eq!(store.len(), 1);
}

#[test]
fn validate_live_session_touches_it() {
    let mut store = store_with(5, 11, 24);
    let later = T0 + 1_000;
    let s = store.validate_session(5, later).expect("session should be valid");
    assert_eq!(s.user_id, 11);
    assert_eq!(s.last_accessed_at, later);
    assert_eq!(store.find(5).unwrap().last_accessed_at, later);
}

#[test]
fn validate_after_elapsed_expiry_is_invalid() {
    let mut store = store_with(5, 11, 1);
    assert!(store.validate_session(5, T0 + MILLIS_PER_HOUR + 1).is_none());
    assert_eq!(store.find(5).unwrap().last_accessed_at, T0);
}

#[test]
fn validate_at_exact_expiry_is_invalid() {
    let mut store = store_with(5, 11, 1);
    assert!(store.validate_session(5, T0 + MILLIS_PER_HOUR).is_none());
    assert!(store.validate_session(5, T0 + MILLIS_PER_HOUR - 1).is_some());
}

#[test]
fn validate_after_expiry_set_on_the_record_is_invalid() {
    let mut store = store_with(5, 11, 24);
    let mut s = store.find(5).unwrap();
    s.created_at = T0 - 10_000;
    s.expires_at = T0 - 1;
    store.save_session(s).unwrap();
    assert_eq!(store.len(), 1);
    assert!(store.validate_session(5, T0).is_none());
}

#[test]
fn save_session_rejects_end_before_start() {
    let mut store = SessionRepository::new();
    let s = Session {
        session_id: 1,
        user_id: 2,
        ip_address: None,
        user_agent: None,
        created_at: T0,
        expires_at: T0,
        last_accessed_at: T0,
    };
    assert_eq!(store.save_session(s).unwrap_err(), ServiceError::InvalidArgument);
    assert_eq!(store.len(), 0);
}

#[test]
fn validate_unknown_session_is_invalid() {
    let mut store = store_with(5, 11, 24);
    assert!(store.validate_session(6, T0).is_none());
}

#[test]
fn delete_then_validate_is_invalid() {
    let mut store = store_with(5, 11, 24);
    store.delete_session(5);
    assert!(store.validate_session(5, T0 + 1).is_none());
    store.delete_session(5);
    assert_eq!(store.len(), 0);
}

#[test]
fn reap_racing_validate_one_ms_before_expiry() {
    let expiry = T0 + MILLIS_PER_HOUR;
    let mut reaped_first = store_with(5, 11, 1);
    assert_eq!(reaped_first.cleanup_expired_sessions(expiry - 1), 0);
    assert!(reaped_first.validate_session(5, expiry - 1).is_some());

    let mut validated_first = store_with(5, 11, 1);
    assert!(validated_first.validate_session(5, expiry - 1).is_some());
    assert_eq!(validated_first.cleanup_expired_sessions(expiry), 0);
    assert_eq!(validated_first.find(5).unwrap().last_accessed_at, expiry - 1);
}

#[test]
fn cleanup_removes_only_sessions_expired_before_now() {
    let mut store = SessionRepository::new();
    store.create_session(1, 10, None, None, 1, T0).unwrap();
    store.create_session(2, 10, None, None, 2, T0).unwrap();
    store.create_session(3, 20, None, None, 3, T0).unwrap();
    assert_eq!(store.cleanup_expired_sessions(T0 + MILLIS_PER_HOUR), 0);
    assert_eq!(store.cleanup_expired_sessions(T0 + 2 * MILLIS_PER_HOUR + 1), 2);
    assert_eq!(store.len(), 1);
    assert!(store.find(3).is_some());
}

#[test]
fn delete_user_sessions_counts_removed() {
    let mut store = SessionRepository::new();
    store.create_session(1, 10, None, None, 1, T0).unwrap();
    store.create_session(2, 10, None, None, 1, T0).unwrap();
    store.create_session(3, 20, None, None, 1, T0).unwrap();
    assert_eq!(store.delete_user_sessions(10), 2);
    assert_eq!(store.delete_user_sessions(10), 0);
    assert_eq!(store.len(), 1);
    assert_eq!(store.find(3).unwrap().user_id, 20);
}

#[test]
fn update_last_accessed_even_when_expired() {
    let mut store = store_with(5, 11, 1);
    store.update_last_accessed(5, T0 + 5 * MILLIS_PER_HOUR);
    assert_eq!(store.find(5).unwrap().last_accessed_at, T0 + 5 * MILLIS_PER_HOUR);
}

#[test]
fn extend_session_keeps_id_and_moves_expiry() {
    let mut store = store_with(5, 11, 1);
    let s = store.extend_session(5, 2, T0 + 1_000).unwrap();
    assert_eq!(s.session_id, 5);
    assert_eq!(s.expires_at, T0 + 1_000 + 2 * MILLIS_PER_HOUR);
    assert_eq!(store.find(5).unwrap().expires_at, s.expires_at);
}

#[test]
fn extend_session_errors() {
    let mut store = store_with(5, 11, 1);
    assert_eq!(store.extend_session(6, 1, T0).unwrap_err(), ServiceError::NotFound);
    assert_eq!(
        store.extend_session(5, 1, T0 + MILLIS_PER_HOUR).unwrap_err(),
        ServiceError::NotFound
    );
    assert_eq!(store.extend_session(5, 0, T0).unwrap_err(), ServiceError::InvalidArgument);
    assert_eq!(store.find(5).unwrap().expires_at, T0 + MILLIS_PER_HOUR);
}

#[test]
fn session_is_expired_from_its_expiry_on() {
    let store = store_with(5, 11, 1);
    let s = store.find(5).unwrap();
    assert!(!s.is_expired(T0 + MILLIS_PER_HOUR - 1));
    assert!(s.is_expired(T0 + MILLIS_PER_HOUR));
}

#[test]
fn add_hours_values() {
    assert_eq!(add_hours(0, 24), Some(86_400_000));
    assert_eq!(add_hours(1_000, -1), Some(1_000 - 3_600_000));
    assert_eq!(add_hours(i64::MAX - 1, 1), None);
    assert_eq!(add_hours(i64::MIN, i64::MAX), None);
}

#[test]
fn split_timestamp_values() {
    assert_eq!(split_timestamp(1_700_000_000_123), (1_700_000_000, 123_000_000));
    assert_eq!(split_timestamp(0), (0, 0));
    assert_eq!(split_timestamp(-1), (-1, 999_000_000));
}

#[test]
fn reissuing_a_deleted_id_is_refused() {
    let mut store = store_with(9, 1, 1);
    store.delete_session(9);
    assert_eq!(store.len(), 0);
    assert_eq!(
        store.create_session(9, 1, None, None, 1, T0).unwrap_err(),
        ServiceError::Internal
    );
    assert_eq!(store.cleanup_expired_sessions(T0 + 2 * MILLIS_PER_HOUR), 0);
    assert!(store.create_session(10, 1, None, None, 1, T0).is_ok());
}
