use identity_service::error::ServiceError;
use identity_service::interceptor::{bearer_credential, validate_token, AuthInterceptor};
use identity_service::session_repository::SessionRepository;

const T0: i64 = 1_700_000_000_000;

fn header(id: u128) -> String {
    format!("Bearer {}", uuid::Uuid::from_u128(id))
}

fn store() -> SessionRepository {
    let mut s = SessionRepository::new();
    s.create_session(0x5e55, 42, None, None, 1, T0).unwrap();
    s
}

fn guarded(guard: &AuthInterceptor, sessions: &mut SessionRepository, h: Option<&str>, calls: &mut u32) -> Result<u128, ServiceError> {
    let user = guard.call_at(sessions, h, T0 + 1)?;
    *calls += 1;
    Ok(user)
}

#[test]
fn missing_header_is_rejected_before_handler() {
    let guard = AuthInterceptor;
    let mut sessions = store();
    let mut calls = 0;
    assert_eq!(
        guarded(&guard, &mut sessions, None, &mut calls).unwrap_err(),
        ServiceError::Unauthenticated
    );
    assert_eq!(calls, 0);
}

#[test]
fn all_rejections_look_the_same() {
    let guard = AuthInterceptor;
    let mut sessions = store();
    let mut calls = 0;
    for h in [
        "Token abc".to_string(),
        "Bearer not-a-uuid".to_string(),
        header(0xdead),
        "bearer ".to_string(),
    ] {
        assert_eq!(
            guarded(&guard, &mut sessions, Some(&h), &mut calls).unwrap_err(),
            ServiceError::Unauthenticated
        );
    }
    assert_eq!(calls, 0);
}

#[test]
fn valid_session_reaches_handler() {
    let guard = AuthInterceptor;
    let mut sessions = store();
    let mut calls = 0;
    let h = header(0x5e55);
    assert_eq!(guarded(&guard, &mut sessions, Some(&h), &mut calls).unwrap(), 42);
    assert_eq!(calls, 1);
    assert_eq!(sessions.find(0x5e55).unwrap().last_accessed_at, T0 + 1);
}

#[test]
fn expired_session_is_rejected() {
    let guard = AuthInterceptor;
    let mut sessions = store();
    let h = header(0x5e55);
    assert_eq!(
        guard.call_at(&mut sessions, Some(&h), T0 + 3_600_000).unwrap_err(),
        ServiceError::Unauthenticated
    );
}

#[test]
fn check_session_outcomes() {
    let guard = AuthInterceptor;
    let mut sessions = store();
    assert_eq!(guard.check_session(&mut sessions, None, T0).unwrap_err(), ServiceError::Unauthenticated);
    assert_eq!(guard.check_session(&mut sessions, Some(0x5e55), T0).unwrap(), 42);
}

#[test]
fn call_with_real_clock_rejects_missing_header() {
    let guard = AuthInterceptor;
    let mut sessions = store();
    assert_eq!(guard.call(&mut sessions, None).unwrap_err(), ServiceError::Unauthenticated);
}

#[test]
fn bearer_prefix_checks() {
    assert!(validate_token("Bearer abc"));
    assert!(validate_token("Bearer "));
    assert!(!validate_token("Bearer"));
    assert!(!validate_token("bearer abc"));
    assert!(!validate_token(""));
    assert_eq!(bearer_credential("Bearer abc"), Some("abc"));
    assert_eq!(bearer_credential("Basic abc"), None);
}
