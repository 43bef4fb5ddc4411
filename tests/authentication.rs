use identity_service::authentication_service::{AuthenticationService, SESSION_HOURS};
use identity_service::credential::{hash_string, verify_hash};
use identity_service::error::ServiceError;
use identity_service::models::Account;
use identity_service::session_repository::SessionRepository;
use identity_service::user_repository::UserRepository;

fn text(id: u128) -> String {
    uuid::Uuid::from_u128(id).to_string()
}

fn service_with_account(email: &str, password: &str) -> (AuthenticationService, u128) {
    let mut users = UserRepository::new();
    let id = users
        .create_user("real".to_string(), email.to_string(), password)
        .unwrap();
    (AuthenticationService::new(users, SessionRepository::new()), id)
}

#[test]
fn hash_then_verify_round_trip() {
    let hash = hash_string("s3cret").unwrap();
    assert_ne!(hash, "s3cret");
    assert!(hash.starts_with("$argon2"));
    assert!(verify_hash("s3cret", &hash));
    assert!(!verify_hash("other", &hash));
}

#[test]
fn verify_against_malformed_hash_is_false() {
    assert!(!verify_hash("s3cret", "not a phc string"));
    assert!(!verify_hash("s3cret", ""));
}

#[test]
fn account_new_hashes_the_password() {
    let a = Account::new("u".to_string(), "u@x.com".to_string(), "pw").unwrap();
    assert_eq!(a.email, "u@x.com");
    assert_ne!(a.password_hash, "pw");
    assert!(verify_hash("pw", &a.password_hash));
}

#[test]
fn create_user_with_taken_email_is_conflict() {
    let mut users = UserRepository::new();
    users.create_user("a".to_string(), "a@x.com".to_string(), "pw").unwrap();
    assert_eq!(
        users.create_user("b".to_string(), "a@x.com".to_string(), "pw").unwrap_err(),
        ServiceError::Conflict
    );
}

#[test]
fn delete_user_by_text_id() {
    let mut users = UserRepository::new();
    let id = users.create_user("a".to_string(), "a@x.com".to_string(), "pw").unwrap();
    assert_eq!(users.delete("not-a-uuid").unwrap_err(), ServiceError::InvalidArgument);
    assert!(users.find_by_email_and_password("a@x.com").is_some());
    users.delete(&text(id)).unwrap();
    assert!(users.find_by_email_and_password("a@x.com").is_none());
}

#[test]
fn login_success_opens_day_long_session() {
    let (mut service, user_id) = service_with_account("real@x.com", "right");
    let r = service.login("real@x.com", "right", Some("1.2.3.4".to_string()), None).unwrap();
    assert!(r.success);
    assert_eq!(r.message, "Login successful");
    let id = r.session_id.unwrap();
    let s = service.sessions.find(id).unwrap();
    assert_eq!(s.user_id, user_id);
    assert_eq!(s.ip_address, Some("1.2.3.4".to_string()));
    assert_eq!(s.expires_at, s.created_at + SESSION_HOURS * 3_600_000);
    assert_eq!(r.expires_at, Some(s.expires_at));
}

#[test]
fn logins_get_distinct_session_ids() {
    let (mut service, _) = service_with_account("real@x.com", "right");
    let a = service.login("real@x.com", "right", None, None).unwrap().session_id.unwrap();
    let b = service.login("real@x.com", "right", None, None).unwrap().session_id.unwrap();
    assert_ne!(a, b);
    assert_eq!(service.sessions.len(), 2);
}

#[test]
fn failed_logins_look_the_same() {
    let (mut service, _) = service_with_account("real@x.com", "right");
    let unknown = service.login("ghost@x.com", "whatever", None, None).unwrap();
    let wrong = service.login("real@x.com", "wrong", None, None).unwrap();
    assert!(!unknown.success && !wrong.success);
    assert_eq!(unknown.message, "Invalid credentials");
    assert_eq!(wrong.message, "Invalid credentials");
    assert_eq!(unknown.session_id, None);
    assert_eq!(wrong.expires_at, None);
    assert_eq!(service.sessions.len(), 0);
}

#[test]
fn complete_login_outcomes() {
    let mut service = AuthenticationService::new(UserRepository::new(), SessionRepository::new());
    let rejected = service.complete_login(None, None, None, 1, 0).unwrap();
    assert!(!rejected.success);
    assert_eq!(rejected.message, "Invalid credentials");
    let ok = service.complete_login(Some(9), None, None, 1, 1_000).unwrap();
    assert!(ok.success);
    assert_eq!(ok.session_id, Some(1));
    assert_eq!(ok.expires_at, Some(1_000 + 86_400_000));
    let clash = service.complete_login(Some(9), None, None, 1, 1_000);
    assert_eq!(clash.err(), Some(ServiceError::Internal));
    assert_eq!(service.sessions.len(), 1);
}

#[test]
fn validate_at_reports_user_and_expiry() {
    let mut service = AuthenticationService::new(UserRepository::new(), SessionRepository::new());
    service.complete_login(Some(9), None, None, 1, 1_000).unwrap();
    let v = service.validate_at(1, 2_000);
    assert!(v.valid);
    assert_eq!(v.user_id, Some(9));
    assert_eq!(v.expires_at, Some(1_000 + 86_400_000));
    assert_eq!(v.message, "Session is valid");
    let late = service.validate_at(1, 1_000 + 86_400_000);
    assert!(!late.valid);
    assert_eq!(late.user_id, None);
    assert_eq!(late.message, "Session is invalid or expired");
}

#[test]
fn validate_fresh_login_then_logout() {
    let (mut service, user_id) = service_with_account("real@x.com", "right");
    let r = service.login("real@x.com", "right", None, None).unwrap();
    let id = text(r.session_id.unwrap());
    let v = service.validate(&id);
    assert!(v.valid);
    assert_eq!(v.user_id, Some(user_id));
    let out = service.logout(&id);
    assert!(out.success);
    assert!(!service.validate(&id).valid);
    assert!(service.logout(&id).success);
}

#[test]
fn validate_malformed_id_is_generic_failure() {
    let mut service = AuthenticationService::new(UserRepository::new(), SessionRepository::new());
    let v = service.validate("definitely-not-a-uuid");
    assert!(!v.valid);
    assert_eq!(v.message, "Session is invalid or expired");
    let unknown = service.validate(&text(77));
    assert_eq!(unknown.message, v.message);
}

#[test]
fn extend_lifetime_of_unknown_session_is_not_found() {
    let mut service = AuthenticationService::new(UserRepository::new(), SessionRepository::new());
    assert_eq!(service.extend_lifetime(3, 1).unwrap_err(), ServiceError::NotFound);
}

#[test]
fn extend_lifetime_at_renews_valid_session() {
    let mut service = AuthenticationService::new(UserRepository::new(), SessionRepository::new());
    service.complete_login(Some(9), None, None, 1, 1_000).unwrap();
    let s = service.extend_lifetime_at(1, 48, 2_000).unwrap();
    assert_eq!(s.session_id, 1);
    assert_eq!(s.created_at, 1_000);
    assert_eq!(s.expires_at, 2_000 + 48 * 3_600_000);
    assert_eq!(service.sessions.find(1).unwrap().expires_at, s.expires_at);
    assert_eq!(service.sessions.len(), 1);
    assert_eq!(
        service.extend_lifetime_at(1, 0, 2_000).unwrap_err(),
        ServiceError::InvalidArgument
    );
    assert_eq!(
        service.extend_lifetime_at(1, 1, 2_000 + 48 * 3_600_000).unwrap_err(),
        ServiceError::NotFound
    );
    assert_eq!(service.extend_lifetime_at(2, 1, 2_000).unwrap_err(), ServiceError::NotFound);
}
