//! The authentication service: login, session validation and logout.
use crate::clock::{after_hours, now_millis};
use crate::credential::{password_matches, verify_hash};
use crate::error::ServiceError;
use crate::ids::{parse_uuid, parsed_uuid, random_uuid};
use crate::models::Session;
use crate::session_repository::{
    find_session, holds_session, opened, replace_row, session_valid, swept, touch_valid,
    SessionRepository, Sweep,
};
use crate::user_repository::{find_account, UserRepository};
use vstd::prelude::*;

verus! {

/// How long a session that login opens lasts, in hours.
pub const SESSION_HOURS: i64 = 24;

/// The answer to a login attempt.
pub struct LoginResponse {
    pub success: bool,
    pub session_id: Option<u128>,
    pub expires_at: Option<i64>,
    pub message: String,
}

/// The answer to a session validation.
pub struct ValidateResponse {
    pub valid: bool,
    pub user_id: Option<u128>,
    pub expires_at: Option<i64>,
    pub message: String,
}

/// The answer to a logout.
pub struct LogoutResponse {
    pub success: bool,
    pub message: String,
}

/// The uniform answer to a rejected login: whether the email is unknown or
/// the password wrong cannot be told apart.
pub open spec fn is_rejection(r: LoginResponse) -> bool {
    &&& !r.success
    &&& r.session_id is None
    &&& r.expires_at is None
    &&& r.message@ == "Invalid credentials"@
}

/// The answer to validating session `id` at `now` against `rows`.
pub open spec fn validation_outcome(
    r: ValidateResponse,
    rows: Seq<Session>,
    id: u128,
    now: i64,
) -> bool {
    if session_valid(rows, id, now) {
        &&& r.valid
        &&& r.user_id == Some(find_session(rows, id)->Some_0.user_id)
        &&& r.expires_at == Some(find_session(rows, id)->Some_0.expires_at)
        &&& r.message@ == "Session is valid"@
    } else {
        &&& !r.valid
        &&& r.user_id is None
        &&& r.expires_at is None
        &&& r.message@ == "Session is invalid or expired"@
    }
}

fn rejection() -> (r: LoginResponse)
    ensures
        is_rejection(r),
{
    LoginResponse {
        success: false,
        session_id: None,
        expires_at: None,
        message: "Invalid credentials".to_owned(),
    }
}

/// Orchestrates the credential verifier and the session store.
pub struct AuthenticationService {
    pub users: UserRepository,
    pub sessions: SessionRepository,
}

impl AuthenticationService {
    pub open spec fn wf(&self) -> bool {
        self.users.wf() && self.sessions.wf()
    }

    /// A service over the given stores.
    pub fn new(users: UserRepository, sessions: SessionRepository) -> (r: AuthenticationService)
        ensures
            r.users == users,
            r.sessions == sessions,
    {
        AuthenticationService { users, sessions }
    }

    /// Finishes a login: `user_id` is the account whose credential was
    /// accepted, or `None` when it was rejected. An accepted login opens
    /// session `session_id` at `now` for `SESSION_HOURS` hours; when the store
    /// cannot take it (the id was issued before, or the end does not fit an
    /// `i64`) the login fails as internal and nothing changes.
    pub fn complete_login(
        &mut self,
        user_id: Option<u128>,
        ip_address: Option<String>,
        user_agent: Option<String>,
        session_id: u128,
        now: i64,
    ) -> (r: Result<LoginResponse, ServiceError>)
        requires
            old(self).wf(),
        ensures
            final(self).wf(),
            final(self).users == old(self).users,
            user_id is None ==> r is Ok && is_rejection(r->Ok_0),
            user_id is Some && (old(self).sessions.issued_ids().contains(session_id) || after_hours(
                now,
                SESSION_HOURS,
            ) is None) ==> r == Err::<LoginResponse, ServiceError>(ServiceError::Internal),
            user_id is Some && !old(self).sessions.issued_ids().contains(session_id) && after_hours(
                now,
                SESSION_HOURS,
            ) is Some ==> {
                let expires_at = after_hours(now, SESSION_HOURS)->Some_0;
                &&& r is Ok
                &&& r->Ok_0.success
                &&& r->Ok_0.session_id == Some(session_id)
                &&& r->Ok_0.expires_at == Some(expires_at)
                &&& r->Ok_0.message@ == "Login successful"@
                &&& final(self).sessions@ == old(self).sessions@.push(
                    opened(session_id, user_id->Some_0, ip_address, user_agent, now, expires_at),
                )
                &&& final(self).sessions.issued_ids() == old(self).sessions.issued_ids().push(
                    session_id,
                )
            },
            !(r is Ok && r->Ok_0.success) ==> final(self).sessions@ == old(self).sessions@,
    {
        let user = match user_id {
            Some(u) => u,
            None => {
                return Ok(rejection());
            },
        };
        match self.sessions.create_session(
            session_id,
            user,
            ip_address,
            user_agent,
            SESSION_HOURS,
            now,
        ) {
            Ok(session) => Ok(
                LoginResponse {
                    success: true,
                    session_id: Some(session.session_id),
                    expires_at: Some(session.expires_at),
                    message: "Login successful".to_owned(),
                },
            ),
            Err(_) => Err(ServiceError::Internal),
        }
    }

    /// Logs in with `email` and `password`. An unknown email and a wrong
    /// password give the same rejection and change nothing. An accepted login
    /// opens a session with a fresh random id, created now and expiring
    /// `SESSION_HOURS` hours later.
    pub fn login(
        &mut self,
        email: &str,
        password: &str,
        ip_address: Option<String>,
        user_agent: Option<String>,
    ) -> (r: Result<LoginResponse, ServiceError>)
        requires
            old(self).wf(),
        ensures
            final(self).wf(),
            final(self).users == old(self).users,
            find_account(old(self).users@, email@) is None ==> r is Ok && is_rejection(r->Ok_0),
            find_account(old(self).users@, email@) matches Some(a) && !password_matches(
                password@,
                a.password_hash@,
            ) ==> r is Ok && is_rejection(r->Ok_0),
            find_account(old(self).users@, email@) matches Some(a) && password_matches(
                password@,
                a.password_hash@,
            ) ==> (r is Ok && r->Ok_0.success) || r == Err::<LoginResponse, ServiceError>(
                ServiceError::Internal,
            ),
            r is Ok && r->Ok_0.success ==> exists|s: Session|
                {
                    &&& final(self).sessions@ == old(self).sessions@.push(s)
                    &&& !old(self).sessions.issued_ids().contains(s.session_id)
                    &&& final(self).sessions.issued_ids() == old(self).sessions.issued_ids().push(
                        s.session_id,
                    )
                    &&& s.user_id == find_account(old(self).users@, email@)->Some_0.id
                    &&& s.ip_address == ip_address
                    &&& s.user_agent == user_agent
                    &&& s.last_accessed_at == s.created_at
                    &&& after_hours(s.created_at, SESSION_HOURS) == Some(s.expires_at)
                    &&& r->Ok_0.session_id == Some(s.session_id)
                    &&& r->Ok_0.expires_at == Some(s.expires_at)
                },
            !(r is Ok && r->Ok_0.success) ==> final(self).sessions@ == old(self).sessions@,
    {
        let account = self.users.find_by_email_and_password(email);
        let user_id = match account {
            Some(a) => {
                if verify_hash(password, a.password_hash.as_str()) {
                    Some(a.id)
                } else {
                    None
                }
            },
            None => None,
        };
        if user_id.is_none() {
            return Ok(rejection());
        }
        let session_id = random_uuid();
        let now = now_millis();
        let r = self.complete_login(user_id, ip_address, user_agent, session_id, now);
        proof {
            if r is Ok && r->Ok_0.success {
                let s = opened(
                    session_id,
                    user_id->Some_0,
                    ip_address,
                    user_agent,
                    now,
                    after_hours(now, SESSION_HOURS)->Some_0,
                );
                assert(self.sessions@ == old(self).sessions@.push(s));
            }
        }
        r
    }

    /// Validates session `session_id` at `now`; a valid session is marked as
    /// accessed at `now`.
    pub fn validate_at(&mut self, session_id: u128, now: i64) -> (r: ValidateResponse)
        requires
            old(self).wf(),
        ensures
            final(self).wf(),
            final(self).users == old(self).users,
            final(self).sessions@ == touch_valid(old(self).sessions@, session_id, now),
            validation_outcome(r, old(self).sessions@, session_id, now),
    {
        match self.sessions.validate_session(session_id, now) {
            Some(s) => ValidateResponse {
                valid: true,
                user_id: Some(s.user_id),
                expires_at: Some(s.expires_at),
                message: "Session is valid".to_owned(),
            },
            None => ValidateResponse {
                valid: false,
                user_id: None,
                expires_at: None,
                message: "Session is invalid or expired".to_owned(),
            },
        }
    }

    /// Validates the session whose id is the UUID text `session_id`, now. A
    /// text that is not a UUID is answered like an unknown or expired session.
    pub fn validate(&mut self, session_id: &str) -> (r: ValidateResponse)
        requires
            old(self).wf(),
        ensures
            final(self).wf(),
            final(self).users == old(self).users,
            parsed_uuid(session_id@) is None ==> final(self).sessions@ == old(self).sessions@
                && !r.valid && r.user_id is None && r.expires_at is None && r.message@
                == "Session is invalid or expired"@,
            parsed_uuid(session_id@) matches Some(id) ==> exists|now: i64|
                final(self).sessions@ == touch_valid(old(self).sessions@, id, now)
                    && validation_outcome(r, old(self).sessions@, id, now),
    {
        match parse_uuid(session_id) {
            Some(id) => {
                let now = now_millis();
                self.validate_at(id, now)
            },
            None => ValidateResponse {
                valid: false,
                user_id: None,
                expires_at: None,
                message: "Session is invalid or expired".to_owned(),
            },
        }
    }

    /// Ends the session whose id is the UUID text `session_id`. Logging out is
    /// idempotent and always reported as a success.
    pub fn logout(&mut self, session_id: &str) -> (r: LogoutResponse)
        requires
            old(self).wf(),
        ensures
            final(self).wf(),
            final(self).users == old(self).users,
            r.success,
            r.message@ == "Logged out"@,
            parsed_uuid(session_id@) is None ==> final(self).sessions@ == old(self).sessions@,
            parsed_uuid(session_id@) matches Some(id) ==> final(self).sessions@ == swept(
                old(self).sessions@,
                Sweep::Session(id),
            ),
    {
        if let Some(id) = parse_uuid(session_id) {
            self.sessions.delete_session(id);
        }
        LogoutResponse { success: true, message: "Logged out".to_owned() }
    }

    /// Renews session `session_id` at `now`: a valid session keeps its id and
    /// expires `duration_hours` hours after `now`. An absent or expired session
    /// is not found; a duration that is not positive, or an end that does not
    /// fit an `i64` or does not lie after the session's creation, is an
    /// invalid argument. No other session, and no account, changes.
    pub fn extend_lifetime_at(&mut self, session_id: u128, duration_hours: i64, now: i64) -> (r:
        Result<Session, ServiceError>)
        requires
            old(self).wf(),
        ensures
            final(self).wf(),
            final(self).users == old(self).users,
            final(self).sessions.issued_ids() == old(self).sessions.issued_ids(),
            !session_valid(old(self).sessions@, session_id, now) ==> r == Err::<
                Session,
                ServiceError,
            >(ServiceError::NotFound),
            session_valid(old(self).sessions@, session_id, now) && (duration_hours <= 0
                || after_hours(now, duration_hours) is None || after_hours(
                now,
                duration_hours,
            )->Some_0 <= find_session(old(self).sessions@, session_id)->Some_0.created_at) ==> r
                == Err::<Session, ServiceError>(ServiceError::InvalidArgument),
            session_valid(old(self).sessions@, session_id, now) && duration_hours > 0
                && after_hours(now, duration_hours) is Some && after_hours(
                now,
                duration_hours,
            )->Some_0 > find_session(old(self).sessions@, session_id)->Some_0.created_at ==> {
                &&& r is Ok
                &&& r->Ok_0 == (Session {
                    expires_at: after_hours(now, duration_hours)->Some_0,
                    ..find_session(old(self).sessions@, session_id)->Some_0
                })
                &&& r->Ok_0.session_id == session_id
                &&& final(self).sessions@ == replace_row(old(self).sessions@, r->Ok_0)
            },
            r is Err ==> final(self).sessions@ == old(self).sessions@,
    {
        self.sessions.extend_session(session_id, duration_hours, now)
    }

    /// Renews a valid session now, for `duration_hours` more hours, keeping
    /// its id (see `extend_lifetime_at`, which this calls with the clock's
    /// reading).
    pub fn extend_lifetime(&mut self, session_id: u128, duration_hours: i64) -> (r: Result<
        Session,
        ServiceError,
    >)
        requires
            old(self).wf(),
        ensures
            final(self).wf(),
            final(self).users == old(self).users,
            r is Ok ==> exists|now: i64|
                {
                    &&& session_valid(old(self).sessions@, session_id, now)
                    &&& duration_hours > 0
                    &&& after_hours(now, duration_hours) is Some
                    &&& r->Ok_0 == (Session {
                        expires_at: after_hours(now, duration_hours)->Some_0,
                        ..find_session(old(self).sessions@, session_id)->Some_0
                    })
                    &&& final(self).sessions@ == replace_row(old(self).sessions@, r->Ok_0)
                },
            !holds_session(old(self).sessions@, session_id) ==> r == Err::<Session, ServiceError>(
                ServiceError::NotFound,
            ),
            holds_session(old(self).sessions@, session_id) && duration_hours <= 0 ==> r is Err,
            r is Err ==> r == Err::<Session, ServiceError>(ServiceError::NotFound) || r == Err::<
                Session,
                ServiceError,
            >(ServiceError::InvalidArgument),
            r is Err ==> final(self).sessions@ == old(self).sessions@,
    {
        let now = now_millis();
        self.extend_lifetime_at(session_id, duration_hours, now)
    }
}

} // verus!
