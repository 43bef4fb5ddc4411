//! The request guard: every protected call carries an `authorization` header
//! `Bearer <session id>`, and only a valid session lets it through.
use crate::clock::now_millis;
use crate::error::ServiceError;
use crate::ids::{parse_uuid, parsed_uuid};
use crate::models::Session;
use crate::session_repository::{find_session, session_valid, touch_valid, SessionRepository};
use vstd::prelude::*;

verus! {

/// The scheme prefix of the `authorization` header.
pub open spec fn bearer_prefix() -> Seq<char> {
    seq!['B', 'e', 'a', 'r', 'e', 'r', ' ']
}

/// Whether a header value starts with the bearer scheme prefix.
pub open spec fn has_bearer_prefix(header: Seq<char>) -> bool {
    header.len() >= 7 && header.subrange(0, 7) == bearer_prefix()
}

/// The credential of a header value: what follows the bearer prefix.
pub open spec fn credential_of(header: Seq<char>) -> Seq<char> {
    header.subrange(7, header.len() as int)
}

/// Whether `token` has the form `Bearer <credential>`.
pub fn validate_token(token: &str) -> (r: bool)
    ensures
        r == has_bearer_prefix(token@),
{
    let n = token.unicode_len();
    if n < 7 {
        return false;
    }
    let head = token.substring_char(0, 7).to_owned();
    let prefix = "Bearer ".to_owned();
    proof {
        reveal_strlit("Bearer ");
        assert(prefix@ =~= bearer_prefix());
    }
    head == prefix
}

/// The credential that a bearer header value carries, if it has the form
/// `Bearer <credential>`.
pub fn bearer_credential(header: &str) -> (r: Option<&str>)
    ensures
        has_bearer_prefix(header@) ==> r is Some && r->Some_0@ == credential_of(header@),
        !has_bearer_prefix(header@) ==> r is None,
{
    if validate_token(header) {
        let n = header.unicode_len();
        Some(header.substring_char(7, n))
    } else {
        None
    }
}

/// Whether a call with this `authorization` header passes the guard at `now`:
/// the header has the bearer form, its credential is a UUID, and that session
/// is valid.
pub open spec fn passes_guard(rows: Seq<Session>, authorization: Option<&str>, now: i64) -> bool {
    match authorization {
        Some(h) => has_bearer_prefix(h@) && match parsed_uuid(credential_of(h@)) {
            Some(id) => session_valid(rows, id, now),
            None => false,
        },
        None => false,
    }
}

/// The guard in front of every protected call.
#[derive(Clone, Copy)]
pub struct AuthInterceptor;

impl AuthInterceptor {
    /// Lets through a call whose credential parsed to `session_id` (`None` when it
    /// did not parse) at `now`: a valid session is marked as accessed and its
    /// user is returned. Every rejection is the same `Unauthenticated`.
    pub fn check_session(&self, sessions: &mut SessionRepository, session_id: Option<u128>, now: i64) -> (r:
        Result<u128, ServiceError>)
        requires
            old(sessions).wf(),
        ensures
            final(sessions).wf(),
            match session_id {
                Some(id) => final(sessions)@ == touch_valid(old(sessions)@, id, now) && if session_valid(
                    old(sessions)@,
                    id,
                    now,
                ) {
                    r == Ok::<u128, ServiceError>(find_session(old(sessions)@, id)->Some_0.user_id)
                } else {
                    r == Err::<u128, ServiceError>(ServiceError::Unauthenticated)
                },
                None => final(sessions)@ == old(sessions)@ && r == Err::<u128, ServiceError>(
                    ServiceError::Unauthenticated,
                ),
            },
    {
        match session_id {
            Some(id) => match sessions.validate_session(id, now) {
                Some(s) => Ok(s.user_id),
                None => Err(ServiceError::Unauthenticated),
            },
            None => Err(ServiceError::Unauthenticated),
        }
    }

    /// Checks a call's `authorization` header at `now`. A missing header, one
    /// without the bearer prefix, a credential that is not a UUID and a
    /// session that is unknown or expired are all rejected with the same
    /// `Unauthenticated`, and then nothing changes; a call let through yields the
    /// session's user, and the session is marked as accessed.
    pub fn call_at(&self, sessions: &mut SessionRepository, authorization: Option<&str>, now: i64) -> (r:
        Result<u128, ServiceError>)
        requires
            old(sessions).wf(),
        ensures
            final(sessions).wf(),
            authorization is None ==> r == Err::<u128, ServiceError>(ServiceError::Unauthenticated),
            r is Err ==> r == Err::<u128, ServiceError>(ServiceError::Unauthenticated) && final(sessions)@ == old(sessions)@,
            r is Ok <==> passes_guard(old(sessions)@, authorization, now),
            r is Ok ==> {
                let id = parsed_uuid(credential_of(authorization->Some_0@))->Some_0;
                &&& r->Ok_0 == find_session(old(sessions)@, id)->Some_0.user_id
                &&& final(sessions)@ == touch_valid(old(sessions)@, id, now)
            },
    {
        let header = match authorization {
            Some(h) => h,
            None => {
                return Err(ServiceError::Unauthenticated);
            },
        };
        let credential = match bearer_credential(header) {
            Some(c) => c,
            None => {
                return Err(ServiceError::Unauthenticated);
            },
        };
        let r = self.check_session(sessions, parse_uuid(credential), now);
        proof {
            if r is Err {
                if let Some(id) = parsed_uuid(credential@) {
                    assert(touch_valid(old(sessions)@, id, now) =~= old(sessions)@);
                }
            }
        }
        r
    }

    /// Checks a call's `authorization` header now (see `call_at`).
    pub fn call(&self, sessions: &mut SessionRepository, authorization: Option<&str>) -> (r: Result<
        u128,
        ServiceError,
    >)
        requires
            old(sessions).wf(),
        ensures
            final(sessions).wf(),
            authorization is None ==> r == Err::<u128, ServiceError>(ServiceError::Unauthenticated),
            r is Err ==> r == Err::<u128, ServiceError>(ServiceError::Unauthenticated) && final(sessions)@ == old(sessions)@,
            r is Ok ==> exists|now: i64| passes_guard(old(sessions)@, authorization, now),
    {
        let now = now_millis();
        self.call_at(sessions, authorization, now)
    }
}

} // verus!
