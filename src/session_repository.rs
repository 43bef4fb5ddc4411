//! The session store: create, validate, extend, revoke and sweep sessions.
use crate::clock::{add_hours, after_hours};
use crate::error::ServiceError;
use crate::models::Session;
use vstd::prelude::*;

verus! {

broadcast use vstd::seq_lib::group_filter_ensures;

/// Whether some row holds session `id`.
pub open spec fn holds_session(rows: Seq<Session>, id: u128) -> bool {
    exists|i: int| 0 <= i < rows.len() && rows[i].session_id == id
}

/// The row of session `id`, if there is one.
pub open spec fn find_session(rows: Seq<Session>, id: u128) -> Option<Session> {
    if holds_session(rows, id) {
        Some(rows[choose|i: int| 0 <= i < rows.len() && rows[i].session_id == id])
    } else {
        None
    }
}

/// Session `id` is valid at `now`: its row exists and has not expired.
pub open spec fn session_valid(rows: Seq<Session>, id: u128, now: i64) -> bool {
    match find_session(rows, id) {
        Some(s) => s.live_at(now),
        None => false,
    }
}

/// The rows after session `id` was accessed at `now`, if it was valid then.
pub open spec fn touch_valid(rows: Seq<Session>, id: u128, now: i64) -> Seq<Session> {
    rows.map_values(
        |s: Session|
            if s.session_id == id && s.live_at(now) {
                s.touched(now)
            } else {
                s
            },
    )
}

/// The rows after session `id` was marked as accessed at `now`.
pub open spec fn touch_any(rows: Seq<Session>, id: u128, now: i64) -> Seq<Session> {
    rows.map_values(|s: Session| if s.session_id == id { s.touched(now) } else { s })
}

/// The rows with the row of `s.session_id` replaced by `s`.
pub open spec fn replace_row(rows: Seq<Session>, s: Session) -> Seq<Session> {
    rows.map_values(|x: Session| if x.session_id == s.session_id { s } else { x })
}

/// The rows after storing `s` as it stands: the row of its id is replaced,
/// or `s` is added.
pub open spec fn saved(rows: Seq<Session>, s: Session) -> Seq<Session> {
    if holds_session(rows, s.session_id) {
        replace_row(rows, s)
    } else {
        rows.push(s)
    }
}

/// Session ids are unique and every session ends after it starts.
pub open spec fn rows_wf(rows: Seq<Session>) -> bool {
    &&& forall|i: int, j: int|
        0 <= i < rows.len() && 0 <= j < rows.len() && i != j ==> rows[i].session_id
            != rows[j].session_id
    &&& forall|i: int| 0 <= i < rows.len() ==> rows[i].wf()
}

/// The session that a successful create stores.
pub open spec fn opened(
    session_id: u128,
    user_id: u128,
    ip_address: Option<String>,
    user_agent: Option<String>,
    now: i64,
    expires_at: i64,
) -> Session {
    Session {
        session_id,
        user_id,
        ip_address,
        user_agent,
        created_at: now,
        expires_at,
        last_accessed_at: now,
    }
}

/// Which sessions a bulk delete removes.
#[derive(Clone, Copy)]
pub enum Sweep {
    /// The session with this id.
    Session(u128),
    /// Every session of this user.
    User(u128),
    /// Every session whose expiry lies before this instant.
    ExpiredBefore(i64),
}

impl Sweep {
    /// Whether a sweep leaves `s` in place.
    pub open spec fn keeps(self, s: Session) -> bool {
        match self {
            Sweep::Session(id) => s.session_id != id,
            Sweep::User(user_id) => s.user_id != user_id,
            Sweep::ExpiredBefore(t) => !(s.expires_at < t),
        }
    }

    /// `keeps` as a predicate.
    pub open spec fn keeper(self) -> spec_fn(Session) -> bool {
        |s: Session| self.keeps(s)
    }

    fn keeps_exec(&self, s: &Session) -> (r: bool)
        ensures
            r == self.keeps(*s),
    {
        match self {
            Sweep::Session(id) => s.session_id != *id,
            Sweep::User(user_id) => s.user_id != *user_id,
            Sweep::ExpiredBefore(t) => !(s.expires_at < *t),
        }
    }
}

/// The rows that a sweep leaves, in their order.
pub open spec fn swept(rows: Seq<Session>, sweep: Sweep) -> Seq<Session> {
    rows.filter(sweep.keeper())
}

/// The store of sessions, one row per session. It also remembers every
/// session id it has ever held, so that no id is handed out twice.
pub struct SessionRepository {
    sessions: Vec<Session>,
    issued: Vec<u128>,
}

impl View for SessionRepository {
    type V = Seq<Session>;

    closed spec fn view(&self) -> Seq<Session> {
        self.sessions@
    }
}

proof fn lemma_find_at(rows: Seq<Session>, k: int)
    requires
        rows_wf(rows),
        0 <= k < rows.len(),
    ensures
        find_session(rows, rows[k].session_id) == Some(rows[k]),
{
    let id = rows[k].session_id;
    assert(holds_session(rows, id));
    let j = choose|i: int| 0 <= i < rows.len() && rows[i].session_id == id;
    assert(j == k);
}

impl SessionRepository {
    /// Every session id that the store has held, deleted sessions included.
    pub closed spec fn issued_ids(&self) -> Seq<u128> {
        self.issued@
    }

    pub open spec fn wf(&self) -> bool {
        &&& rows_wf(self@)
        &&& forall|i: int| 0 <= i < self@.len() ==> self.issued_ids().contains(#[trigger] self@[i].session_id)
    }

    /// An empty store.
    pub fn new() -> (r: SessionRepository)
        ensures
            r.wf(),
            r@ == Seq::<Session>::empty(),
            r.issued_ids() == Seq::<u128>::empty(),
    {
        SessionRepository { sessions: Vec::new(), issued: Vec::new() }
    }

    fn was_issued(&self, id: u128) -> (r: bool)
        ensures
            r == self.issued_ids().contains(id),
    {
        let mut i: usize = 0;
        while i < self.issued.len()
            invariant
                i <= self.issued@.len(),
                forall|j: int| 0 <= j < i ==> self.issued@[j] != id,
            decreases self.issued@.len() - i,
        {
            if self.issued[i] == id {
                assert(self.issued@[i as int] == id);
                return true;
            }
            i += 1;
        }
        false
    }

    /// The number of stored sessions.
    pub fn len(&self) -> (r: usize)
        ensures
            r == self@.len(),
    {
        self.sessions.len()
    }

    fn position(&self, id: u128) -> (r: Option<usize>)
        requires
            self.wf(),
        ensures
            match r {
                Some(k) => k < self@.len() && self@[k as int].session_id == id && find_session(
                    self@,
                    id,
                ) == Some(self@[k as int]),
                None => !holds_session(self@, id) && find_session(self@, id) is None,
            },
    {
        let mut i: usize = 0;
        while i < self.sessions.len()
            invariant
                self.wf(),
                i <= self.sessions@.len(),
                forall|j: int| 0 <= j < i ==> self.sessions@[j].session_id != id,
            decreases self.sessions@.len() - i,
        {
            if self.sessions[i].session_id == id {
                proof {
                    lemma_find_at(self@, i as int);
                }
                return Some(i);
            }
            i += 1;
        }
        None
    }

    /// The stored row of session `id`, expired or not.
    pub fn find(&self, id: u128) -> (r: Option<Session>)
        requires
            self.wf(),
        ensures
            r == find_session(self@, id),
    {
        match self.position(id) {
            Some(k) => Some(self.sessions[k].duplicate()),
            None => None,
        }
    }

    /// Opens a session `session_id` for `user_id` at `now`, lasting
    /// `duration_hours` hours. A duration that is not positive, or whose end
    /// does not fit an `i64`, is an invalid argument; an id that the store has
    /// held before, even in a session since deleted, is a store failure.
    pub fn create_session(
        &mut self,
        session_id: u128,
        user_id: u128,
        ip_address: Option<String>,
        user_agent: Option<String>,
        duration_hours: i64,
        now: i64,
    ) -> (r: Result<Session, ServiceError>)
        requires
            old(self).wf(),
        ensures
            final(self).wf(),
            duration_hours <= 0 || after_hours(now, duration_hours) is None ==> r == Err::<
                Session,
                ServiceError,
            >(ServiceError::InvalidArgument),
            duration_hours > 0 && after_hours(now, duration_hours) is Some
                && old(self).issued_ids().contains(session_id) ==> r == Err::<Session, ServiceError>(
                ServiceError::Internal,
            ),
            duration_hours > 0 && after_hours(now, duration_hours) is Some
                && !old(self).issued_ids().contains(session_id) ==> r == Ok::<Session, ServiceError>(
                opened(
                    session_id,
                    user_id,
                    ip_address,
                    user_agent,
                    now,
                    after_hours(now, duration_hours)->Some_0,
                ),
            ),
            r is Ok ==> final(self)@ == old(self)@.push(r->Ok_0),
            r is Ok ==> final(self).issued_ids() == old(self).issued_ids().push(session_id),
            r is Err ==> final(self)@ == old(self)@,
            r is Err ==> final(self).issued_ids() == old(self).issued_ids(),
    {
        if duration_hours <= 0 {
            return Err(ServiceError::InvalidArgument);
        }
        let expires_at = match add_hours(now, duration_hours) {
            Some(t) => t,
            None => {
                return Err(ServiceError::InvalidArgument);
            },
        };
        if self.was_issued(session_id) {
            return Err(ServiceError::Internal);
        }
        let session = Session {
            session_id,
            user_id,
            ip_address,
            user_agent,
            created_at: now,
            expires_at,
            last_accessed_at: now,
        };
        let stored = session.duplicate();
        proof {
            assert forall|i: int| 0 <= i < self@.len() implies self@[i].session_id != session_id by {
                assert(self.issued_ids().contains(self@[i].session_id));
            }
        }
        let ghost old_issued = self.issued@;
        self.sessions.push(stored);
        self.issued.push(session_id);
        proof {
            assert forall|i: int| 0 <= i < self@.len() implies self.issued_ids().contains(
                #[trigger] self@[i].session_id,
            ) by {
                if i < self@.len() - 1 {
                    assert(old_issued.contains(self@[i].session_id));
                    let j = choose|j: int| 0 <= j < old_issued.len() && old_issued[j] == self@[i].session_id;
                    assert(self.issued@[j] == self@[i].session_id);
                } else {
                    assert(self.issued@[old_issued.len() as int] == session_id);
                }
            }
        }
        Ok(session)
    }

    /// Validates session `id` at `now` in one step: when its row exists and
    /// has not expired, marks it accessed at `now` and returns it; otherwise
    /// returns `None` and changes nothing.
    pub fn validate_session(&mut self, id: u128, now: i64) -> (r: Option<Session>)
        requires
            old(self).wf(),
        ensures
            final(self).wf(),
            final(self).issued_ids() == old(self).issued_ids(),
            final(self)@ == touch_valid(old(self)@, id, now),
            r == (if session_valid(old(self)@, id, now) {
                Some(find_session(old(self)@, id)->Some_0.touched(now))
            } else {
                None
            }),
    {
        match self.position(id) {
            Some(k) => {
                if self.sessions[k].expires_at <= now {
                    proof {
                        assert(touch_valid(self@, id, now) =~= self@);
                    }
                    return None;
                }
                let mut s = self.sessions[k].duplicate();
                s.last_accessed_at = now;
                let out = s.duplicate();
                let ghost before = self@;
                self.sessions.set(k, s);
                proof {
                    assert(self@ =~= touch_valid(before, id, now));
                }
                Some(out)
            },
            None => {
                proof {
                    assert(touch_valid(self@, id, now) =~= self@);
                }
                None
            },
        }
    }

    /// Marks session `id` as accessed at `now`, whether or not it has expired.
    pub fn update_last_accessed(&mut self, id: u128, now: i64)
        requires
            old(self).wf(),
        ensures
            final(self).wf(),
            final(self).issued_ids() == old(self).issued_ids(),
            final(self)@ == touch_any(old(self)@, id, now),
    {
        match self.position(id) {
            Some(k) => {
                let mut s = self.sessions[k].duplicate();
                s.last_accessed_at = now;
                let ghost before = self@;
                self.sessions.set(k, s);
                proof {
                    assert(self@ =~= touch_any(before, id, now));
                }
            },
            None => {
                proof {
                    assert(touch_any(self@, id, now) =~= self@);
                }
            },
        }
    }

    fn retain(&mut self, sweep: Sweep) -> (removed: u64)
        requires
            old(self).wf(),
        ensures
            final(self).wf(),
            final(self).issued_ids() == old(self).issued_ids(),
            final(self)@ == swept(old(self)@, sweep),
            removed == old(self)@.len() - final(self)@.len(),
    {
        let ghost rows = self@;
        let ghost keep = sweep.keeper();
        let mut kept: Vec<Session> = Vec::new();
        let mut i: usize = 0;
        while i < self.sessions.len()
            invariant
                self@ == rows,
                keep == sweep.keeper(),
                rows_wf(rows),
                i <= rows.len(),
                kept@ == rows.take(i as int).filter(keep),
                rows_wf(kept@),
                kept@.len() <= i,
                forall|k: int|
                    0 <= k < kept@.len() ==> exists|j: int|
                        0 <= j < i && #[trigger] kept@[k] == rows[j],
            decreases rows.len() - i,
        {
            let ghost before = kept@;
            proof {
                assert(rows.take(i as int + 1) =~= rows.take(i as int).push(rows[i as int]));
                rows.take(i as int).lemma_filter_push(rows[i as int], keep);
            }
            if sweep.keeps_exec(&self.sessions[i]) {
                kept.push(self.sessions[i].duplicate());
                proof {
                    assert(keep(rows[i as int]));
                    assert(kept@ == rows.take(i as int + 1).filter(keep));
                    assert forall|k: int| 0 <= k < kept@.len() implies exists|j: int|
                        0 <= j < i + 1 && #[trigger] kept@[k] == rows[j] by {
                        if k < before.len() {
                            let j = choose|j: int| 0 <= j < i && before[k] == rows[j];
                            assert(kept@[k] == rows[j]);
                        } else {
                            assert(kept@[k] == rows[i as int]);
                        }
                    }
                    assert forall|a: int, b: int|
                        0 <= a < kept@.len() && 0 <= b < kept@.len() && a != b implies kept@[a].session_id
                        != kept@[b].session_id by {
                        if a < before.len() && b < before.len() {
                        } else if a < before.len() {
                            let j = choose|j: int| 0 <= j < i && before[a] == rows[j];
                            assert(kept@[a] == rows[j]);
                        } else if b < before.len() {
                            let j = choose|j: int| 0 <= j < i && before[b] == rows[j];
                            assert(kept@[b] == rows[j]);
                        }
                    }
                }
            } else {
                proof {
                    assert(!keep(rows[i as int]));
                    assert(kept@ == rows.take(i as int + 1).filter(keep));
                    assert forall|k: int| 0 <= k < kept@.len() implies exists|j: int|
                        0 <= j < i + 1 && #[trigger] kept@[k] == rows[j] by {
                        let j = choose|j: int| 0 <= j < i && kept@[k] == rows[j];
                        assert(kept@[k] == rows[j]);
                    }
                }
            }
            i += 1;
        }
        proof {
            assert(rows.take(rows.len() as int) =~= rows);
        }
        let removed = (self.sessions.len() - kept.len()) as u64;
        self.sessions = kept;
        removed
    }

    /// Deletes session `id`. Deleting an absent session is not an error.
    pub fn delete_session(&mut self, id: u128)
        requires
            old(self).wf(),
        ensures
            final(self).wf(),
            final(self).issued_ids() == old(self).issued_ids(),
            final(self)@ == swept(old(self)@, Sweep::Session(id)),
    {
        self.retain(Sweep::Session(id));
    }

    /// Deletes every session of `user_id` and returns how many there were.
    pub fn delete_user_sessions(&mut self, user_id: u128) -> (r: u64)
        requires
            old(self).wf(),
        ensures
            final(self).wf(),
            final(self).issued_ids() == old(self).issued_ids(),
            final(self)@ == swept(old(self)@, Sweep::User(user_id)),
            r == old(self)@.len() - final(self)@.len(),
    {
        self.retain(Sweep::User(user_id))
    }

    /// Deletes every session whose expiry lies before `now` and returns how
    /// many there were.
    pub fn cleanup_expired_sessions(&mut self, now: i64) -> (r: u64)
        requires
            old(self).wf(),
        ensures
            final(self).wf(),
            final(self).issued_ids() == old(self).issued_ids(),
            final(self)@ == swept(old(self)@, Sweep::ExpiredBefore(now)),
            r == old(self)@.len() - final(self)@.len(),
    {
        self.retain(Sweep::ExpiredBefore(now))
    }

    /// Renews session `id` at `now`: a valid session keeps its id and
    /// expires `duration_hours` hours after `now`. An absent or expired session
    /// is not found; a duration that is not positive, or an end that does not
    /// fit an `i64` or does not lie after the session's creation, is an
    /// invalid argument.
    pub fn extend_session(&mut self, id: u128, duration_hours: i64, now: i64) -> (r: Result<
        Session,
        ServiceError,
    >)
        requires
            old(self).wf(),
        ensures
            final(self).wf(),
            final(self).issued_ids() == old(self).issued_ids(),
            !session_valid(old(self)@, id, now) ==> r == Err::<Session, ServiceError>(
                ServiceError::NotFound,
            ),
            session_valid(old(self)@, id, now) && (duration_hours <= 0 || after_hours(
                now,
                duration_hours,
            ) is None || after_hours(now, duration_hours)->Some_0 <= find_session(
                old(self)@,
                id,
            )->Some_0.created_at) ==> r == Err::<Session, ServiceError>(
                ServiceError::InvalidArgument,
            ),
            session_valid(old(self)@, id, now) && duration_hours > 0 && after_hours(
                now,
                duration_hours,
            ) is Some && after_hours(now, duration_hours)->Some_0 > find_session(
                old(self)@,
                id,
            )->Some_0.created_at ==> r is Ok,
            r is Ok ==> session_valid(old(self)@, id, now) && duration_hours > 0 && after_hours(
                now,
                duration_hours,
            ) is Some && r->Ok_0 == (Session {
                expires_at: after_hours(now, duration_hours)->Some_0,
                ..find_session(old(self)@, id)->Some_0
            }) && final(self)@ == replace_row(old(self)@, r->Ok_0),
            r is Err ==> final(self)@ == old(self)@,
    {
        let k = match self.position(id) {
            Some(k) => k,
            None => {
                return Err(ServiceError::NotFound);
            },
        };
        if self.sessions[k].expires_at <= now {
            return Err(ServiceError::NotFound);
        }
        if duration_hours <= 0 {
            return Err(ServiceError::InvalidArgument);
        }
        let expires_at = match add_hours(now, duration_hours) {
            Some(t) => t,
            None => {
                return Err(ServiceError::InvalidArgument);
            },
        };
        if expires_at <= self.sessions[k].created_at {
            return Err(ServiceError::InvalidArgument);
        }
        let mut s = self.sessions[k].duplicate();
        s.expires_at = expires_at;
        let out = s.duplicate();
        let ghost before = self@;
        self.sessions.set(k, s);
        proof {
            assert(self@ =~= replace_row(before, out));
        }
        Ok(out)
    }

    /// Stores `s` as it stands: replaces the row of its id, or adds one. A
    /// session that does not end after it starts is an invalid argument.
    pub fn save_session(&mut self, s: Session) -> (r: Result<(), ServiceError>)
        requires
            old(self).wf(),
        ensures
            final(self).wf(),
            !s.wf() ==> r == Err::<(), ServiceError>(ServiceError::InvalidArgument),
            !s.wf() ==> final(self)@ == old(self)@,
            s.wf() ==> r is Ok && final(self)@ == saved(old(self)@, s),
            !s.wf() || old(self).issued_ids().contains(s.session_id) ==> final(self).issued_ids()
                == old(self).issued_ids(),
            s.wf() && !old(self).issued_ids().contains(s.session_id) ==> final(self).issued_ids()
                == old(self).issued_ids().push(s.session_id),
    {
        if s.expires_at <= s.created_at {
            return Err(ServiceError::InvalidArgument);
        }
        match self.position(s.session_id) {
            Some(k) => {
                let ghost before = self@;
                let ghost saved = s;
                self.sessions.set(k, s);
                proof {
                    assert(self@ =~= replace_row(before, saved));
                }
            },
            None => {
                let id = s.session_id;
                let ghost old_rows = self@;
                let ghost old_issued = self.issued@;
                self.sessions.push(s);
                if !self.was_issued(id) {
                    self.issued.push(id);
                }
                proof {
                    assert(self.issued_ids().contains(id)) by {
                        if old_issued.contains(id) {
                            let j = choose|j: int| 0 <= j < old_issued.len() && old_issued[j] == id;
                            assert(self.issued@[j] == id);
                        } else {
                            assert(self.issued@[old_issued.len() as int] == id);
                        }
                    }
                    assert forall|i: int| 0 <= i < self@.len() implies self.issued_ids().contains(
                        #[trigger] self@[i].session_id,
                    ) by {
                        if i < old_rows.len() {
                            assert(old_issued.contains(old_rows[i].session_id));
                            let j = choose|j: int|
                                0 <= j < old_issued.len() && old_issued[j] == old_rows[i].session_id;
                            assert(self.issued@[j] == self@[i].session_id);
                        }
                    }
                }
            },
        }
        Ok(())
    }
}

} // verus!
