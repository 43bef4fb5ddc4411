//! The records that the core stores. Ids are UUIDs held as `u128`; instants
//! are milliseconds since the Unix epoch.
use vstd::prelude::*;

verus! {

/// A copy of an optional text.
pub fn copy_text(t: &Option<String>) -> (r: Option<String>)
    ensures
        r == *t,
{
    match t {
        Some(s) => Some(s.clone()),
        None => None,
    }
}

/// A time-bounded proof of a successful login.
#[derive(Debug, Clone)]
pub struct Session {
    pub session_id: u128,
    pub user_id: u128,
    pub ip_address: Option<String>,
    pub user_agent: Option<String>,
    pub created_at: i64,
    pub expires_at: i64,
    pub last_accessed_at: i64,
}

impl Session {
    /// The invariant of every stored session: it ends after it starts.
    pub open spec fn wf(&self) -> bool {
        self.created_at < self.expires_at
    }

    /// A session is live at `now` when `now` is before its expiry.
    pub open spec fn live_at(&self, now: i64) -> bool {
        now < self.expires_at
    }

    /// The session as it is after an access at `now`.
    pub open spec fn touched(self, now: i64) -> Session {
        Session { last_accessed_at: now, ..self }
    }

    /// Whether the session has expired at `now`.
    pub fn is_expired(&self, now: i64) -> (r: bool)
        ensures
            r == !self.live_at(now),
    {
        self.expires_at <= now
    }

    /// A field-by-field copy.
    pub fn duplicate(&self) -> (r: Session)
        ensures
            r == *self,
    {
        Session {
            session_id: self.session_id,
            user_id: self.user_id,
            ip_address: copy_text(&self.ip_address),
            user_agent: copy_text(&self.user_agent),
            created_at: self.created_at,
            expires_at: self.expires_at,
            last_accessed_at: self.last_accessed_at,
        }
    }
}

/// An identity record: who may log in, and with which password hash.
#[derive(Debug, Clone)]
pub struct Account {
    pub id: u128,
    pub username: String,
    pub email: String,
    pub password_hash: String,
    pub created_at: i64,
}

impl Account {
    /// A field-by-field copy.
    pub fn duplicate(&self) -> (r: Account)
        ensures
            r == *self,
    {
        Account {
            id: self.id,
            username: self.username.clone(),
            email: self.email.clone(),
            password_hash: self.password_hash.clone(),
            created_at: self.created_at,
        }
    }
}

/// A named bundle of permissions that can be assigned to users.
#[derive(Debug, Clone)]
pub struct Role {
    pub id: u128,
    pub name: String,
    pub description: String,
    pub created_at: i64,
    pub updated_at: i64,
}

impl Role {
    /// A field-by-field copy.
    pub fn duplicate(&self) -> (r: Role)
        ensures
            r == *self,
    {
        Role {
            id: self.id,
            name: self.name.clone(),
            description: self.description.clone(),
            created_at: self.created_at,
            updated_at: self.updated_at,
        }
    }
}

/// A named capability that roles grant.
#[derive(Debug, Clone)]
pub struct Permission {
    pub id: u128,
    pub name: String,
    pub description: String,
    pub created_at: i64,
    pub updated_at: i64,
}

impl Permission {
    /// A field-by-field copy.
    pub fn duplicate(&self) -> (r: Permission)
        ensures
            r == *self,
    {
        Permission {
            id: self.id,
            name: self.name.clone(),
            description: self.description.clone(),
            created_at: self.created_at,
            updated_at: self.updated_at,
        }
    }
}

} // verus!
