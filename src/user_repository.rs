//! The account store: identity records looked up by email at login.
use crate::clock::now_millis;
use crate::credential::{hash_string, password_matches};
use crate::error::ServiceError;
use crate::ids::{parse_uuid, parsed_uuid, random_uuid};
use crate::models::Account;
use vstd::prelude::*;

verus! {

/// Whether some account has this email.
pub open spec fn holds_email(rows: Seq<Account>, email: Seq<char>) -> bool {
    exists|i: int| 0 <= i < rows.len() && rows[i].email@ == email
}

/// Whether some account has this id.
pub open spec fn holds_account(rows: Seq<Account>, id: u128) -> bool {
    exists|i: int| 0 <= i < rows.len() && rows[i].id == id
}

/// The account with this email, if there is one.
pub open spec fn find_account(rows: Seq<Account>, email: Seq<char>) -> Option<Account> {
    if holds_email(rows, email) {
        Some(rows[choose|i: int| 0 <= i < rows.len() && rows[i].email@ == email])
    } else {
        None
    }
}

/// The position of the account with this id.
pub open spec fn account_index(rows: Seq<Account>, id: u128) -> int {
    choose|i: int| 0 <= i < rows.len() && rows[i].id == id
}

/// Account ids and emails are unique.
pub open spec fn accounts_wf(rows: Seq<Account>) -> bool {
    forall|i: int, j: int|
        0 <= i < rows.len() && 0 <= j < rows.len() && i != j ==> rows[i].id != rows[j].id
            && rows[i].email@ != rows[j].email@
}

impl Account {
    /// A new account with a fresh random id, created now, whose stored hash
    /// accepts `password`. A failure of the hashing capability is internal.
    pub fn new(username: String, email: String, password: &str) -> (r: Result<
        Account,
        ServiceError,
    >)
        ensures
            r is Ok ==> r->Ok_0.username == username && r->Ok_0.email == email
                && password_matches(password@, r->Ok_0.password_hash@),
            r is Err ==> r == Err::<Account, ServiceError>(ServiceError::Internal),
    {
        let password_hash = match hash_string(password) {
            Ok(h) => h,
            Err(_) => {
                return Err(ServiceError::Internal);
            },
        };
        Ok(Account { id: random_uuid(), username, email, password_hash, created_at: now_millis() })
    }
}

/// The store of accounts.
pub struct UserRepository {
    accounts: Vec<Account>,
}

impl View for UserRepository {
    type V = Seq<Account>;

    closed spec fn view(&self) -> Seq<Account> {
        self.accounts@
    }
}

impl UserRepository {
    pub open spec fn wf(&self) -> bool {
        accounts_wf(self@)
    }

    /// An empty store.
    pub fn new() -> (r: UserRepository)
        ensures
            r.wf(),
            r@ == Seq::<Account>::empty(),
    {
        UserRepository { accounts: Vec::new() }
    }

    fn email_position(&self, email: &str) -> (r: Option<usize>)
        requires
            self.wf(),
        ensures
            match r {
                Some(k) => k < self@.len() && self@[k as int].email@ == email@ && find_account(
                    self@,
                    email@,
                ) == Some(self@[k as int]),
                None => !holds_email(self@, email@) && find_account(self@, email@) is None,
            },
    {
        let wanted = email.to_owned();
        let mut i: usize = 0;
        while i < self.accounts.len()
            invariant
                self.wf(),
                wanted@ == email@,
                i <= self@.len(),
                forall|j: int| 0 <= j < i ==> self@[j].email@ != email@,
            decreases self@.len() - i,
        {
            if self.accounts[i].email == wanted {
                proof {
                    let j = choose|j: int| 0 <= j < self@.len() && self@[j].email@ == email@;
                    assert(j == i);
                }
                return Some(i);
            }
            i += 1;
        }
        None
    }

    fn id_position(&self, id: u128) -> (r: Option<usize>)
        requires
            self.wf(),
        ensures
            match r {
                Some(k) => k < self@.len() && self@[k as int].id == id && k == account_index(
                    self@,
                    id,
                ),
                None => !holds_account(self@, id),
            },
    {
        let mut i: usize = 0;
        while i < self.accounts.len()
            invariant
                self.wf(),
                i <= self@.len(),
                forall|j: int| 0 <= j < i ==> self@[j].id != id,
            decreases self@.len() - i,
        {
            if self.accounts[i].id == id {
                return Some(i);
            }
            i += 1;
        }
        None
    }

    /// The account registered under `email`, with its password hash.
    pub fn find_by_email_and_password(&self, email: &str) -> (r: Option<Account>)
        requires
            self.wf(),
        ensures
            r == find_account(self@, email@),
    {
        match self.email_position(email) {
            Some(k) => Some(self.accounts[k].duplicate()),
            None => None,
        }
    }

    /// Stores `account`. An email that is already registered is a conflict;
    /// an id that is already stored is a store failure.
    pub fn insert_account(&mut self, account: Account) -> (r: Result<(), ServiceError>)
        requires
            old(self).wf(),
        ensures
            final(self).wf(),
            holds_email(old(self)@, account.email@) ==> r == Err::<(), ServiceError>(
                ServiceError::Conflict,
            ),
            !holds_email(old(self)@, account.email@) && holds_account(old(self)@, account.id)
                ==> r == Err::<(), ServiceError>(ServiceError::Internal),
            !holds_email(old(self)@, account.email@) && !holds_account(old(self)@, account.id)
                ==> r is Ok,
            r is Ok ==> final(self)@ == old(self)@.push(account),
            r is Err ==> final(self)@ == old(self)@,
    {
        if self.email_position(account.email.as_str()).is_some() {
            return Err(ServiceError::Conflict);
        }
        if self.id_position(account.id).is_some() {
            return Err(ServiceError::Internal);
        }
        self.accounts.push(account);
        Ok(())
    }

    /// Registers a new account and returns its id. An email that is already
    /// registered is a conflict, checked before anything else; the stored hash
    /// accepts `password`.
    pub fn create_user(&mut self, username: String, email: String, password: &str) -> (r: Result<
        u128,
        ServiceError,
    >)
        requires
            old(self).wf(),
        ensures
            final(self).wf(),
            holds_email(old(self)@, email@) ==> r == Err::<u128, ServiceError>(
                ServiceError::Conflict,
            ),
            !holds_email(old(self)@, email@) ==> r is Ok || r == Err::<u128, ServiceError>(
                ServiceError::Internal,
            ),
            r is Ok ==> exists|a: Account|
                final(self)@ == old(self)@.push(a) && a.id == r->Ok_0 && a.username == username
                    && a.email == email && password_matches(password@, a.password_hash@),
            r is Err ==> final(self)@ == old(self)@,
    {
        if self.email_position(email.as_str()).is_some() {
            return Err(ServiceError::Conflict);
        }
        let account = Account::new(username, email, password)?;
        let id = account.id;
        self.insert_account(account)?;
        Ok(id)
    }

    /// Deletes the account with this id. Deleting an absent account is not an
    /// error.
    pub fn remove_account(&mut self, id: u128)
        requires
            old(self).wf(),
        ensures
            final(self).wf(),
            holds_account(old(self)@, id) ==> final(self)@ == old(self)@.remove(
                account_index(old(self)@, id),
            ),
            !holds_account(old(self)@, id) ==> final(self)@ == old(self)@,
    {
        if let Some(k) = self.id_position(id) {
            self.accounts.remove(k);
        }
    }

    /// Deletes the account whose id is the UUID text `id`. A text that is not
    /// a UUID is an invalid argument.
    pub fn delete(&mut self, id: &str) -> (r: Result<(), ServiceError>)
        requires
            old(self).wf(),
        ensures
            final(self).wf(),
            parsed_uuid(id@) is None ==> r == Err::<(), ServiceError>(
                ServiceError::InvalidArgument,
            ) && final(self)@ == old(self)@,
            parsed_uuid(id@) matches Some(u) ==> r is Ok && (if holds_account(old(self)@, u) {
                final(self)@ == old(self)@.remove(account_index(old(self)@, u))
            } else {
                final(self)@ == old(self)@
            }),
    {
        match parse_uuid(id) {
            Some(u) => {
                self.remove_account(u);
                Ok(())
            },
            None => Err(ServiceError::InvalidArgument),
        }
    }
}

} // verus!
