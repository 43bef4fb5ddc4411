//! Registration: a new account receives the default role.
use crate::authorization_repository::{
    after_assign_role, find_role_by_name, role_named, AuthorizationRepository,
};
use crate::credential::password_matches;
use crate::error::ServiceError;
use crate::models::Account;
use crate::user_repository::{holds_email, UserRepository};
use vstd::prelude::*;

verus! {

/// The name of the role that every new account receives.
pub open spec fn default_role_name() -> Seq<char> {
    "user"@
}

/// Registers an account and assigns it the role named `user`. A missing
/// default role is not found and an email that is taken is a conflict; both
/// are checked first, so a failure changes nothing.
pub fn register_user(
    users: &mut UserRepository,
    authorization: &mut AuthorizationRepository,
    username: String,
    email: String,
    password: &str,
) -> (r: Result<u128, ServiceError>)
    requires
        old(users).wf(),
        old(authorization).wf(),
    ensures
        final(users).wf(),
        final(authorization).wf(),
        !role_named(old(authorization)@, default_role_name()) ==> r == Err::<u128, ServiceError>(
            ServiceError::NotFound,
        ),
        role_named(old(authorization)@, default_role_name()) && holds_email(old(users)@, email@)
            ==> r == Err::<u128, ServiceError>(ServiceError::Conflict),
        role_named(old(authorization)@, default_role_name()) && !holds_email(old(users)@, email@)
            ==> r is Ok || r == Err::<u128, ServiceError>(ServiceError::Internal),
        r is Err ==> final(users)@ == old(users)@ && final(authorization)@ == old(authorization)@,
        r is Ok ==> {
            let role = find_role_by_name(old(authorization)@, default_role_name())->Some_0;
            &&& role_named(old(authorization)@, default_role_name())
            &&& exists|a: Account|
                final(users)@ == old(users)@.push(a) && a.id == r->Ok_0 && a.username == username
                    && a.email == email && password_matches(password@, a.password_hash@)
            &&& final(authorization)@ == after_assign_role(old(authorization)@, r->Ok_0, role.id)
            &&& final(authorization)@.user_roles.contains((r->Ok_0, role.id))
        },
{
    let role_name = "user";
    proof {
        assert(role_name@ == default_role_name());
    }
    let role = authorization.get_role_by_name(role_name)?;
    let id = users.create_user(username, email, password)?;
    let assigned = authorization.assign_role(id, role.id);
    proof {
        assert(authorization@.user_roles.contains((id, role.id))) by {
            if !old(authorization)@.user_roles.contains((id, role.id)) {
                let n = old(authorization)@.user_roles.len() as int;
                assert(authorization@.user_roles[n] == (id, role.id));
            }
        }
    }
    Ok(id)
}

} // verus!
