//! The authorization engine as callers reach it: ids arrive as UUID texts,
//! and a text that is not a UUID is an invalid argument with no effect.
use crate::authorization_repository::{
    after_assign_role, after_revoke_role, assigned_to, effective_permissions,
    find_permission_by_name, permission_exists, permission_named, role_exists, role_index,
    role_named, second_not, first_not, linked_to, texts, without_edge, AuthorizationRepository,
    RbacState,
};
use crate::clock::now_millis;
use crate::interceptor::{credential_of, passes_guard, AuthInterceptor};
use crate::session_repository::{find_session, SessionRepository};
use crate::error::ServiceError;
use crate::ids::{parse_uuid, parsed_uuid, random_uuid};
use crate::models::{Permission, Role};
use vstd::prelude::*;

verus! {

/// Answers role and permission queries and applies assignments.
pub struct AuthorizationService {
    pub repository: AuthorizationRepository,
}

impl AuthorizationService {
    pub open spec fn wf(&self) -> bool {
        self.repository.wf()
    }

    /// A service over the given store.
    pub fn new(repository: AuthorizationRepository) -> (r: AuthorizationService)
        ensures
            r.repository == repository,
    {
        AuthorizationService { repository }
    }

    /// The names of the permissions of the user whose id is `user_id`, each once.
    pub fn get_user_permissions(&self, user_id: &str) -> (r: Result<Vec<String>, ServiceError>)
        requires
            self.wf(),
        ensures
            parsed_uuid(user_id@) is None ==> r == Err::<Vec<String>, ServiceError>(
                ServiceError::InvalidArgument,
            ),
            parsed_uuid(user_id@) matches Some(u) ==> r is Ok && texts(r->Ok_0@).to_set()
                == effective_permissions(self.repository@, u) && texts(r->Ok_0@).no_duplicates(),
    {
        match parse_uuid(user_id) {
            Some(u) => Ok(self.repository.get_user_permissions(u)),
            None => Err(ServiceError::InvalidArgument),
        }
    }

    /// Whether the user whose id is `user_id` has the permission named
    /// `permission_name`, always computed afresh from the current assignments.
    pub fn check_permission(&self, user_id: &str, permission_name: &str) -> (r: Result<
        bool,
        ServiceError,
    >)
        requires
            self.wf(),
        ensures
            parsed_uuid(user_id@) is None ==> r == Err::<bool, ServiceError>(
                ServiceError::InvalidArgument,
            ),
            parsed_uuid(user_id@) matches Some(u) ==> r == Ok::<bool, ServiceError>(
                effective_permissions(self.repository@, u).contains(permission_name@),
            ),
    {
        match parse_uuid(user_id) {
            Some(u) => Ok(self.repository.check_permission(u, permission_name)),
            None => Err(ServiceError::InvalidArgument),
        }
    }

    /// The roles of the user whose id is `user_id`.
    pub fn roles_for_user(&self, user_id: &str) -> (r: Result<Vec<Role>, ServiceError>)
        ensures
            parsed_uuid(user_id@) is None ==> r == Err::<Vec<Role>, ServiceError>(
                ServiceError::InvalidArgument,
            ),
            parsed_uuid(user_id@) matches Some(u) ==> r is Ok && r->Ok_0@
                == self.repository@.roles.filter(assigned_to(self.repository@, u)),
    {
        match parse_uuid(user_id) {
            Some(u) => Ok(self.repository.get_roles_for_user(u)),
            None => Err(ServiceError::InvalidArgument),
        }
    }

    /// Assigns a role to a user. An absent role is not found; an assignment
    /// that exists already is a conflict and stays as it is.
    pub fn assign_role(&mut self, user_id: &str, role_id: &str) -> (r: Result<(), ServiceError>)
        requires
            old(self).wf(),
        ensures
            final(self).wf(),
            parsed_uuid(user_id@) is None || parsed_uuid(role_id@) is None ==> r == Err::<
                (),
                ServiceError,
            >(ServiceError::InvalidArgument) && final(self).repository@ == old(self).repository@,
            parsed_uuid(user_id@) matches Some(u) ==> parsed_uuid(role_id@) matches Some(g) ==> {
                &&& final(self).repository@ == after_assign_role(old(self).repository@, u, g)
                &&& !role_exists(old(self).repository@, g) ==> r == Err::<(), ServiceError>(
                    ServiceError::NotFound,
                )
                &&& role_exists(old(self).repository@, g)
                    && old(self).repository@.user_roles.contains((u, g)) ==> r == Err::<
                    (),
                    ServiceError,
                >(ServiceError::Conflict)
                &&& role_exists(old(self).repository@, g)
                    && !old(self).repository@.user_roles.contains((u, g)) ==> r is Ok
            },
    {
        let u = match parse_uuid(user_id) {
            Some(u) => u,
            None => {
                return Err(ServiceError::InvalidArgument);
            },
        };
        let g = match parse_uuid(role_id) {
            Some(g) => g,
            None => {
                return Err(ServiceError::InvalidArgument);
            },
        };
        self.repository.assign_role(u, g)
    }

    /// Removes a role from a user; removing an absent assignment succeeds.
    pub fn revoke_role(&mut self, user_id: &str, role_id: &str) -> (r: Result<(), ServiceError>)
        requires
            old(self).wf(),
        ensures
            final(self).wf(),
            parsed_uuid(user_id@) is None || parsed_uuid(role_id@) is None ==> r == Err::<
                (),
                ServiceError,
            >(ServiceError::InvalidArgument) && final(self).repository@ == old(self).repository@,
            parsed_uuid(user_id@) matches Some(u) ==> parsed_uuid(role_id@) matches Some(g) ==> r
                is Ok && final(self).repository@ == after_revoke_role(old(self).repository@, u, g),
    {
        let u = match parse_uuid(user_id) {
            Some(u) => u,
            None => {
                return Err(ServiceError::InvalidArgument);
            },
        };
        let g = match parse_uuid(role_id) {
            Some(g) => g,
            None => {
                return Err(ServiceError::InvalidArgument);
            },
        };
        self.repository.revoke_role(u, g);
        Ok(())
    }

    /// Links a permission to a role. An absent role or permission is not
    /// found; a link that exists already is a conflict and stays as it is.
    pub fn assign_permission_to_role(&mut self, role_id: &str, permission_id: &str) -> (r: Result<
        (),
        ServiceError,
    >)
        requires
            old(self).wf(),
        ensures
            final(self).wf(),
            parsed_uuid(role_id@) is None || parsed_uuid(permission_id@) is None ==> r == Err::<
                (),
                ServiceError,
            >(ServiceError::InvalidArgument) && final(self).repository@ == old(self).repository@,
            parsed_uuid(role_id@) matches Some(g) ==> parsed_uuid(permission_id@) matches Some(p)
                ==> {
                let st = old(self).repository@;
                &&& !role_exists(st, g) || !permission_exists(st, p) ==> r == Err::<
                    (),
                    ServiceError,
                >(ServiceError::NotFound)
                &&& role_exists(st, g) && permission_exists(st, p) && st.role_permissions.contains(
                    (g, p),
                ) ==> r == Err::<(), ServiceError>(ServiceError::Conflict)
                &&& role_exists(st, g) && permission_exists(st, p)
                    && !st.role_permissions.contains((g, p)) ==> r is Ok
                &&& r is Ok ==> final(self).repository@ == (RbacState {
                    role_permissions: st.role_permissions.push((g, p)),
                    ..st
                })
                &&& r is Err ==> final(self).repository@ == st
            },
    {
        let g = match parse_uuid(role_id) {
            Some(g) => g,
            None => {
                return Err(ServiceError::InvalidArgument);
            },
        };
        let p = match parse_uuid(permission_id) {
            Some(p) => p,
            None => {
                return Err(ServiceError::InvalidArgument);
            },
        };
        self.repository.assign_permission_to_role(g, p)
    }

    /// Unlinks a permission from a role; removing an absent link succeeds.
    pub fn remove_permission_from_role(&mut self, role_id: &str, permission_id: &str) -> (r:
        Result<(), ServiceError>)
        requires
            old(self).wf(),
        ensures
            final(self).wf(),
            parsed_uuid(role_id@) is None || parsed_uuid(permission_id@) is None ==> r == Err::<
                (),
                ServiceError,
            >(ServiceError::InvalidArgument) && final(self).repository@ == old(self).repository@,
            parsed_uuid(role_id@) matches Some(g) ==> parsed_uuid(permission_id@) matches Some(p)
                ==> r is Ok && final(self).repository@ == (RbacState {
                role_permissions: without_edge(old(self).repository@.role_permissions, (g, p)),
                ..old(self).repository@
            }),
    {
        let g = match parse_uuid(role_id) {
            Some(g) => g,
            None => {
                return Err(ServiceError::InvalidArgument);
            },
        };
        let p = match parse_uuid(permission_id) {
            Some(p) => p,
            None => {
                return Err(ServiceError::InvalidArgument);
            },
        };
        self.repository.remove_permission_from_role(g, p);
        Ok(())
    }

    /// Creates a role with a fresh random id, now. A name that is taken is a
    /// conflict.
    pub fn create_role(&mut self, name: &str, description: &str) -> (r: Result<Role, ServiceError>)
        requires
            old(self).wf(),
        ensures
            final(self).wf(),
            role_named(old(self).repository@, name@) ==> r == Err::<Role, ServiceError>(
                ServiceError::Conflict,
            ),
            !role_named(old(self).repository@, name@) ==> r is Ok || r == Err::<Role, ServiceError>(
                ServiceError::Internal,
            ),
            r is Ok ==> r->Ok_0.name@ == name@ && r->Ok_0.description@ == description@
                && final(self).repository@ == (RbacState {
                roles: old(self).repository@.roles.push(r->Ok_0),
                ..old(self).repository@
            }),
            r is Err ==> final(self).repository@ == old(self).repository@,
    {
        let id = random_uuid();
        let now = now_millis();
        self.repository.create_role(id, name, description, now)
    }

    /// All roles.
    pub fn list_roles(&self) -> (r: Vec<Role>)
        ensures
            r@ == self.repository@.roles,
    {
        self.repository.list_roles()
    }

    /// Deletes the role whose id is `role_id`, with its assignments and links.
    /// An absent role is not found.
    pub fn delete_role(&mut self, role_id: &str) -> (r: Result<(), ServiceError>)
        requires
            old(self).wf(),
        ensures
            final(self).wf(),
            parsed_uuid(role_id@) is None ==> r == Err::<(), ServiceError>(
                ServiceError::InvalidArgument,
            ) && final(self).repository@ == old(self).repository@,
            parsed_uuid(role_id@) matches Some(g) ==> {
                let st = old(self).repository@;
                &&& !role_exists(st, g) ==> r == Err::<(), ServiceError>(ServiceError::NotFound)
                    && final(self).repository@ == st
                &&& role_exists(st, g) ==> r is Ok && final(self).repository@ == (RbacState {
                    roles: st.roles.remove(role_index(st, g)),
                    permissions: st.permissions,
                    user_roles: st.user_roles.filter(second_not(g)),
                    role_permissions: st.role_permissions.filter(first_not(g)),
                })
            },
    {
        match parse_uuid(role_id) {
            Some(g) => self.repository.delete_role(g),
            None => Err(ServiceError::InvalidArgument),
        }
    }

    /// Creates a permission with a fresh random id and no description, now. A
    /// name that is taken is a conflict.
    pub fn create_permission(&mut self, name: &str) -> (r: Result<Permission, ServiceError>)
        requires
            old(self).wf(),
        ensures
            final(self).wf(),
            permission_named(old(self).repository@, name@) ==> r == Err::<
                Permission,
                ServiceError,
            >(ServiceError::Conflict),
            !permission_named(old(self).repository@, name@) ==> r is Ok || r == Err::<
                Permission,
                ServiceError,
            >(ServiceError::Internal),
            r is Ok ==> r->Ok_0.name@ == name@ && r->Ok_0.description@.len() == 0
                && final(self).repository@ == (RbacState {
                permissions: old(self).repository@.permissions.push(r->Ok_0),
                ..old(self).repository@
            }),
            r is Err ==> final(self).repository@ == old(self).repository@,
    {
        let id = random_uuid();
        let now = now_millis();
        let none = "";
        proof {
            reveal_strlit("");
        }
        self.repository.create_permission(id, name, none, now)
    }

    /// The permission named `name`; an unknown name is not found.
    pub fn get_permission_by_name(&self, name: &str) -> (r: Result<Permission, ServiceError>)
        requires
            self.wf(),
        ensures
            match find_permission_by_name(self.repository@, name@) {
                Some(p) => r == Ok::<Permission, ServiceError>(p),
                None => r == Err::<Permission, ServiceError>(ServiceError::NotFound),
            },
    {
        self.repository.get_permission_by_name(name)
    }

    /// All permissions.
    pub fn list_permissions(&self) -> (r: Vec<Permission>)
        ensures
            r@ == self.repository@.permissions,
    {
        self.repository.list_permissions()
    }

    /// The role whose id is `role_id`; an absent role is not found.
    pub fn get_role(&self, role_id: &str) -> (r: Result<Role, ServiceError>)
        requires
            self.wf(),
        ensures
            parsed_uuid(role_id@) is None ==> r == Err::<Role, ServiceError>(
                ServiceError::InvalidArgument,
            ),
            parsed_uuid(role_id@) matches Some(g) ==> {
                let st = self.repository@;
                &&& !role_exists(st, g) ==> r == Err::<Role, ServiceError>(ServiceError::NotFound)
                &&& role_exists(st, g) ==> r == Ok::<Role, ServiceError>(
                    st.roles[role_index(st, g)],
                )
            },
    {
        match parse_uuid(role_id) {
            Some(g) => self.repository.get_role(g),
            None => Err(ServiceError::InvalidArgument),
        }
    }

    /// The permissions linked to the role whose id is `role_id`; an absent
    /// role is not found.
    pub fn get_role_permissions(&self, role_id: &str) -> (r: Result<Vec<Permission>, ServiceError>)
        ensures
            parsed_uuid(role_id@) is None ==> r == Err::<Vec<Permission>, ServiceError>(
                ServiceError::InvalidArgument,
            ),
            parsed_uuid(role_id@) matches Some(g) ==> {
                let st = self.repository@;
                &&& !role_exists(st, g) ==> r == Err::<Vec<Permission>, ServiceError>(
                    ServiceError::NotFound,
                )
                &&& role_exists(st, g) ==> r is Ok && r->Ok_0@ == st.permissions.filter(
                    linked_to(st, g),
                )
            },
    {
        match parse_uuid(role_id) {
            Some(g) => self.repository.get_role_permissions(g),
            None => Err(ServiceError::InvalidArgument),
        }
    }

    /// Whether the call carrying the `authorization` header may use the
    /// permission named `permission_name` at `now`. The header must pass the
    /// request guard (which marks the session as accessed); otherwise the
    /// answer is `Unauthenticated` and nothing changes. Then the answer is
    /// whether the session's user holds the permission.
    pub fn validate_access(
        &self,
        sessions: &mut SessionRepository,
        authorization: Option<&str>,
        permission_name: &str,
        now: i64,
    ) -> (r: Result<bool, ServiceError>)
        requires
            self.wf(),
            old(sessions).wf(),
        ensures
            final(sessions).wf(),
            r is Err ==> r == Err::<bool, ServiceError>(ServiceError::Unauthenticated),
            r is Err ==> final(sessions)@ == old(sessions)@,
            r is Ok <==> passes_guard(old(sessions)@, authorization, now),
            r is Ok ==> {
                let id = parsed_uuid(credential_of(authorization->Some_0@))->Some_0;
                r->Ok_0 == effective_permissions(
                    self.repository@,
                    find_session(old(sessions)@, id)->Some_0.user_id,
                ).contains(permission_name@)
            },
    {
        let user_id = AuthInterceptor.call_at(sessions, authorization, now)?;
        Ok(self.repository.check_permission(user_id, permission_name))
    }
}

} // verus!
