//! The role/permission graph: roles, permissions, the user-role edges and the
//! role-permission edges, and the permissions a user has through them.
use crate::error::ServiceError;
use crate::models::{Permission, Role};
use vstd::prelude::*;

verus! {

broadcast use vstd::seq_lib::group_filter_ensures;

/// The contents of the graph store.
pub ghost struct RbacState {
    pub roles: Seq<Role>,
    pub permissions: Seq<Permission>,
    /// `(user_id, role_id)` edges.
    pub user_roles: Seq<(u128, u128)>,
    /// `(role_id, permission_id)` edges.
    pub role_permissions: Seq<(u128, u128)>,
}

/// Whether a role with this id exists.
pub open spec fn role_exists(st: RbacState, id: u128) -> bool {
    exists|i: int| 0 <= i < st.roles.len() && st.roles[i].id == id
}

/// Whether a permission with this id exists.
pub open spec fn permission_exists(st: RbacState, id: u128) -> bool {
    exists|i: int| 0 <= i < st.permissions.len() && st.permissions[i].id == id
}

/// Whether role `role` grants the permission named `name`.
pub open spec fn role_grants(st: RbacState, role: u128, name: Seq<char>) -> bool {
    exists|i: int|
        0 <= i < st.permissions.len() && st.permissions[i].name@ == name
            && st.role_permissions.contains((role, st.permissions[i].id))
}

/// Whether one of the roles assigned to `user` is linked to permission `pid`.
pub open spec fn granted(st: RbacState, user: u128, pid: u128) -> bool {
    exists|role: u128|
        st.user_roles.contains((user, role)) && #[trigger] st.role_permissions.contains(
            (role, pid),
        )
}

/// The names of the permissions that `user` has: the union, over every role
/// assigned to `user`, of the names of the permissions of that role.
pub open spec fn effective_permissions(st: RbacState, user: u128) -> Set<Seq<char>> {
    Set::new(
        |name: Seq<char>|
            exists|role: u128| st.user_roles.contains((user, role)) && role_grants(st, role, name),
    )
}

/// The texts of a sequence of strings.
pub open spec fn texts(v: Seq<String>) -> Seq<Seq<char>> {
    v.map_values(|s: String| s@)
}

/// Role ids and names are unique, and so are permission ids and names.
pub open spec fn rbac_wf(st: RbacState) -> bool {
    &&& forall|i: int, j: int|
        0 <= i < st.roles.len() && 0 <= j < st.roles.len() && i != j ==> st.roles[i].id
            != st.roles[j].id && st.roles[i].name@ != st.roles[j].name@
    &&& forall|i: int, j: int|
        0 <= i < st.permissions.len() && 0 <= j < st.permissions.len() && i != j
            ==> st.permissions[i].id != st.permissions[j].id && st.permissions[i].name@
            != st.permissions[j].name@
}

/// Edges other than `edge`.
pub open spec fn other_than(edge: (u128, u128)) -> spec_fn((u128, u128)) -> bool {
    |e: (u128, u128)| e != edge
}

/// Edges whose first end is not `id`.
pub open spec fn first_not(id: u128) -> spec_fn((u128, u128)) -> bool {
    |e: (u128, u128)| e.0 != id
}

/// Edges whose second end is not `id`.
pub open spec fn second_not(id: u128) -> spec_fn((u128, u128)) -> bool {
    |e: (u128, u128)| e.1 != id
}

/// The edges without `edge`.
pub open spec fn without_edge(edges: Seq<(u128, u128)>, edge: (u128, u128)) -> Seq<(u128, u128)> {
    edges.filter(other_than(edge))
}

/// Whether a role has this name.
pub open spec fn role_named(st: RbacState, name: Seq<char>) -> bool {
    exists|i: int| 0 <= i < st.roles.len() && st.roles[i].name@ == name
}

/// Whether a permission has this name.
pub open spec fn permission_named(st: RbacState, name: Seq<char>) -> bool {
    exists|i: int| 0 <= i < st.permissions.len() && st.permissions[i].name@ == name
}

/// The role with this name, if there is one.
pub open spec fn find_role_by_name(st: RbacState, name: Seq<char>) -> Option<Role> {
    if role_named(st, name) {
        Some(st.roles[choose|i: int| 0 <= i < st.roles.len() && st.roles[i].name@ == name])
    } else {
        None
    }
}

/// The permission with this name, if there is one.
pub open spec fn find_permission_by_name(st: RbacState, name: Seq<char>) -> Option<Permission> {
    if permission_named(st, name) {
        Some(
            st.permissions[choose|i: int|
                0 <= i < st.permissions.len() && st.permissions[i].name@ == name],
        )
    } else {
        None
    }
}

/// The position of the role with this id.
pub open spec fn role_index(st: RbacState, id: u128) -> int {
    choose|i: int| 0 <= i < st.roles.len() && st.roles[i].id == id
}

/// The position of the permission with this id.
pub open spec fn permission_index(st: RbacState, id: u128) -> int {
    choose|i: int| 0 <= i < st.permissions.len() && st.permissions[i].id == id
}

/// Roles assigned to `user`.
pub open spec fn assigned_to(st: RbacState, user: u128) -> spec_fn(Role) -> bool {
    |r: Role| st.user_roles.contains((user, r.id))
}

/// Permissions linked to role `role`.
pub open spec fn linked_to(st: RbacState, role: u128) -> spec_fn(Permission) -> bool {
    |p: Permission| st.role_permissions.contains((role, p.id))
}

/// The store after `assign_role(user, role)`: the edge is added when the role
/// exists and the edge does not.
pub open spec fn after_assign_role(st: RbacState, user: u128, role: u128) -> RbacState {
    if role_exists(st, role) && !st.user_roles.contains((user, role)) {
        RbacState { user_roles: st.user_roles.push((user, role)), ..st }
    } else {
        st
    }
}

/// The store after `revoke_role(user, role)`.
pub open spec fn after_revoke_role(st: RbacState, user: u128, role: u128) -> RbacState {
    RbacState { user_roles: without_edge(st.user_roles, (user, role)), ..st }
}

/// A name is effective for `user` exactly when some permission with that name
/// is granted to `user`.
proof fn lemma_effective_iff(st: RbacState, user: u128, name: Seq<char>)
    ensures
        effective_permissions(st, user).contains(name) <==> exists|j: int|
            0 <= j < st.permissions.len() && st.permissions[j].name@ == name && granted(
                st,
                user,
                #[trigger] st.permissions[j].id,
            ),
{
    if effective_permissions(st, user).contains(name) {
        let role = choose|role: u128|
            st.user_roles.contains((user, role)) && role_grants(st, role, name);
        let i = choose|i: int|
            0 <= i < st.permissions.len() && st.permissions[i].name@ == name
                && st.role_permissions.contains((role, st.permissions[i].id));
        assert(granted(st, user, st.permissions[i].id));
    }
    if exists|j: int|
        0 <= j < st.permissions.len() && st.permissions[j].name@ == name && granted(
            st,
            user,
            #[trigger] st.permissions[j].id,
        ) {
        let j = choose|j: int|
            0 <= j < st.permissions.len() && st.permissions[j].name@ == name && granted(
                st,
                user,
                #[trigger] st.permissions[j].id,
            );
        let role = choose|role: u128|
            st.user_roles.contains((user, role)) && #[trigger] st.role_permissions.contains(
                (role, st.permissions[j].id),
            );
        assert(role_grants(st, role, name));
        assert(effective_permissions(st, user).contains(name));
    }
}

/// Whether one of the first `n` permissions is named `name` and granted to
/// `user`.
spec fn granted_among(st: RbacState, user: u128, name: Seq<char>, n: int) -> bool {
    exists|j: int|
        0 <= j < n && st.permissions[j].name@ == name && granted(
            st,
            user,
            #[trigger] st.permissions[j].id,
        )
}

/// Which edges a removal drops.
enum EdgeCut {
    Pair(u128, u128),
    First(u128),
    Second(u128),
}

impl EdgeCut {
    spec fn keeper(self) -> spec_fn((u128, u128)) -> bool {
        match self {
            EdgeCut::Pair(a, b) => other_than((a, b)),
            EdgeCut::First(a) => first_not(a),
            EdgeCut::Second(b) => second_not(b),
        }
    }

    fn keeps(&self, e: (u128, u128)) -> (r: bool)
        ensures
            r == (self.keeper())(e),
    {
        match self {
            EdgeCut::Pair(a, b) => e.0 != *a || e.1 != *b,
            EdgeCut::First(a) => e.0 != *a,
            EdgeCut::Second(b) => e.1 != *b,
        }
    }
}

fn cut_edges(edges: &Vec<(u128, u128)>, cut: EdgeCut) -> (r: Vec<(u128, u128)>)
    ensures
        r@ == edges@.filter(cut.keeper()),
{
    let ghost keep = cut.keeper();
    let mut out: Vec<(u128, u128)> = Vec::new();
    let mut i: usize = 0;
    while i < edges.len()
        invariant
            keep == cut.keeper(),
            i <= edges@.len(),
            out@ == edges@.take(i as int).filter(keep),
        decreases edges@.len() - i,
    {
        proof {
            assert(edges@.take(i as int + 1) =~= edges@.take(i as int).push(edges@[i as int]));
            edges@.take(i as int).lemma_filter_push(edges@[i as int], keep);
        }
        if cut.keeps(edges[i]) {
            out.push(edges[i]);
        }
        i += 1;
    }
    proof {
        assert(edges@.take(edges@.len() as int) =~= edges@);
    }
    out
}

fn edge_in(edges: &Vec<(u128, u128)>, edge: (u128, u128)) -> (r: bool)
    ensures
        r == edges@.contains(edge),
{
    let mut i: usize = 0;
    while i < edges.len()
        invariant
            i <= edges@.len(),
            forall|j: int| 0 <= j < i ==> edges@[j] != edge,
        decreases edges@.len() - i,
    {
        if edges[i].0 == edge.0 && edges[i].1 == edge.1 {
            assert(edges@[i as int] == edge);
            return true;
        }
        i += 1;
    }
    false
}

/// The store of the role/permission graph.
pub struct AuthorizationRepository {
    roles: Vec<Role>,
    permissions: Vec<Permission>,
    user_roles: Vec<(u128, u128)>,
    role_permissions: Vec<(u128, u128)>,
}

impl View for AuthorizationRepository {
    type V = RbacState;

    closed spec fn view(&self) -> RbacState {
        RbacState {
            roles: self.roles@,
            permissions: self.permissions@,
            user_roles: self.user_roles@,
            role_permissions: self.role_permissions@,
        }
    }
}

impl AuthorizationRepository {
    pub open spec fn wf(&self) -> bool {
        rbac_wf(self@)
    }

    /// An empty store.
    pub fn new() -> (r: AuthorizationRepository)
        ensures
            r.wf(),
            r@.roles == Seq::<Role>::empty(),
            r@.permissions == Seq::<Permission>::empty(),
            r@.user_roles == Seq::<(u128, u128)>::empty(),
            r@.role_permissions == Seq::<(u128, u128)>::empty(),
    {
        AuthorizationRepository {
            roles: Vec::new(),
            permissions: Vec::new(),
            user_roles: Vec::new(),
            role_permissions: Vec::new(),
        }
    }

    fn role_position(&self, id: u128) -> (r: Option<usize>)
        ensures
            match r {
                Some(k) => k < self@.roles.len() && self@.roles[k as int].id == id,
                None => !role_exists(self@, id),
            },
    {
        let mut i: usize = 0;
        while i < self.roles.len()
            invariant
                i <= self@.roles.len(),
                forall|j: int| 0 <= j < i ==> self@.roles[j].id != id,
            decreases self@.roles.len() - i,
        {
            if self.roles[i].id == id {
                return Some(i);
            }
            i += 1;
        }
        None
    }

    fn permission_position(&self, id: u128) -> (r: Option<usize>)
        ensures
            match r {
                Some(k) => k < self@.permissions.len() && self@.permissions[k as int].id == id,
                None => !permission_exists(self@, id),
            },
    {
        let mut i: usize = 0;
        while i < self.permissions.len()
            invariant
                i <= self@.permissions.len(),
                forall|j: int| 0 <= j < i ==> self@.permissions[j].id != id,
            decreases self@.permissions.len() - i,
        {
            if self.permissions[i].id == id {
                return Some(i);
            }
            i += 1;
        }
        None
    }

    /// Assigns role `role_id` to `user_id`. An absent role is not found; an
    /// assignment that already exists is a conflict and stays as it is.
    pub fn assign_role(&mut self, user_id: u128, role_id: u128) -> (r: Result<(), ServiceError>)
        requires
            old(self).wf(),
        ensures
            final(self).wf(),
            final(self)@ == after_assign_role(old(self)@, user_id, role_id),
            !role_exists(old(self)@, role_id) ==> r == Err::<(), ServiceError>(
                ServiceError::NotFound,
            ),
            role_exists(old(self)@, role_id) && old(self)@.user_roles.contains((user_id, role_id))
                ==> r == Err::<(), ServiceError>(ServiceError::Conflict),
            role_exists(old(self)@, role_id) && !old(self)@.user_roles.contains(
                (user_id, role_id),
            ) ==> r is Ok,
    {
        if self.role_position(role_id).is_none() {
            return Err(ServiceError::NotFound);
        }
        if edge_in(&self.user_roles, (user_id, role_id)) {
            return Err(ServiceError::Conflict);
        }
        self.user_roles.push((user_id, role_id));
        proof {
            assert(self@ =~= after_assign_role(old(self)@, user_id, role_id));
        }
        Ok(())
    }

    /// Removes the assignment of role `role_id` to `user_id`. Removing an
    /// absent assignment is not an error.
    pub fn revoke_role(&mut self, user_id: u128, role_id: u128)
        requires
            old(self).wf(),
        ensures
            final(self).wf(),
            final(self)@ == after_revoke_role(old(self)@, user_id, role_id),
    {
        self.user_roles = cut_edges(&self.user_roles, EdgeCut::Pair(user_id, role_id));
        proof {
            assert(self@ == after_revoke_role(old(self)@, user_id, role_id));
        }
    }

    /// Whether one of the roles of `user_id` is linked to permission `pid`.
    fn grants(&self, user_id: u128, pid: u128) -> (r: bool)
        ensures
            r == granted(self@, user_id, pid),
    {
        let mut i: usize = 0;
        while i < self.user_roles.len()
            invariant
                i <= self@.user_roles.len(),
                forall|a: int|
                    0 <= a < i && self@.user_roles[a].0 == user_id
                        ==> !self@.role_permissions.contains((self@.user_roles[a].1, pid)),
            decreases self@.user_roles.len() - i,
        {
            let (u, role) = self.user_roles[i];
            if u == user_id && edge_in(&self.role_permissions, (role, pid)) {
                proof {
                    assert(self@.user_roles[i as int] == (user_id, role));
                    assert(self@.user_roles.contains((user_id, role)));
                    assert(self@.role_permissions.contains((role, pid)));
                    assert(granted(self@, user_id, pid));
                }
                return true;
            }
            i += 1;
        }
        proof {
            assert forall|role: u128|
                !(self@.user_roles.contains((user_id, role))
                    && #[trigger] self@.role_permissions.contains((role, pid))) by {
                if self@.user_roles.contains((user_id, role)) {
                    let a = choose|a: int|
                        0 <= a < self@.user_roles.len() && self@.user_roles[a] == (user_id, role);
                }
            }
        }
        false
    }

    /// The names of the permissions that `user_id` has through its roles, each
    /// once, in the order in which the permissions were created.
    pub fn get_user_permissions(&self, user_id: u128) -> (r: Vec<String>)
        requires
            self.wf(),
        ensures
            texts(r@).to_set() == effective_permissions(self@, user_id),
            texts(r@).no_duplicates(),
    {
        let ghost st = self@;
        let mut out: Vec<String> = Vec::new();
        let mut i: usize = 0;
        while i < self.permissions.len()
            invariant
                self.wf(),
                self@ == st,
                i <= st.permissions.len(),
                forall|k: int|
                    0 <= k < out@.len() ==> granted_among(st, user_id, #[trigger] out@[k]@, i as int),
                forall|j: int|
                    0 <= j < i && granted(st, user_id, #[trigger] st.permissions[j].id)
                        ==> texts(out@).contains(st.permissions[j].name@),
                forall|a: int, b: int| 0 <= a < b < out@.len() ==> out@[a]@ != out@[b]@,
            decreases st.permissions.len() - i,
        {
            if self.grants(user_id, self.permissions[i].id) {
                let ghost before = out@;
                out.push(self.permissions[i].name.clone());
                proof {
                    assert(texts(out@)[out@.len() - 1] == st.permissions[i as int].name@);
                    assert forall|j: int|
                        0 <= j < i + 1 && granted(st, user_id, #[trigger] st.permissions[j].id)
                            implies texts(out@).contains(st.permissions[j].name@) by {
                        if j < i {
                            let k = choose|k: int|
                                0 <= k < texts(before).len() && texts(before)[k]
                                    == st.permissions[j].name@;
                            assert(texts(out@)[k] == st.permissions[j].name@);
                        }
                    }
                    assert forall|k: int| 0 <= k < out@.len() implies granted_among(
                        st,
                        user_id,
                        #[trigger] out@[k]@,
                        i + 1,
                    ) by {
                        if k < before.len() {
                            assert(before[k] == out@[k]);
                            assert(granted_among(st, user_id, before[k]@, i as int));
                            let j = choose|j: int|
                                0 <= j < i && st.permissions[j].name@ == before[k]@ && granted(
                                    st,
                                    user_id,
                                    #[trigger] st.permissions[j].id,
                                );
                        } else {
                            assert(out@[k]@ == st.permissions[i as int].name@);
                        }
                    }
                    assert forall|a: int, b: int|
                        0 <= a < b < out@.len() implies out@[a]@ != out@[b]@ by {
                        if b == out@.len() - 1 {
                            assert(before[a] == out@[a]);
                            assert(granted_among(st, user_id, before[a]@, i as int));
                            let j = choose|j: int|
                                0 <= j < i && st.permissions[j].name@ == before[a]@ && granted(
                                    st,
                                    user_id,
                                    #[trigger] st.permissions[j].id,
                                );
                        } else {
                            assert(before[a] == out@[a] && before[b] == out@[b]);
                        }
                    }
                }
            } else {
                proof {
                    assert forall|k: int| 0 <= k < out@.len() implies granted_among(
                        st,
                        user_id,
                        #[trigger] out@[k]@,
                        i + 1,
                    ) by {
                        assert(granted_among(st, user_id, out@[k]@, i as int));
                        let j = choose|j: int|
                            0 <= j < i && st.permissions[j].name@ == out@[k]@ && granted(
                                st,
                                user_id,
                                #[trigger] st.permissions[j].id,
                            );
                    }
                }
            }
            i += 1;
        }
        proof {
            assert forall|name: Seq<char>|
                texts(out@).to_set().contains(name) <==> effective_permissions(
                    st,
                    user_id,
                ).contains(name) by {
                lemma_effective_iff(st, user_id, name);
                if texts(out@).contains(name) {
                    let k = choose|k: int| 0 <= k < texts(out@).len() && texts(out@)[k] == name;
                    assert(out@[k]@ == name);
                    assert(granted_among(st, user_id, out@[k]@, st.permissions.len() as int));
                }
            }
            assert(texts(out@).to_set() =~= effective_permissions(st, user_id));
            assert forall|a: int, b: int|
                0 <= a < texts(out@).len() && 0 <= b < texts(out@).len() && a != b implies texts(
                out@,
            )[a] != texts(out@)[b] by {
                if a < b {
                    assert(out@[a]@ != out@[b]@);
                } else {
                    assert(out@[b]@ != out@[a]@);
                }
            }
        }
        out
    }

    /// Whether `user_id` has the permission named `permission_name` through
    /// one of its roles.
    pub fn check_permission(&self, user_id: u128, permission_name: &str) -> (r: bool)
        requires
            self.wf(),
        ensures
            r == effective_permissions(self@, user_id).contains(permission_name@),
    {
        let wanted = permission_name.to_owned();
        proof {
            lemma_effective_iff(self@, user_id, permission_name@);
        }
        let mut i: usize = 0;
        while i < self.permissions.len()
            invariant
                self.wf(),
                wanted@ == permission_name@,
                i <= self@.permissions.len(),
                forall|j: int| 0 <= j < i ==> self@.permissions[j].name@ != permission_name@,
            decreases self@.permissions.len() - i,
        {
            if self.permissions[i].name == wanted {
                let r = self.grants(user_id, self.permissions[i].id);
                proof {
                    let p = self@.permissions[i as int];
                    lemma_effective_iff(self@, user_id, permission_name@);
                    if r {
                        assert(p.name@ == permission_name@ && granted(self@, user_id, p.id));
                    }
                    if effective_permissions(self@, user_id).contains(permission_name@) {
                        let j = choose|j: int|
                            0 <= j < self@.permissions.len() && self@.permissions[j].name@
                                == permission_name@ && granted(
                                self@,
                                user_id,
                                #[trigger] self@.permissions[j].id,
                            );
                        assert(j == i);
                    }
                }
                return r;
            }
            i += 1;
        }
        false
    }

    fn role_name_position(&self, name: &str) -> (r: Option<usize>)
        requires
            self.wf(),
        ensures
            match r {
                Some(k) => k < self@.roles.len() && self@.roles[k as int].name@ == name@
                    && find_role_by_name(self@, name@) == Some(self@.roles[k as int]),
                None => !role_named(self@, name@),
            },
    {
        let wanted = name.to_owned();
        let mut i: usize = 0;
        while i < self.roles.len()
            invariant
                self.wf(),
                wanted@ == name@,
                i <= self@.roles.len(),
                forall|j: int| 0 <= j < i ==> self@.roles[j].name@ != name@,
            decreases self@.roles.len() - i,
        {
            if self.roles[i].name == wanted {
                proof {
                    let j = choose|j: int|
                        0 <= j < self@.roles.len() && self@.roles[j].name@ == name@;
                    assert(j == i);
                }
                return Some(i);
            }
            i += 1;
        }
        None
    }

    fn permission_name_position(&self, name: &str) -> (r: Option<usize>)
        requires
            self.wf(),
        ensures
            match r {
                Some(k) => k < self@.permissions.len() && self@.permissions[k as int].name@
                    == name@ && find_permission_by_name(self@, name@) == Some(
                    self@.permissions[k as int],
                ),
                None => !permission_named(self@, name@),
            },
    {
        let wanted = name.to_owned();
        let mut i: usize = 0;
        while i < self.permissions.len()
            invariant
                self.wf(),
                wanted@ == name@,
                i <= self@.permissions.len(),
                forall|j: int| 0 <= j < i ==> self@.permissions[j].name@ != name@,
            decreases self@.permissions.len() - i,
        {
            if self.permissions[i].name == wanted {
                proof {
                    let j = choose|j: int|
                        0 <= j < self@.permissions.len() && self@.permissions[j].name@ == name@;
                    assert(j == i);
                }
                return Some(i);
            }
            i += 1;
        }
        None
    }

    /// Adds role `id` named `name` at `now`. A name that is already taken is a
    /// conflict; an id that is already stored is a store failure.
    pub fn create_role(&mut self, id: u128, name: &str, description: &str, now: i64) -> (r: Result<
        Role,
        ServiceError,
    >)
        requires
            old(self).wf(),
        ensures
            final(self).wf(),
            role_named(old(self)@, name@) ==> r == Err::<Role, ServiceError>(
                ServiceError::Conflict,
            ),
            !role_named(old(self)@, name@) && role_exists(old(self)@, id) ==> r == Err::<
                Role,
                ServiceError,
            >(ServiceError::Internal),
            !role_named(old(self)@, name@) && !role_exists(old(self)@, id) ==> r is Ok,
            r is Ok ==> r->Ok_0.id == id && r->Ok_0.name@ == name@ && r->Ok_0.description@
                == description@ && r->Ok_0.created_at == now && r->Ok_0.updated_at == now
                && final(self)@ == (RbacState { roles: old(self)@.roles.push(r->Ok_0), ..old(self)@ }),
            r is Err ==> final(self)@ == old(self)@,
    {
        if self.role_name_position(name).is_some() {
            return Err(ServiceError::Conflict);
        }
        if self.role_position(id).is_some() {
            return Err(ServiceError::Internal);
        }
        let role = Role {
            id,
            name: name.to_owned(),
            description: description.to_owned(),
            created_at: now,
            updated_at: now,
        };
        let ghost before = self@.roles;
        self.roles.push(role.duplicate());
        proof {
            assert forall|j: int| 0 <= j < before.len() implies before[j].id != id
                && before[j].name@ != name@ by {
                assert(!(0 <= j < before.len() && before[j].name@ == name@));
                assert(!(0 <= j < before.len() && before[j].id == id));
            }
            assert(self@.roles[before.len() as int] == role);
            assert(self@.permissions == old(self)@.permissions);
        }
        Ok(role)
    }

    /// Adds permission `id` named `name` at `now`. A name that is already taken
    /// is a conflict; an id that is already stored is a store failure.
    pub fn create_permission(&mut self, id: u128, name: &str, description: &str, now: i64) -> (r:
        Result<Permission, ServiceError>)
        requires
            old(self).wf(),
        ensures
            final(self).wf(),
            permission_named(old(self)@, name@) ==> r == Err::<Permission, ServiceError>(
                ServiceError::Conflict,
            ),
            !permission_named(old(self)@, name@) && permission_exists(old(self)@, id) ==> r
                == Err::<Permission, ServiceError>(ServiceError::Internal),
            !permission_named(old(self)@, name@) && !permission_exists(old(self)@, id) ==> r is Ok,
            r is Ok ==> r->Ok_0.id == id && r->Ok_0.name@ == name@ && r->Ok_0.description@
                == description@ && r->Ok_0.created_at == now && r->Ok_0.updated_at == now
                && final(self)@ == (RbacState {
                permissions: old(self)@.permissions.push(r->Ok_0),
                ..old(self)@
            }),
            r is Err ==> final(self)@ == old(self)@,
    {
        if self.permission_name_position(name).is_some() {
            return Err(ServiceError::Conflict);
        }
        if self.permission_position(id).is_some() {
            return Err(ServiceError::Internal);
        }
        let permission = Permission {
            id,
            name: name.to_owned(),
            description: description.to_owned(),
            created_at: now,
            updated_at: now,
        };
        let ghost before = self@.permissions;
        self.permissions.push(permission.duplicate());
        proof {
            assert forall|j: int| 0 <= j < before.len() implies before[j].id != id
                && before[j].name@ != name@ by {
                assert(!(0 <= j < before.len() && before[j].name@ == name@));
                assert(!(0 <= j < before.len() && before[j].id == id));
            }
            assert(self@.permissions[before.len() as int] == permission);
            assert(self@.roles == old(self)@.roles);
        }
        Ok(permission)
    }

    /// The role named `name`; an unknown name is not found.
    pub fn get_role_by_name(&self, name: &str) -> (r: Result<Role, ServiceError>)
        requires
            self.wf(),
        ensures
            match find_role_by_name(self@, name@) {
                Some(role) => r == Ok::<Role, ServiceError>(role),
                None => r == Err::<Role, ServiceError>(ServiceError::NotFound),
            },
    {
        match self.role_name_position(name) {
            Some(k) => Ok(self.roles[k].duplicate()),
            None => Err(ServiceError::NotFound),
        }
    }

    /// The permission named `name`; an unknown name is not found.
    pub fn get_permission_by_name(&self, name: &str) -> (r: Result<Permission, ServiceError>)
        requires
            self.wf(),
        ensures
            match find_permission_by_name(self@, name@) {
                Some(p) => r == Ok::<Permission, ServiceError>(p),
                None => r == Err::<Permission, ServiceError>(ServiceError::NotFound),
            },
    {
        match self.permission_name_position(name) {
            Some(k) => Ok(self.permissions[k].duplicate()),
            None => Err(ServiceError::NotFound),
        }
    }

    /// All roles, in the order in which they were created.
    pub fn list_roles(&self) -> (r: Vec<Role>)
        ensures
            r@ == self@.roles,
    {
        let mut out: Vec<Role> = Vec::new();
        let mut i: usize = 0;
        while i < self.roles.len()
            invariant
                i <= self@.roles.len(),
                out@ == self@.roles.take(i as int),
            decreases self@.roles.len() - i,
        {
            out.push(self.roles[i].duplicate());
            i += 1;
            assert(out@ =~= self@.roles.take(i as int));
        }
        assert(out@ =~= self@.roles);
        out
    }

    /// All permissions, in the order in which they were created.
    pub fn list_permissions(&self) -> (r: Vec<Permission>)
        ensures
            r@ == self@.permissions,
    {
        let mut out: Vec<Permission> = Vec::new();
        let mut i: usize = 0;
        while i < self.permissions.len()
            invariant
                i <= self@.permissions.len(),
                out@ == self@.permissions.take(i as int),
            decreases self@.permissions.len() - i,
        {
            out.push(self.permissions[i].duplicate());
            i += 1;
            assert(out@ =~= self@.permissions.take(i as int));
        }
        assert(out@ =~= self@.permissions);
        out
    }

    /// The roles assigned to `user_id`, in the order in which they were created.
    pub fn get_roles_for_user(&self, user_id: u128) -> (r: Vec<Role>)
        ensures
            r@ == self@.roles.filter(assigned_to(self@, user_id)),
    {
        let ghost keep = assigned_to(self@, user_id);
        let mut out: Vec<Role> = Vec::new();
        let mut i: usize = 0;
        while i < self.roles.len()
            invariant
                keep == assigned_to(self@, user_id),
                i <= self@.roles.len(),
                out@ == self@.roles.take(i as int).filter(keep),
            decreases self@.roles.len() - i,
        {
            proof {
                assert(self@.roles.take(i as int + 1) =~= self@.roles.take(i as int).push(
                    self@.roles[i as int],
                ));
                self@.roles.take(i as int).lemma_filter_push(self@.roles[i as int], keep);
            }
            if edge_in(&self.user_roles, (user_id, self.roles[i].id)) {
                out.push(self.roles[i].duplicate());
            }
            i += 1;
        }
        proof {
            assert(self@.roles.take(self@.roles.len() as int) =~= self@.roles);
        }
        out
    }

    /// Links permission `permission_id` to role `role_id`. An absent role or
    /// permission is not found; a link that already exists is a conflict and
    /// stays as it is.
    pub fn assign_permission_to_role(&mut self, role_id: u128, permission_id: u128) -> (r: Result<
        (),
        ServiceError,
    >)
        requires
            old(self).wf(),
        ensures
            final(self).wf(),
            !role_exists(old(self)@, role_id) || !permission_exists(old(self)@, permission_id)
                ==> r == Err::<(), ServiceError>(ServiceError::NotFound),
            role_exists(old(self)@, role_id) && permission_exists(old(self)@, permission_id)
                && old(self)@.role_permissions.contains((role_id, permission_id)) ==> r == Err::<
                (),
                ServiceError,
            >(ServiceError::Conflict),
            role_exists(old(self)@, role_id) && permission_exists(old(self)@, permission_id)
                && !old(self)@.role_permissions.contains((role_id, permission_id)) ==> r is Ok,
            r is Ok ==> final(self)@ == (RbacState {
                role_permissions: old(self)@.role_permissions.push((role_id, permission_id)),
                ..old(self)@
            }),
            r is Err ==> final(self)@ == old(self)@,
    {
        if self.role_position(role_id).is_none() || self.permission_position(
            permission_id,
        ).is_none() {
            return Err(ServiceError::NotFound);
        }
        if edge_in(&self.role_permissions, (role_id, permission_id)) {
            return Err(ServiceError::Conflict);
        }
        self.role_permissions.push((role_id, permission_id));
        Ok(())
    }

    /// Unlinks permission `permission_id` from role `role_id`. Removing an
    /// absent link is not an error.
    pub fn remove_permission_from_role(&mut self, role_id: u128, permission_id: u128)
        requires
            old(self).wf(),
        ensures
            final(self).wf(),
            final(self)@ == (RbacState {
                role_permissions: without_edge(
                    old(self)@.role_permissions,
                    (role_id, permission_id),
                ),
                ..old(self)@
            }),
    {
        self.role_permissions = cut_edges(
            &self.role_permissions,
            EdgeCut::Pair(role_id, permission_id),
        );
    }

    /// Deletes role `id` together with its assignments to users and its links
    /// to permissions. An absent role is not found.
    pub fn delete_role(&mut self, id: u128) -> (r: Result<(), ServiceError>)
        requires
            old(self).wf(),
        ensures
            final(self).wf(),
            !role_exists(old(self)@, id) ==> r == Err::<(), ServiceError>(ServiceError::NotFound)
                && final(self)@ == old(self)@,
            role_exists(old(self)@, id) ==> r is Ok && final(self)@ == (RbacState {
                roles: old(self)@.roles.remove(role_index(old(self)@, id)),
                permissions: old(self)@.permissions,
                user_roles: old(self)@.user_roles.filter(second_not(id)),
                role_permissions: old(self)@.role_permissions.filter(first_not(id)),
            }),
    {
        let k = match self.role_position(id) {
            Some(k) => k,
            None => {
                return Err(ServiceError::NotFound);
            },
        };
        proof {
            let j = role_index(self@, id);
            assert(j == k);
        }
        self.roles.remove(k);
        self.user_roles = cut_edges(&self.user_roles, EdgeCut::Second(id));
        self.role_permissions = cut_edges(&self.role_permissions, EdgeCut::First(id));
        Ok(())
    }

    /// Deletes permission `id` together with its links to roles. An absent
    /// permission is not found.
    pub fn delete_permission(&mut self, id: u128) -> (r: Result<(), ServiceError>)
        requires
            old(self).wf(),
        ensures
            final(self).wf(),
            !permission_exists(old(self)@, id) ==> r == Err::<(), ServiceError>(
                ServiceError::NotFound,
            ) && final(self)@ == old(self)@,
            permission_exists(old(self)@, id) ==> r is Ok && final(self)@ == (RbacState {
                permissions: old(self)@.permissions.remove(permission_index(old(self)@, id)),
                role_permissions: old(self)@.role_permissions.filter(second_not(id)),
                ..old(self)@
            }),
    {
        let k = match self.permission_position(id) {
            Some(k) => k,
            None => {
                return Err(ServiceError::NotFound);
            },
        };
        proof {
            let j = permission_index(self@, id);
            assert(j == k);
        }
        self.permissions.remove(k);
        self.role_permissions = cut_edges(&self.role_permissions, EdgeCut::Second(id));
        Ok(())
    }

    /// Renames role `id` to `new_name` at `now`. An absent role is not found; a
    /// name that another role has is a conflict.
    pub fn update_role(&mut self, id: u128, new_name: &str, now: i64) -> (r: Result<
        (),
        ServiceError,
    >)
        requires
            old(self).wf(),
        ensures
            final(self).wf(),
            !role_exists(old(self)@, id) ==> r == Err::<(), ServiceError>(ServiceError::NotFound),
            role_exists(old(self)@, id) && role_named(old(self)@, new_name@) && find_role_by_name(
                old(self)@,
                new_name@,
            )->Some_0.id != id ==> r == Err::<(), ServiceError>(ServiceError::Conflict),
            role_exists(old(self)@, id) && !(role_named(old(self)@, new_name@)
                && find_role_by_name(old(self)@, new_name@)->Some_0.id != id) ==> r is Ok,
            r is Err ==> final(self)@ == old(self)@,
            r is Ok ==> {
                let k = role_index(old(self)@, id);
                let renamed = final(self)@.roles[k];
                &&& role_exists(old(self)@, id)
                &&& final(self)@ == (RbacState {
                    roles: old(self)@.roles.update(k, renamed),
                    ..old(self)@
                })
                &&& renamed.name@ == new_name@
                &&& renamed.id == id
                &&& renamed.description == old(self)@.roles[k].description
                &&& renamed.created_at == old(self)@.roles[k].created_at
                &&& renamed.updated_at == now
            },
    {
        let k = match self.role_position(id) {
            Some(k) => k,
            None => {
                return Err(ServiceError::NotFound);
            },
        };
        if let Some(j) = self.role_name_position(new_name) {
            if j != k {
                return Err(ServiceError::Conflict);
            }
        }
        proof {
            assert(role_index(self@, id) == k);
        }
        let mut role = self.roles[k].duplicate();
        role.name = new_name.to_owned();
        role.updated_at = now;
        let ghost before = self@.roles;
        self.roles.set(k, role);
        proof {
            assert forall|j: int| 0 <= j < before.len() && j != k implies before[j].name@
                != new_name@ by {
                if before[j].name@ == new_name@ {
                    assert(role_named(old(self)@, new_name@));
                }
            }
            assert(self@.permissions == old(self)@.permissions);
        }
        Ok(())
    }

    /// Renames permission `id` to `new_name` at `now`. An absent permission is
    /// not found; a name that another permission has is a conflict.
    pub fn update_permission(&mut self, id: u128, new_name: &str, now: i64) -> (r: Result<
        (),
        ServiceError,
    >)
        requires
            old(self).wf(),
        ensures
            final(self).wf(),
            !permission_exists(old(self)@, id) ==> r == Err::<(), ServiceError>(
                ServiceError::NotFound,
            ),
            permission_exists(old(self)@, id) && permission_named(old(self)@, new_name@)
                && find_permission_by_name(old(self)@, new_name@)->Some_0.id != id ==> r == Err::<
                (),
                ServiceError,
            >(ServiceError::Conflict),
            permission_exists(old(self)@, id) && !(permission_named(old(self)@, new_name@)
                && find_permission_by_name(old(self)@, new_name@)->Some_0.id != id) ==> r is Ok,
            r is Err ==> final(self)@ == old(self)@,
            r is Ok ==> {
                let k = permission_index(old(self)@, id);
                let renamed = final(self)@.permissions[k];
                &&& permission_exists(old(self)@, id)
                &&& final(self)@ == (RbacState {
                    permissions: old(self)@.permissions.update(k, renamed),
                    ..old(self)@
                })
                &&& renamed.name@ == new_name@
                &&& renamed.id == id
                &&& renamed.description == old(self)@.permissions[k].description
                &&& renamed.created_at == old(self)@.permissions[k].created_at
                &&& renamed.updated_at == now
            },
    {
        let k = match self.permission_position(id) {
            Some(k) => k,
            None => {
                return Err(ServiceError::NotFound);
            },
        };
        if let Some(j) = self.permission_name_position(new_name) {
            if j != k {
                return Err(ServiceError::Conflict);
            }
        }
        proof {
            assert(permission_index(self@, id) == k);
        }
        let mut permission = self.permissions[k].duplicate();
        permission.name = new_name.to_owned();
        permission.updated_at = now;
        let ghost before = self@.permissions;
        self.permissions.set(k, permission);
        proof {
            assert forall|j: int| 0 <= j < before.len() && j != k implies before[j].name@
                != new_name@ by {
                if before[j].name@ == new_name@ {
                    assert(permission_named(old(self)@, new_name@));
                }
            }
            assert(self@.roles == old(self)@.roles);
        }
        Ok(())
    }

    /// The role with id `id`; an absent role is not found.
    pub fn get_role(&self, id: u128) -> (r: Result<Role, ServiceError>)
        requires
            self.wf(),
        ensures
            !role_exists(self@, id) ==> r == Err::<Role, ServiceError>(ServiceError::NotFound),
            role_exists(self@, id) ==> r == Ok::<Role, ServiceError>(
                self@.roles[role_index(self@, id)],
            ),
    {
        match self.role_position(id) {
            Some(k) => {
                proof {
                    assert(role_index(self@, id) == k);
                }
                Ok(self.roles[k].duplicate())
            },
            None => Err(ServiceError::NotFound),
        }
    }

    /// The permissions linked to role `role_id`, in the order in which they
    /// were created. An absent role is not found.
    pub fn get_role_permissions(&self, role_id: u128) -> (r: Result<Vec<Permission>, ServiceError>)
        ensures
            !role_exists(self@, role_id) ==> r == Err::<Vec<Permission>, ServiceError>(
                ServiceError::NotFound,
            ),
            role_exists(self@, role_id) ==> r is Ok && r->Ok_0@ == self@.permissions.filter(
                linked_to(self@, role_id),
            ),
    {
        if self.role_position(role_id).is_none() {
            return Err(ServiceError::NotFound);
        }
        let ghost keep = linked_to(self@, role_id);
        let mut out: Vec<Permission> = Vec::new();
        let mut i: usize = 0;
        while i < self.permissions.len()
            invariant
                keep == linked_to(self@, role_id),
                i <= self@.permissions.len(),
                out@ == self@.permissions.take(i as int).filter(keep),
            decreases self@.permissions.len() - i,
        {
            proof {
                assert(self@.permissions.take(i as int + 1) =~= self@.permissions.take(
                    i as int,
                ).push(self@.permissions[i as int]));
                self@.permissions.take(i as int).lemma_filter_push(
                    self@.permissions[i as int],
                    keep,
                );
            }
            if edge_in(&self.role_permissions, (role_id, self.permissions[i].id)) {
                out.push(self.permissions[i].duplicate());
            }
            i += 1;
        }
        proof {
            assert(self@.permissions.take(self@.permissions.len() as int) =~= self@.permissions);
        }
        Ok(out)
    }
}

} // verus!
