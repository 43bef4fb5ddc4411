//! Properties that relate several operations of the core.
use crate::authorization_repository::{
    after_assign_role, after_revoke_role, effective_permissions, other_than, RbacState,
};
use crate::authentication_service::{is_rejection, LoginResponse};
use crate::models::Session;
use crate::session_repository::{
    find_session, holds_session, rows_wf, saved, session_valid, swept, touch_valid, Sweep,
};
use vstd::prelude::*;

verus! {

broadcast use vstd::seq_lib::group_filter_ensures;

/// A sweep that keeps the row of `id` leaves that row as it was.
proof fn lemma_swept_keeps_row(rows: Seq<Session>, sweep: Sweep, id: u128)
    requires
        rows_wf(rows),
        holds_session(rows, id),
        sweep.keeps(find_session(rows, id)->Some_0),
    ensures
        find_session(swept(rows, sweep), id) == find_session(rows, id),
{
    let k = choose|i: int| 0 <= i < rows.len() && rows[i].session_id == id;
    let out = swept(rows, sweep);
    rows.lemma_filter_contains(sweep.keeper(), k);
    assert(out.contains(rows[k]));
    let m = choose|m: int| 0 <= m < out.len() && out[m] == rows[k];
    assert(holds_session(out, id));
    let j = choose|j: int| 0 <= j < out.len() && out[j].session_id == id;
    assert(out.contains(out[j]));
    rows.lemma_filter_contains_rev(sweep.keeper(), out[j]);
    let n = choose|n: int| 0 <= n < rows.len() && rows[n] == out[j];
    assert(n == k);
}

/// Once session `id` has been deleted (as logout does), validating it fails
/// at every instant.
pub proof fn lemma_logout_invalidates(rows: Seq<Session>, id: u128, now: i64)
    ensures
        !session_valid(swept(rows, Sweep::Session(id)), id, now),
{
    let out = swept(rows, Sweep::Session(id));
    if holds_session(out, id) {
        let i = choose|i: int| 0 <= i < out.len() && out[i].session_id == id;
        rows.lemma_filter_pred(Sweep::Session(id).keeper(), i);
    }
}

/// A validation of session `id` issued one millisecond before it expires
/// succeeds, and the session stays stored with that access recorded, whether a
/// sweep of expired sessions run at any instant up to that expiry comes
/// before the validation or after it.
pub proof fn lemma_validate_races_reap(rows: Seq<Session>, id: u128, now: i64, reap_at: i64)
    requires
        rows_wf(rows),
        holds_session(rows, id),
        find_session(rows, id)->Some_0.expires_at == now + 1,
        reap_at <= now + 1,
    ensures
        session_valid(swept(rows, Sweep::ExpiredBefore(reap_at)), id, now),
        find_session(swept(rows, Sweep::ExpiredBefore(reap_at)), id) == find_session(rows, id),
        find_session(swept(touch_valid(rows, id, now), Sweep::ExpiredBefore(reap_at)), id)
            == Some(find_session(rows, id)->Some_0.touched(now)),
{
    let k = choose|i: int| 0 <= i < rows.len() && rows[i].session_id == id;
    let sweep = Sweep::ExpiredBefore(reap_at);
    lemma_swept_keeps_row(rows, sweep, id);
    let touched = touch_valid(rows, id, now);
    assert(touched[k].session_id == id);
    assert(rows_wf(touched));
    assert(find_session(touched, id) == Some(touched[k])) by {
        let j = choose|i: int| 0 <= i < touched.len() && touched[i].session_id == id;
        assert(j == k);
    }
    lemma_swept_keeps_row(touched, sweep, id);
}

/// Filtering a sequence whose elements all pass leaves it unchanged.
proof fn lemma_filter_keeps_all<A>(s: Seq<A>, pred: spec_fn(A) -> bool)
    requires
        forall|i: int| 0 <= i < s.len() ==> pred(s[i]),
    ensures
        s.filter(pred) == s,
    decreases s.len(),
{
    reveal(Seq::filter);
    if s.len() > 0 {
        lemma_filter_keeps_all(s.drop_last(), pred);
        assert(s.drop_last().push(s.last()) =~= s);
    }
}

/// Assigning role `role` to `user`, who does not hold it, and then revoking it
/// restores the store exactly, so every user's effective permissions are
/// what they were before the assignment.
pub proof fn lemma_assign_then_revoke_restores(st: RbacState, user: u128, role: u128, anyone: u128)
    requires
        !st.user_roles.contains((user, role)),
    ensures
        after_revoke_role(after_assign_role(st, user, role), user, role) == st,
        effective_permissions(after_revoke_role(after_assign_role(st, user, role), user, role), anyone)
            == effective_permissions(st, anyone),
{
    let edge = (user, role);
    let mid = after_assign_role(st, user, role);
    assert forall|i: int| 0 <= i < st.user_roles.len() implies (other_than(edge))(
        st.user_roles[i],
    ) by {
        assert(st.user_roles.contains(st.user_roles[i]));
    }
    lemma_filter_keeps_all(st.user_roles, other_than(edge));
    if mid.user_roles != st.user_roles {
        st.user_roles.lemma_filter_push(edge, other_than(edge));
    }
    assert(after_revoke_role(mid, user, role).user_roles == st.user_roles);
}

/// A session is invalid at every instant from its expiry on, however its
/// expiry came to lie there: time passed it, or its stored record was
/// overwritten with an earlier one.
pub proof fn lemma_expired_session_invalid(rows: Seq<Session>, s: Session, now: i64, later: i64)
    requires
        s.expires_at <= now,
        now <= later,
    ensures
        !session_valid(saved(rows, s), s.session_id, now),
        !session_valid(saved(rows, s), s.session_id, later),
{
    let out = saved(rows, s);
    if holds_session(out, s.session_id) {
        let i = choose|i: int| 0 <= i < out.len() && out[i].session_id == s.session_id;
        if !holds_session(rows, s.session_id) && i < rows.len() {
            assert(rows[i].session_id == s.session_id);
        }
        assert(out[i] == s);
    }
}

/// Two rejected logins cannot be told apart: an unknown email and a wrong
/// password (both answered by `is_rejection`, see `login`) give the same
/// success flag, message, session and expiry.
pub proof fn lemma_rejections_identical(unknown_email: LoginResponse, wrong_password: LoginResponse)
    requires
        is_rejection(unknown_email),
        is_rejection(wrong_password),
    ensures
        unknown_email.success == wrong_password.success,
        unknown_email.message@ == wrong_password.message@,
        unknown_email.session_id == wrong_password.session_id,
        unknown_email.expires_at == wrong_password.expires_at,
{
}

} // verus!
