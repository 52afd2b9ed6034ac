//! The library's cross-cutting guarantees, each proved once and for all
//! over the same specification functions the executable contracts use.

use vstd::prelude::*;

use crate::password::password_verifies;
use crate::session::{
    delete_effect, delete_pred, has_token, lemma_filter_idempotent, lemma_filter_membership,
    lemma_sess_find_index, lemma_sess_find_unique, live_pred, reap_effect, resolve_outcome,
    sess_find, set_auth_user_effect, SessionRecordView,
};
use crate::store::{lemma_spec_find_push, spec_find};
use crate::user::{login_outcome, user_json_of, UserView};

verus! {

/// Registration succeeds exactly once per e-mail: once a record carrying
/// the e-mail is stored (the successful branch of `post_register` pushes
/// it), any later registration of the same e-mail finds that record, which
/// is precisely the condition under which `post_register` answers with a
/// conflict instead of a second success.
pub proof fn lemma_register_once(users: Seq<UserView>, u: UserView)
    requires
        spec_find(users, u.email) is None,
    ensures
        spec_find(users.push(u), u.email) == Some(u),
{
    lemma_spec_find_push(users, u, u.email);
}

/// The serialized form of a user never carries the password hash: the
/// outward JSON is a function of the public fields alone, so two users
/// differing only in the stored hash serialize identically.
pub proof fn lemma_user_json_excludes_password(u1: UserView, u2: UserView)
    requires
        u1.id == u2.id,
        u1.first_name == u2.first_name,
        u1.last_name == u2.last_name,
        u1.email == u2.email,
        u1.created_at == u2.created_at,
    ensures
        user_json_of(u1) == user_json_of(u2),
{
}

/// An unknown e-mail and a wrong password are one and the same failure:
/// both make `login_outcome` `None`, and `post_login` has a single `None`
/// branch, so both get the identical status and generic message.
pub proof fn lemma_login_uniform_failure(
    users: Seq<UserView>,
    unknown_email: Seq<char>,
    p1: Seq<char>,
    known_email: Seq<char>,
    p2: Seq<char>,
)
    requires
        spec_find(users, unknown_email) is None,
        match spec_find(users, known_email) {
            Some(u) => !password_verifies(p2, u.password),
            None => false,
        },
    ensures
        login_outcome(users, unknown_email, p1) is None,
        login_outcome(users, known_email, p2) is None,
{
}

/// A session whose last activity lies a full TTL in the past is refused by
/// the identity resolver even if the reaper has not run yet; and once the
/// reaper sweeps, the record itself is gone from the store.
pub proof fn lemma_stale_session_rejected(
    s: Seq<SessionRecordView>,
    ttl: int,
    token: u64,
    now: int,
)
    requires
        forall|i: int, j: int|
            0 <= i < s.len() && 0 <= j < s.len() && i != j ==> (#[trigger] s[i]).token != (
            #[trigger] s[j]).token,
        match sess_find(s, token) {
            Some(r) => now >= r.last_activity + ttl,
            None => true,
        },
    ensures
        resolve_outcome(s, ttl, token, now) is None,
        !has_token(reap_effect(s, ttl, now), token),
{
    let pred = live_pred(ttl, now);
    let f = reap_effect(s, ttl, now);
    lemma_sess_find_index(f, token);
    if has_token(f, token) {
        let fr = sess_find(f, token)->Some_0;
        let i = choose|i: int| 0 <= i < f.len() && f[i] == fr && (#[trigger] f[i]).token == token;
        lemma_filter_membership(s, pred);
        assert(s.contains(f[i]));
        let k = choose|k: int| 0 <= k < s.len() && s[k] == f[i];
        s.lemma_filter_pred(pred, i);
        assert(pred(s[k]));
        lemma_sess_find_index(s, token);
        match sess_find(s, token) {
            Some(r) => {
                let j = choose|j: int|
                    0 <= j < s.len() && s[j] == r && (#[trigger] s[j]).token == token;
                if j != k {
                    assert(s[j].token != s[k].token);
                }
                assert(false);
            },
            None => {
                assert(s[k].token != token);
                assert(false);
            },
        }
    }
}

/// Logout is idempotent: deleting a token's record twice leaves exactly
/// the store a single deletion leaves, and `logout` reports success (204)
/// unconditionally either time.
pub proof fn lemma_logout_idempotent(s: Seq<SessionRecordView>, token: u64)
    ensures
        delete_effect(delete_effect(s, token), token) == delete_effect(s, token),
{
    lemma_filter_idempotent(s, delete_pred(token));
}

/// Once login (or registration) sets the `auth_user` attribute of a
/// session, the identity resolver hands back exactly that user for as long
/// as the session stays within its inactivity TTL.
pub proof fn lemma_login_session_resolves(
    s: Seq<SessionRecordView>,
    ttl: int,
    token: u64,
    u: UserView,
    now: int,
    later: int,
)
    requires
        forall|i: int, j: int|
            0 <= i < s.len() && 0 <= j < s.len() && i != j ==> (#[trigger] s[i]).token != (
            #[trigger] s[j]).token,
        later < now + ttl,
    ensures
        resolve_outcome(set_auth_user_effect(s, token, u, now), ttl, token, later) == Some(u),
{
    let e = set_auth_user_effect(s, token, u, now);
    lemma_sess_find_index(s, token);
    if has_token(s, token) {
        let r = sess_find(s, token)->Some_0;
        let k = choose|k: int| 0 <= k < s.len() && s[k] == r && (#[trigger] s[k]).token == token;
        assert(e[k].token == token && e[k].auth_user == Some(u) && e[k].last_activity == now);
        assert forall|i: int, j: int|
            0 <= i < e.len() && 0 <= j < e.len() && i != j implies (#[trigger] e[i]).token != (
        #[trigger] e[j]).token by {
            assert(e[i].token == s[i].token && e[j].token == s[j].token);
        }
        lemma_sess_find_unique(e, token, k);
    } else {
        let k = s.len() as int;
        assert(e[k].token == token && e[k].auth_user == Some(u) && e[k].last_activity == now);
        assert forall|i: int, j: int|
            0 <= i < e.len() && 0 <= j < e.len() && i != j implies (#[trigger] e[i]).token != (
        #[trigger] e[j]).token by {
            if i < s.len() && j < s.len() {
                assert(e[i] == s[i] && e[j] == s[j]);
            } else if i < s.len() {
                assert(e[i] == s[i] && e[j] == e[k]);
            } else {
                assert(e[j] == s[j] && e[i] == e[k]);
            }
        }
        lemma_sess_find_unique(e, token, k);
    }
}

/// Round trip: the hash stored by registration verifies the registered
/// password, so logging in with the registration credentials resolves to
/// exactly the record registration created — the same user id.
pub proof fn lemma_register_login_round_trip(
    users: Seq<UserView>,
    u: UserView,
    password: Seq<char>,
)
    requires
        spec_find(users, u.email) is None,
        password_verifies(password, u.password),
    ensures
        login_outcome(users.push(u), u.email, password) == Some(u),
{
    lemma_spec_find_push(users, u, u.email);
}

} // verus!
