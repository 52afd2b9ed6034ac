//! The request-level operations: register, login, logout, and the current
//! user behind a session token. Each returns a status code and a JSON body
//! pinned exactly by its contract; the HTTP wiring around them is plain
//! plumbing and stays outside the library.

use vstd::prelude::*;

use crate::session::{
    delete_effect, lemma_sess_find_index, resolve_outcome, set_auth_user_effect, touch_effect,
    SessionStore,
};
use crate::store::{lemma_spec_find_some, spec_find, CredentialStore};
use crate::user::{login_outcome, user_json, user_json_of, User};
use crate::validation::{
    errors_json_of, general_error, general_error_of, login_violations, register_violations,
    validate_login, validate_register, validation_errors,
};
use crate::MAX_TIME;

verus! {

/// A login request's fields.
pub struct LoginData {
    pub email: String,
    pub password: String,
}

/// A registration request's fields.
pub struct RegisterData {
    pub first_name: String,
    pub last_name: String,
    pub email: String,
    pub password: String,
}

/// What an operation hands back to the HTTP layer: a status code and the
/// JSON body (empty for bodyless responses).
pub struct ApiResponse {
    pub status: u16,
    pub body: String,
}

/// Login. Malformed fields are refused with every violation listed (400);
/// an unknown e-mail and a wrong password get one and the same answer
/// (401, a generic message); on success the session under `token` becomes
/// authenticated and the user is returned without the password hash (200).
pub fn post_login(
    store: &CredentialStore,
    sessions: &mut SessionStore,
    token: u64,
    data: &LoginData,
    now: i64,
) -> (r: ApiResponse)
    requires
        store.wf(),
        old(sessions).wf(),
        token < u64::MAX,
        0 <= now <= MAX_TIME,
    ensures
        final(sessions).wf(),
        final(sessions).ttl == old(sessions).ttl,
        ({
            let errs = login_violations(data.email@, data.password@);
            if errs.len() > 0 {
                r.status == 400 && r.body@ == errors_json_of(errs) && final(sessions)@ == old(sessions)@
            } else {
                match login_outcome(store@, data.email@, data.password@) {
                    Some(u) => r.status == 200 && r.body@ == user_json_of(u) && final(sessions)@
                        =~= set_auth_user_effect(old(sessions)@, token, u, now as int),
                    None => r.status == 401 && r.body@ == general_error_of("Invalid Credentials"@)
                        && final(sessions)@ == old(sessions)@,
                }
            }
        }),
{
    let errs = validate_login(data.email.as_str(), data.password.as_str());
    if errs.len() > 0 {
        return ApiResponse { status: 400, body: validation_errors(&errs) };
    }
    match User::login(store, data) {
        Ok(user) => {
            proof {
                lemma_spec_find_some(store@, data.email@);
                let i = choose|i: int|
                    0 <= i < store@.len() && store@[i] == spec_find(store@, data.email@)->Some_0
                        && (#[trigger] store@[i]).email == data.email@;
                assert(store@[i].id == i + 1);
            }
            sessions.set_auth_user(token, &user, now);
            ApiResponse { status: 200, body: user_json(&user) }
        },
        Err(_) => ApiResponse { status: 401, body: general_error("Invalid Credentials") },
    }
}

/// Registration. Malformed fields are refused with every violation listed
/// (400); a taken e-mail is a conflict (409); otherwise the user is stored
/// under the next id with a hashed password, the session under `token`
/// becomes authenticated, and the user is returned (201).
pub fn post_register(
    store: &mut CredentialStore,
    sessions: &mut SessionStore,
    token: u64,
    data: &RegisterData,
    now: i64,
) -> (r: ApiResponse)
    requires
        old(store).wf(),
        old(store)@.len() < 0x7fff_fffe,
        old(sessions).wf(),
        token < u64::MAX,
        0 <= now <= MAX_TIME,
        data.password@.len() <= 0x3fff_ffff,
    ensures
        final(store).wf(),
        final(sessions).wf(),
        final(sessions).ttl == old(sessions).ttl,
        ({
            let errs = register_violations(
                data.first_name@,
                data.last_name@,
                data.email@,
                data.password@,
            );
            if errs.len() > 0 {
                r.status == 400 && r.body@ == errors_json_of(errs) && final(store)@ == old(store)@
                    && final(sessions)@ == old(sessions)@
            } else if spec_find(old(store)@, data.email@) is Some {
                r.status == 409 && r.body@ == general_error_of("Email already exists"@) && final(store)@ == old(store)@ && final(sessions)@ == old(sessions)@
            } else {
                ({
                    let u = final(store)@.last();
                    r.status == 201 && final(store)@ =~= old(store)@.push(u) && u.id == old(store)@.len() as int + 1 && u.first_name == data.first_name@ && u.last_name
                        == data.last_name@ && u.email == data.email@ && u.created_at == now as int
                        && crate::password::password_verifies(data.password@, u.password)
                        && r.body@ == user_json_of(u) && final(sessions)@
                        =~= set_auth_user_effect(old(sessions)@, token, u, now as int)
                })
            }
        }),
{
    let errs = validate_register(
        data.first_name.as_str(),
        data.last_name.as_str(),
        data.email.as_str(),
        data.password.as_str(),
    );
    if errs.len() > 0 {
        return ApiResponse { status: 400, body: validation_errors(&errs) };
    }
    if User::email_exists(store, data.email.as_str()) {
        return ApiResponse { status: 409, body: general_error("Email already exists") };
    }
    match User::register(store, data, now) {
        Ok(user) => {
            sessions.set_auth_user(token, &user, now);
            ApiResponse { status: 201, body: user_json(&user) }
        },
        Err(_) => ApiResponse { status: 409, body: general_error("Email already exists") },
    }
}

/// Logout: flushes the session under `token` unconditionally. Deleting an
/// absent token is no error, so a second logout succeeds the same way.
pub fn logout(sessions: &mut SessionStore, token: u64) -> (r: ApiResponse)
    requires
        old(sessions).wf(),
    ensures
        final(sessions).wf(),
        final(sessions).ttl == old(sessions).ttl,
        final(sessions).next_token == old(sessions).next_token,
        final(sessions)@ =~= delete_effect(old(sessions)@, token),
        r.status == 204,
        r.body@ == Seq::<char>::empty(),
{
    sessions.delete(token);
    ApiResponse { status: 204, body: String::new() }
}

/// The identity gate every protected operation passes through: resolves
/// the session's user (200) or refuses the request (401, no body). A
/// session stale for the TTL is refused even before the reaper deletes it.
pub fn get_me(sessions: &mut SessionStore, token: u64, now: i64) -> (r: ApiResponse)
    requires
        old(sessions).wf(),
        0 <= now <= MAX_TIME,
    ensures
        final(sessions).wf(),
        final(sessions).ttl == old(sessions).ttl,
        match resolve_outcome(old(sessions)@, old(sessions).ttl as int, token, now as int) {
            Some(u) => r.status == 200 && r.body@ == user_json_of(u) && final(sessions)@
                =~= touch_effect(old(sessions)@, token, now as int),
            None => r.status == 401 && r.body@ == Seq::<char>::empty() && final(sessions)@ == old(sessions)@,
        },
{
    proof {
        lemma_sess_find_index(old(sessions)@, token);
    }
    match sessions.current_user(token, now) {
        Some(user) => ApiResponse { status: 200, body: user_json(&user) },
        None => ApiResponse { status: 401, body: String::new() },
    }
}

} // verus!
