use auth_sessions::session::SessionStore;
use auth_sessions::store::CredentialStore;
use auth_sessions::user::User;
use auth_sessions::users_handler::{get_me, logout, post_login, post_register, LoginData, RegisterData};

fn reg(first: &str, last: &str, email: &str, password: &str) -> RegisterData {
    RegisterData {
        first_name: first.to_string(),
        last_name: last.to_string(),
        email: email.to_string(),
        password: password.to_string(),
    }
}

fn login(email: &str, password: &str) -> LoginData {
    LoginData { email: email.to_string(), password: password.to_string() }
}

#[test]
fn register_login_me_logout_scenario() {
    let mut users = CredentialStore::new();
    let mut sessions = SessionStore::new(86400);
    let token = sessions.create(0);

    let r = post_register(&mut users, &mut sessions, token, &reg("Ann", "Lee", "ann@x.com", "password1"), 100);
    assert_eq!(r.status, 201);
    assert_eq!(
        r.body,
        "{\"id\":1,\"firstName\":\"Ann\",\"lastName\":\"Lee\",\"email\":\"ann@x.com\",\"createdAt\":100}"
    );

    let r = post_login(&users, &mut sessions, token, &login("ann@x.com", "wrongpass"), 200);
    assert_eq!(r.status, 401);
    assert_eq!(r.body, "[{\"message\":\"Invalid Credentials\"}]");

    let r = post_login(&users, &mut sessions, token, &login("ann@x.com", "password1"), 300);
    assert_eq!(r.status, 200);
    assert_eq!(
        r.body,
        "{\"id\":1,\"firstName\":\"Ann\",\"lastName\":\"Lee\",\"email\":\"ann@x.com\",\"createdAt\":100}"
    );

    let r = get_me(&mut sessions, token, 400);
    assert_eq!(r.status, 200);
    assert_eq!(
        r.body,
        "{\"id\":1,\"firstName\":\"Ann\",\"lastName\":\"Lee\",\"email\":\"ann@x.com\",\"createdAt\":100}"
    );

    let r = logout(&mut sessions, token);
    assert_eq!(r.status, 204);
    assert_eq!(r.body, "");

    let r = get_me(&mut sessions, token, 500);
    assert_eq!(r.status, 401);
    assert_eq!(r.body, "");
}

#[test]
fn register_round_trip_same_id() {
    let mut users = CredentialStore::new();
    let mut sessions = SessionStore::new(3600);
    let token = sessions.create(0);

    let r1 = post_register(&mut users, &mut sessions, token, &reg("Bo", "Yun", "bo@x.com", "longenough"), 1);
    assert_eq!(r1.status, 201);
    let r2 = post_login(&users, &mut sessions, token, &login("bo@x.com", "longenough"), 2);
    assert_eq!(r2.status, 200);
    assert_eq!(r1.body, r2.body);
    assert!(r2.body.starts_with("{\"id\":1,"));
}

#[test]
fn duplicate_email_conflicts() {
    let mut users = CredentialStore::new();
    let mut sessions = SessionStore::new(3600);
    let token = sessions.create(0);

    let r = post_register(&mut users, &mut sessions, token, &reg("Ann", "Lee", "ann@x.com", "password1"), 1);
    assert_eq!(r.status, 201);
    let r = post_register(&mut users, &mut sessions, token, &reg("Ann", "Lee", "ann@x.com", "password1"), 2);
    assert_eq!(r.status, 409);
    assert_eq!(r.body, "[{\"message\":\"Email already exists\"}]");
    assert_eq!(users.len(), 1);
}

#[test]
fn unknown_email_and_wrong_password_are_indistinguishable() {
    let mut users = CredentialStore::new();
    let mut sessions = SessionStore::new(3600);
    let token = sessions.create(0);

    let r = post_register(&mut users, &mut sessions, token, &reg("Ann", "Lee", "ann@x.com", "password1"), 1);
    assert_eq!(r.status, 201);

    let unknown = post_login(&users, &mut sessions, token, &login("who@x.com", "password1"), 2);
    let wrong = post_login(&users, &mut sessions, token, &login("ann@x.com", "password2"), 3);
    assert_eq!(unknown.status, 401);
    assert_eq!(wrong.status, 401);
    assert_eq!(unknown.body, wrong.body);
}

#[test]
fn serialized_user_excludes_password_hash() {
    let mut users = CredentialStore::new();
    let mut sessions = SessionStore::new(3600);
    let token = sessions.create(0);

    let r = post_login(&users, &mut sessions, token, &login("ann@x.com", "password1"), 1);
    assert_eq!(r.status, 401);

    let r = post_register(&mut users, &mut sessions, token, &reg("Ann", "Lee", "ann@x.com", "password1"), 1);
    assert_eq!(r.status, 201);
    let r = post_login(&users, &mut sessions, token, &login("ann@x.com", "password1"), 2);
    assert_eq!(r.status, 200);
    assert!(!r.body.contains("password"));
    let stored_hash = users.users[0].password.clone();
    assert!(!stored_hash.is_empty());
    assert!(!r.body.contains(&stored_hash));
    // the stored field holds a hash, not the plaintext
    assert_ne!(stored_hash, "password1");
}

#[test]
fn stale_session_rejected_then_reaped() {
    let mut users = CredentialStore::new();
    let mut sessions = SessionStore::new(86400);
    let token = sessions.create(0);

    let r = post_register(&mut users, &mut sessions, token, &reg("Ann", "Lee", "ann@x.com", "password1"), 0);
    assert_eq!(r.status, 201);

    // just inside the TTL: resolved, and the activity slides forward
    let r = get_me(&mut sessions, token, 86399);
    assert_eq!(r.status, 200);

    // a full TTL after the touch: rejected even though the record remains
    let r = get_me(&mut sessions, token, 86399 + 86400);
    assert_eq!(r.status, 401);
    assert_eq!(sessions.sessions.len(), 1);

    // the reaper removes the record itself
    sessions.reap_expired(86399 + 86400);
    assert_eq!(sessions.sessions.len(), 0);
    let r = get_me(&mut sessions, token, 86399 + 86400);
    assert_eq!(r.status, 401);
}

#[test]
fn reaper_keeps_live_sessions() {
    let mut users = CredentialStore::new();
    let mut sessions = SessionStore::new(100);
    let t1 = sessions.create(0);
    let t2 = sessions.create(0);
    assert_ne!(t1, t2);

    let r = post_register(&mut users, &mut sessions, t2, &reg("Ann", "Lee", "ann@x.com", "password1"), 90);
    assert_eq!(r.status, 201);

    // t1 idle since 0 is stale at 150; t2 active at 90 is still live
    sessions.reap_expired(150);
    assert_eq!(sessions.sessions.len(), 1);
    assert_eq!(get_me(&mut sessions, t2, 150).status, 200);
    assert_eq!(get_me(&mut sessions, t1, 150).status, 401);
}

#[test]
fn logout_is_idempotent() {
    let mut sessions = SessionStore::new(3600);
    let token = sessions.create(0);

    let r1 = logout(&mut sessions, token);
    assert_eq!(r1.status, 204);
    assert_eq!(r1.body, "");
    let r2 = logout(&mut sessions, token);
    assert_eq!(r2.status, 204);
    assert_eq!(r2.body, "");
    assert_eq!(sessions.sessions.len(), 0);
}

#[test]
fn anonymous_session_is_unauthorized() {
    let mut sessions = SessionStore::new(3600);
    let token = sessions.create(0);
    let r = get_me(&mut sessions, token, 1);
    assert_eq!(r.status, 401);
    // the anonymous record itself is kept
    assert_eq!(sessions.sessions.len(), 1);
}

#[test]
fn unknown_token_is_unauthorized() {
    let mut sessions = SessionStore::new(3600);
    let r = get_me(&mut sessions, 77, 1);
    assert_eq!(r.status, 401);
    assert_eq!(sessions.sessions.len(), 0);
}

#[test]
fn direct_model_calls_match_handlers() {
    let mut users = CredentialStore::new();
    assert!(!User::email_exists(&users, "ann@x.com"));
    let data = reg("Ann", "Lee", "ann@x.com", "password1");
    let u = User::register(&mut users, &data, 5).unwrap();
    assert_eq!(u.id, 1);
    assert_eq!(u.created_at, 5);
    assert!(User::email_exists(&users, "ann@x.com"));
    let second = User::register(&mut users, &data, 6);
    assert!(second.is_err());

    let found = users.find_by_email("ann@x.com").unwrap();
    assert_eq!(found.id, 1);
    assert!(users.find_by_email("who@x.com").is_none());

    let ok = User::login(&users, &login("ann@x.com", "password1"));
    assert_eq!(ok.unwrap().id, 1);
    let bad = User::login(&users, &login("ann@x.com", "password2"));
    assert!(bad.is_err());
}
