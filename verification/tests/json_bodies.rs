use auth_sessions::json::{json_escape, u64_to_dec};
use auth_sessions::session::SessionStore;
use auth_sessions::store::CredentialStore;
use auth_sessions::users_handler::{post_login, post_register, LoginData, RegisterData};
use auth_sessions::validation::{general_error, validate_login, validate_register, validation_errors};

#[test]
fn decimal_rendering() {
    assert_eq!(u64_to_dec(0), "0");
    assert_eq!(u64_to_dec(7), "7");
    assert_eq!(u64_to_dec(10), "10");
    assert_eq!(u64_to_dec(1234567890123456789), "1234567890123456789");
    assert_eq!(u64_to_dec(u64::MAX), "18446744073709551615");
}

#[test]
fn json_string_escaping() {
    assert_eq!(json_escape("plain"), "plain");
    assert_eq!(json_escape("a\"b"), "a\\\"b");
    assert_eq!(json_escape("a\\b"), "a\\\\b");
    assert_eq!(json_escape("a\nb"), "a\\u000ab");
    assert_eq!(json_escape("\t"), "\\u0009");
    assert_eq!(json_escape("café"), "café");
}

#[test]
fn general_error_body() {
    assert_eq!(general_error("Session error"), "[{\"message\":\"Session error\"}]");
    assert_eq!(general_error("a \"quoted\" word"), "[{\"message\":\"a \\\"quoted\\\" word\"}]");
}

#[test]
fn validation_lists_every_violation_in_order() {
    let errs = validate_register("A", "B", "notanemail", "short");
    let body = validation_errors(&errs);
    assert_eq!(
        body,
        "[{\"field\":\"firstName\",\"message\":\"First name must be at least 2 characters long\"},\
{\"field\":\"lastName\",\"message\":\"Last name must be at least 2 characters long\"},\
{\"field\":\"email\",\"message\":\"Invalid email format\"},\
{\"field\":\"password\",\"message\":\"Password must be at least 8 characters long\"}]"
    );

    let errs = validate_register("Ann", "Lee", "ann@x.com", "password1");
    assert!(errs.is_empty());
    assert_eq!(validation_errors(&errs), "[]");

    let errs = validate_login("bad", "1234567");
    assert_eq!(
        validation_errors(&errs),
        "[{\"field\":\"email\",\"message\":\"Invalid email format\"},\
{\"field\":\"password\",\"message\":\"Password must be at least 8 characters long\"}]"
    );

    let errs = validate_login("ann@x.com", "12345678");
    assert!(errs.is_empty());
}

#[test]
fn handlers_refuse_malformed_fields() {
    let mut users = CredentialStore::new();
    let mut sessions = SessionStore::new(3600);
    let token = sessions.create(0);

    let data = RegisterData {
        first_name: "A".to_string(),
        last_name: "Lee".to_string(),
        email: "ann@x.com".to_string(),
        password: "pw".to_string(),
    };
    let r = post_register(&mut users, &mut sessions, token, &data, 1);
    assert_eq!(r.status, 400);
    assert_eq!(
        r.body,
        "[{\"field\":\"firstName\",\"message\":\"First name must be at least 2 characters long\"},\
{\"field\":\"password\",\"message\":\"Password must be at least 8 characters long\"}]"
    );
    assert_eq!(users.len(), 0);

    let data = LoginData { email: "not an email".to_string(), password: "password1".to_string() };
    let r = post_login(&users, &mut sessions, token, &data, 2);
    assert_eq!(r.status, 400);
    assert_eq!(r.body, "[{\"field\":\"email\",\"message\":\"Invalid email format\"}]");
}

#[test]
fn registered_names_are_escaped_in_the_body() {
    let mut users = CredentialStore::new();
    let mut sessions = SessionStore::new(3600);
    let token = sessions.create(0);

    let data = RegisterData {
        first_name: "A\"B".to_string(),
        last_name: "C\\D".to_string(),
        email: "esc@x.com".to_string(),
        password: "password1".to_string(),
    };
    let r = post_register(&mut users, &mut sessions, token, &data, 3);
    assert_eq!(r.status, 201);
    assert_eq!(
        r.body,
        "{\"id\":1,\"firstName\":\"A\\\"B\",\"lastName\":\"C\\\\D\",\"email\":\"esc@x.com\",\"createdAt\":3}"
    );
}
