//! Field validation and the error bodies the service hands outward. Every
//! violated field is reported, not just the first, in declaration order
//! with camelCase field names. The e-mail well-formedness check is the
//! `validator` crate's HTML5 check, named `is_valid_email` here.

use vstd::prelude::*;

use crate::json::{escape_of, json_escape};

verus! {

/// Whether the `validator` crate accepts `s` as a well-formed e-mail
/// address. The check is a pure function of the characters, so it gets a
/// name; which strings pass is not further specified.
pub uninterp spec fn is_valid_email(s: Seq<char>) -> bool;

/// Relies on `validator::ValidateEmail` for `&str` (the HTML5 e-mail
/// check): the result depends on the characters alone.
#[verifier::external_body]
pub(crate) fn check_email(s: &str) -> (r: bool)
    ensures
        r == is_valid_email(s@),
{
    validator::ValidateEmail::validate_email(&s)
}

/// One reported violation: the camelCase field name and its message.
pub struct MyError {
    pub field: String,
    pub message: String,
}

/// The mathematical image of a `MyError`.
pub struct MyErrorView {
    pub field: Seq<char>,
    pub message: Seq<char>,
}

impl View for MyError {
    type V = MyErrorView;

    open spec fn view(&self) -> MyErrorView {
        MyErrorView { field: self.field@, message: self.message@ }
    }
}

/// The violations of a login request, in field order: a malformed e-mail,
/// then a password shorter than eight characters.
pub open spec fn login_violations(email: Seq<char>, password: Seq<char>) -> Seq<MyErrorView> {
    (if !is_valid_email(email) {
        seq![MyErrorView { field: "email"@, message: "Invalid email format"@ }]
    } else {
        Seq::empty()
    }) + (if password.len() < 8 {
        seq![
            MyErrorView {
                field: "password"@,
                message: "Password must be at least 8 characters long"@,
            },
        ]
    } else {
        Seq::empty()
    })
}

/// The violations of a registration request, in field order: first and
/// last names shorter than two characters, then the login violations.
pub open spec fn register_violations(
    first_name: Seq<char>,
    last_name: Seq<char>,
    email: Seq<char>,
    password: Seq<char>,
) -> Seq<MyErrorView> {
    (if first_name.len() < 2 {
        seq![
            MyErrorView {
                field: "firstName"@,
                message: "First name must be at least 2 characters long"@,
            },
        ]
    } else {
        Seq::empty()
    }) + (if last_name.len() < 2 {
        seq![
            MyErrorView {
                field: "lastName"@,
                message: "Last name must be at least 2 characters long"@,
            },
        ]
    } else {
        Seq::empty()
    }) + login_violations(email, password)
}

fn my_error(field: &str, message: &str) -> (r: MyError)
    ensures
        r@ == (MyErrorView { field: field@, message: message@ }),
{
    MyError { field: field.to_owned(), message: message.to_owned() }
}

/// Checks a login request's fields, returning every violation.
pub fn validate_login(email: &str, password: &str) -> (r: Vec<MyError>)
    ensures
        r@.map_values(|e: MyError| e@) =~= login_violations(email@, password@),
{
    let mut r: Vec<MyError> = Vec::new();
    if !check_email(email) {
        r.push(my_error("email", "Invalid email format"));
    }
    if password.unicode_len() < 8 {
        r.push(my_error("password", "Password must be at least 8 characters long"));
    }
    r
}

/// Checks a registration request's fields, returning every violation.
pub fn validate_register(first_name: &str, last_name: &str, email: &str, password: &str) -> (r:
    Vec<MyError>)
    ensures
        r@.map_values(|e: MyError| e@) =~= register_violations(
            first_name@,
            last_name@,
            email@,
            password@,
        ),
{
    let mut r: Vec<MyError> = Vec::new();
    if first_name.unicode_len() < 2 {
        r.push(my_error("firstName", "First name must be at least 2 characters long"));
    }
    if last_name.unicode_len() < 2 {
        r.push(my_error("lastName", "Last name must be at least 2 characters long"));
    }
    if !check_email(email) {
        r.push(my_error("email", "Invalid email format"));
    }
    if password.unicode_len() < 8 {
        r.push(my_error("password", "Password must be at least 8 characters long"));
    }
    r
}

/// The JSON for one violation.
pub open spec fn error_json_of(e: MyErrorView) -> Seq<char> {
    "{\"field\":\""@ + escape_of(e.field) + "\",\"message\":\""@ + escape_of(e.message) + "\"}"@
}

/// The comma-separated JSON objects for a list of violations.
pub open spec fn errors_inner_of(errs: Seq<MyErrorView>) -> Seq<char>
    decreases errs.len(),
{
    if errs.len() == 0 {
        Seq::empty()
    } else if errs.len() == 1 {
        error_json_of(errs[0])
    } else {
        errors_inner_of(errs.drop_last()) + ","@ + error_json_of(errs.last())
    }
}

/// The JSON array reported with a failed validation.
pub open spec fn errors_json_of(errs: Seq<MyErrorView>) -> Seq<char> {
    "["@ + errors_inner_of(errs) + "]"@
}

/// Renders a list of violations as a JSON array, matching `errors_json_of`.
pub fn validation_errors(errs: &Vec<MyError>) -> (r: String)
    ensures
        r@ == errors_json_of(errs@.map_values(|e: MyError| e@)),
{
    let ghost views = errs@.map_values(|e: MyError| e@);
    let mut r = String::new();
    r.append("[");
    let mut i: usize = 0;
    while i < errs.len()
        invariant
            views == errs@.map_values(|e: MyError| e@),
            views.len() == errs@.len(),
            0 <= i <= errs.len(),
            r@ == "["@ + errors_inner_of(views.take(i as int)),
        decreases errs.len() - i,
    {
        if i > 0 {
            r.append(",");
        }
        r.append("{\"field\":\"");
        r.append(json_escape(errs[i].field.as_str()).as_str());
        r.append("\",\"message\":\"");
        r.append(json_escape(errs[i].message.as_str()).as_str());
        r.append("\"}");
        proof {
            let pre = views.take(i as int);
            let post = views.take(i + 1 as int);
            assert(post.drop_last() =~= pre);
            assert(post.last() == views[i as int]);
            assert(views[i as int] == errs@[i as int]@);
            assert(r@ =~= "["@ + errors_inner_of(post));
        }
        i = i + 1;
    }
    r.append("]");
    proof {
        assert(views.take(errs@.len() as int) =~= views);
        assert(r@ =~= errors_json_of(views));
    }
    r
}

/// The one-object JSON array used for generic error responses.
pub open spec fn general_error_of(message: Seq<char>) -> Seq<char> {
    "[{\"message\":\""@ + escape_of(message) + "\"}]"@
}

/// Renders a generic error body, matching `general_error_of`.
pub fn general_error(message: &str) -> (r: String)
    ensures
        r@ == general_error_of(message@),
{
    let mut r = String::new();
    r.append("[{\"message\":\"");
    r.append(json_escape(message).as_str());
    r.append("\"}]");
    proof {
        assert(r@ =~= general_error_of(message@));
    }
    r
}

} // verus!
