//! The user record and its outward JSON representation. The stored
//! `password` field always holds a hash, never a plaintext password: the
//! only writers run every password through the hasher first, and the
//! outward JSON is built from the public fields alone.

use vstd::prelude::*;

use crate::json::{dec_of, escape_of, json_escape, u64_to_dec};
use crate::password::{generate_hash, password_verifies, verify_password};
use crate::store::{spec_find, CredentialStore};
use crate::users_handler::{LoginData, RegisterData};
use crate::MAX_TIME;

verus! {

/// The failures the auth service itself distinguishes. Login failures are
/// deliberately one variant: an unknown e-mail and a wrong password must
/// be indistinguishable to the caller.
#[derive(Clone, Copy, PartialEq, Eq, Structural, Debug)]
pub enum AuthError {
    /// Bad credentials, or no authenticated session.
    Unauthorized,
    /// The e-mail is already registered.
    Conflict,
}

/// One identity record: unique numeric id, names, unique e-mail
/// (case-sensitive), the password hash, and the creation time in seconds.
pub struct User {
    pub id: i32,
    pub first_name: String,
    pub last_name: String,
    pub email: String,
    pub password: String,
    pub created_at: i64,
}

/// The mathematical image of a `User`: integers and character sequences.
pub struct UserView {
    pub id: int,
    pub first_name: Seq<char>,
    pub last_name: Seq<char>,
    pub email: Seq<char>,
    pub password: Seq<char>,
    pub created_at: int,
}

impl View for User {
    type V = UserView;

    open spec fn view(&self) -> UserView {
        UserView {
            id: self.id as int,
            first_name: self.first_name@,
            last_name: self.last_name@,
            email: self.email@,
            password: self.password@,
            created_at: self.created_at as int,
        }
    }
}

impl Clone for User {
    fn clone(&self) -> (r: Self)
        ensures
            r == *self,
    {
        User {
            id: self.id,
            first_name: self.first_name.clone(),
            last_name: self.last_name.clone(),
            email: self.email.clone(),
            password: self.password.clone(),
            created_at: self.created_at,
        }
    }
}

/// The outward JSON for a user. The password hash does not appear: the
/// serialized form is a function of the public fields alone.
pub open spec fn user_json_of(u: UserView) -> Seq<char> {
    "{\"id\":"@ + dec_of(u.id as nat) + ",\"firstName\":\""@ + escape_of(u.first_name)
        + "\",\"lastName\":\""@ + escape_of(u.last_name) + "\",\"email\":\""@ + escape_of(u.email)
        + "\",\"createdAt\":"@ + dec_of(u.created_at as nat) + "}"@
}

/// Builds the outward JSON for a user, matching `user_json_of`.
pub fn user_json(u: &User) -> (r: String)
    requires
        u.id >= 0,
        u.created_at >= 0,
    ensures
        r@ == user_json_of(u@),
{
    let mut r = String::new();
    r.append("{\"id\":");
    r.append(u64_to_dec(u.id as u64).as_str());
    r.append(",\"firstName\":\"");
    r.append(json_escape(u.first_name.as_str()).as_str());
    r.append("\",\"lastName\":\"");
    r.append(json_escape(u.last_name.as_str()).as_str());
    r.append("\",\"email\":\"");
    r.append(json_escape(u.email.as_str()).as_str());
    r.append("\",\"createdAt\":");
    r.append(u64_to_dec(u.created_at as u64).as_str());
    r.append("}");
    proof {
        assert(r@ =~= user_json_of(u@));
    }
    r
}

/// Whom a login attempt resolves to: the user stored under the e-mail,
/// provided the password verifies against that user's hash. An unknown
/// e-mail and a wrong password are both `None` — one outcome, so the two
/// cannot be told apart.
pub open spec fn login_outcome(
    users: Seq<UserView>,
    email: Seq<char>,
    password: Seq<char>,
) -> Option<UserView> {
    match spec_find(users, email) {
        Some(u) => if password_verifies(password, u.password) {
            Some(u)
        } else {
            None
        },
        None => None,
    }
}

impl User {
    /// Authenticates by e-mail and password against the stored records.
    pub fn login(store: &CredentialStore, data: &LoginData) -> (r: Result<User, AuthError>)
        ensures
            match login_outcome(store@, data.email@, data.password@) {
                Some(u) => r matches Ok(x) && x@ == u,
                None => r matches Err(e) && e == AuthError::Unauthorized,
            },
    {
        match store.find_by_email(data.email.as_str()) {
            Some(u) => {
                if verify_password(data.password.as_str(), u.password.as_str()) {
                    Ok(u)
                } else {
                    Err(AuthError::Unauthorized)
                }
            },
            None => Err(AuthError::Unauthorized),
        }
    }

    /// Registers a new user: refuses a taken e-mail as a conflict, hashes
    /// the password, and stores the record under the next id. The store's
    /// own uniqueness check guards the insert, so a duplicate arriving
    /// between check and insert would still surface as a conflict.
    pub fn register(store: &mut CredentialStore, data: &RegisterData, now: i64) -> (r: Result<
        User,
        AuthError,
    >)
        requires
            old(store).wf(),
            old(store)@.len() < 0x7fff_fffe,
            0 <= now <= MAX_TIME,
            data.password@.len() <= 0x3fff_ffff,
        ensures
            final(store).wf(),
            match spec_find(old(store)@, data.email@) {
                Some(_) => r matches Err(e) && e == AuthError::Conflict && final(store)@ == old(
                    store,
                )@,
                None => r matches Ok(u) && u@.id == old(store)@.len() as int + 1 && u@.first_name
                    == data.first_name@ && u@.last_name == data.last_name@ && u@.email
                    == data.email@ && u@.created_at == now as int && password_verifies(
                    data.password@,
                    u@.password,
                ) && final(store)@ =~= old(store)@.push(u@),
            },
    {
        if store.email_exists(data.email.as_str()) {
            return Err(AuthError::Conflict);
        }
        let hashed_password = generate_hash(data.password.as_str());
        match store.insert(
            data.first_name.clone(),
            data.last_name.clone(),
            data.email.clone(),
            hashed_password,
            now,
        ) {
            Ok(u) => Ok(u),
            Err(_) => Err(AuthError::Conflict),
        }
    }

    /// Whether some user is registered under `email`.
    pub fn email_exists(store: &CredentialStore, email: &str) -> (r: bool)
        ensures
            r == (spec_find(store@, email@) is Some),
    {
        store.email_exists(email)
    }
}

} // verus!
