//! The credential store: the collection of registered users, with unique
//! e-mails and sequentially assigned ids. Lookups and inserts are specified
//! against `spec_find`, the first (and, by uniqueness, only) record with a
//! given e-mail.

use vstd::prelude::*;

use crate::user::{AuthError, User, UserView};
use crate::MAX_TIME;

verus! {

/// The first user record carrying `email`, if any.
pub open spec fn spec_find(s: Seq<UserView>, email: Seq<char>) -> Option<UserView>
    decreases s.len(),
{
    if s.len() == 0 {
        None
    } else if s[0].email == email {
        Some(s[0])
    } else {
        spec_find(s.skip(1), email)
    }
}

/// When no record carries `email`, every record's e-mail differs from it.
pub proof fn lemma_spec_find_none(s: Seq<UserView>, email: Seq<char>)
    requires
        spec_find(s, email) is None,
    ensures
        forall|i: int| 0 <= i < s.len() ==> (#[trigger] s[i]).email != email,
    decreases s.len(),
{
    if s.len() > 0 {
        lemma_spec_find_none(s.skip(1), email);
        assert forall|i: int| 0 <= i < s.len() implies (#[trigger] s[i]).email != email by {
            if i > 0 {
                assert(s.skip(1)[i - 1] == s[i]);
            }
        }
    }
}

/// A found record sits somewhere in the sequence and carries the e-mail.
pub proof fn lemma_spec_find_some(s: Seq<UserView>, email: Seq<char>)
    requires
        spec_find(s, email) is Some,
    ensures
        exists|i: int|
            0 <= i < s.len() && s[i] == spec_find(s, email)->Some_0 && (#[trigger] s[i]).email
                == email,
    decreases s.len(),
{
    if s.len() > 0 {
        if s[0].email == email {
            assert(s[0].email == email);
        } else {
            lemma_spec_find_some(s.skip(1), email);
            let j = choose|j: int|
                0 <= j < s.skip(1).len() && s.skip(1)[j] == spec_find(s.skip(1), email)->Some_0
                    && (#[trigger] s.skip(1)[j]).email == email;
            assert(s[j + 1] == s.skip(1)[j]);
        }
    }
}

/// Finding after a push: an existing record wins, else the pushed one is
/// found exactly when its e-mail is the one sought.
pub proof fn lemma_spec_find_push(s: Seq<UserView>, u: UserView, email: Seq<char>)
    ensures
        spec_find(s.push(u), email) == if spec_find(s, email) is Some {
            spec_find(s, email)
        } else if u.email == email {
            Some(u)
        } else {
            None
        },
    decreases s.len(),
{
    if s.len() == 0 {
        assert(s.push(u).len() == 1);
        assert(s.push(u)[0] == u);
        assert(s.push(u).skip(1) =~= Seq::<UserView>::empty());
        if u.email != email {
            assert(spec_find(s.push(u).skip(1), email) is None);
        }
    } else {
        assert(s.push(u)[0] == s[0]);
        assert(s.push(u).skip(1) =~= s.skip(1).push(u));
        lemma_spec_find_push(s.skip(1), u, email);
        if s[0].email == email {
            assert(spec_find(s.push(u), email) == Some(s[0]));
            assert(spec_find(s, email) == Some(s[0]));
        } else {
            assert(spec_find(s.push(u), email) == spec_find(s.skip(1).push(u), email));
            assert(spec_find(s, email) == spec_find(s.skip(1), email));
        }
    }
}

/// The store's invariant: ids are the positions plus one (so unique and
/// dense), e-mails are pairwise distinct, timestamps are in range, and the
/// record count leaves room for the next id in an `i32`.
pub open spec fn store_wf(s: Seq<UserView>) -> bool {
    &&& forall|i: int| 0 <= i < s.len() ==> (#[trigger] s[i]).id == i + 1
    &&& forall|i: int, j: int|
        0 <= i < s.len() && 0 <= j < s.len() && i != j ==> (#[trigger] s[i]).email != (
        #[trigger] s[j]).email
    &&& forall|i: int| 0 <= i < s.len() ==> 0 <= (#[trigger] s[i]).created_at <= MAX_TIME
    &&& s.len() < 0x7fff_ffff
}

/// The collection of registered users.
pub struct CredentialStore {
    pub users: Vec<User>,
}

impl View for CredentialStore {
    type V = Seq<UserView>;

    open spec fn view(&self) -> Seq<UserView> {
        self.users@.map_values(|u: User| u@)
    }
}

impl CredentialStore {
    pub open spec fn wf(&self) -> bool {
        store_wf(self@)
    }

    /// An empty store.
    pub fn new() -> (r: Self)
        ensures
            r@ =~= Seq::<UserView>::empty(),
            r.wf(),
    {
        let r = CredentialStore { users: Vec::new() };
        proof {
            assert(r@ =~= Seq::<UserView>::empty());
        }
        r
    }

    /// The number of registered users.
    pub fn len(&self) -> (r: usize)
        ensures
            r == self@.len(),
    {
        self.users.len()
    }

    /// Looks a user up by e-mail; `None` exactly when the e-mail is absent.
    pub fn find_by_email(&self, email: &str) -> (r: Option<User>)
        ensures
            match r {
                Some(u) => spec_find(self@, email@) == Some(u@),
                None => spec_find(self@, email@) is None,
            },
    {
        let email_owned: String = email.to_owned();
        proof {
            assert(self@.skip(0) =~= self@);
        }
        let mut i: usize = 0;
        while i < self.users.len()
            invariant
                email_owned@ == email@,
                0 <= i <= self.users.len(),
                self@.len() == self.users.len(),
                spec_find(self@, email@) == spec_find(self@.skip(i as int), email@),
            decreases self.users.len() - i,
        {
            proof {
                assert(self@.skip(i as int)[0] == self@[i as int]);
                assert(self@[i as int] == self.users@[i as int]@);
            }
            if self.users[i].email == email_owned {
                return Some(self.users[i].clone());
            }
            proof {
                assert(self@.skip(i as int).skip(1) =~= self@.skip(i + 1 as int));
            }
            i = i + 1;
        }
        proof {
            assert(self@.skip(i as int) =~= Seq::<UserView>::empty());
        }
        None
    }

    /// Existence check used to refuse duplicate registrations early.
    pub fn email_exists(&self, email: &str) -> (r: bool)
        ensures
            r == (spec_find(self@, email@) is Some),
    {
        match self.find_by_email(email) {
            Some(_) => true,
            None => false,
        }
    }

    /// Inserts a new user with the next id, refusing a duplicate e-mail.
    /// The duplicate check is the store's own, so a caller that raced past
    /// an earlier existence check still gets a clean conflict.
    pub fn insert(
        &mut self,
        first_name: String,
        last_name: String,
        email: String,
        password_hash: String,
        now: i64,
    ) -> (r: Result<User, AuthError>)
        requires
            old(self).wf(),
            old(self)@.len() < 0x7fff_fffe,
            0 <= now <= MAX_TIME,
        ensures
            final(self).wf(),
            match spec_find(old(self)@, email@) {
                Some(_) => r matches Err(e) && e == AuthError::Conflict && final(self)@ == old(
                    self,
                )@,
                None => r matches Ok(u) && u@ == (UserView {
                    id: old(self)@.len() as int + 1,
                    first_name: first_name@,
                    last_name: last_name@,
                    email: email@,
                    password: password_hash@,
                    created_at: now as int,
                }) && final(self)@ =~= old(self)@.push(u@),
            },
    {
        if self.email_exists(email.as_str()) {
            return Err(AuthError::Conflict);
        }
        let id = (self.users.len() + 1) as i32;
        let u = User {
            id,
            first_name,
            last_name,
            email,
            password: password_hash,
            created_at: now,
        };
        let r = u.clone();
        self.users.push(u);
        proof {
            let s0 = old(self)@;
            let s1 = self@;
            assert(s1 =~= s0.push(r@));
            lemma_spec_find_none(s0, r@.email);
            assert forall|i: int| 0 <= i < s1.len() implies (#[trigger] s1[i]).id == i + 1 by {
                if i < s0.len() {
                    assert(s1[i] == s0[i]);
                } else {
                    assert(s1[i] == r@);
                }
            }
            assert forall|i: int| 0 <= i < s1.len() implies 0 <= (#[trigger] s1[i]).created_at
                <= MAX_TIME by {
                if i < s0.len() {
                    assert(s1[i] == s0[i]);
                } else {
                    assert(s1[i] == r@);
                }
            }
            assert forall|i: int, j: int|
                0 <= i < s1.len() && 0 <= j < s1.len() && i != j implies (#[trigger] s1[i]).email
                != (#[trigger] s1[j]).email by {
                if i < s0.len() && j < s0.len() {
                    assert(s1[i] == s0[i] && s1[j] == s0[j]);
                } else if i < s0.len() {
                    assert(s1[j] == r@ && s1[i] == s0[i]);
                } else {
                    assert(s1[i] == r@ && s1[j] == s0[j]);
                }
            }
        }
        Ok(r)
    }
}

} // verus!
