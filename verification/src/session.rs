//! Server-side sessions keyed by an opaque token, with sliding
//! inactivity-based expiry. A session is stale once `ttl` seconds pass with
//! no activity; `current_user` refuses stale sessions on its own, and the
//! reaper deletes their records in bulk. A record becomes authenticated
//! when the `auth_user` attribute is set after a successful login or
//! registration.

use vstd::prelude::*;

use crate::user::{User, UserView};
use vstd::pervasive::VecAdditionalExecFns;
use crate::MAX_TIME;

verus! {

/// One session record: its token, the `auth_user` attribute once logged
/// in, and the time of the last activity in seconds.
pub struct SessionRecord {
    pub token: u64,
    pub auth_user: Option<User>,
    pub last_activity: i64,
}

/// The mathematical image of a `SessionRecord`.
pub struct SessionRecordView {
    pub token: u64,
    pub auth_user: Option<UserView>,
    pub last_activity: int,
}

impl View for SessionRecord {
    type V = SessionRecordView;

    open spec fn view(&self) -> SessionRecordView {
        SessionRecordView {
            token: self.token,
            auth_user: match self.auth_user {
                Some(u) => Some(u@),
                None => None,
            },
            last_activity: self.last_activity as int,
        }
    }
}

impl Clone for SessionRecord {
    fn clone(&self) -> (r: Self)
        ensures
            r == *self,
    {
        SessionRecord {
            token: self.token,
            auth_user: match &self.auth_user {
                Some(u) => Some(u.clone()),
                None => None,
            },
            last_activity: self.last_activity,
        }
    }
}

/// The first record carrying `token`, if any.
pub open spec fn sess_find(s: Seq<SessionRecordView>, token: u64) -> Option<SessionRecordView>
    decreases s.len(),
{
    if s.len() == 0 {
        None
    } else if s[0].token == token {
        Some(s[0])
    } else {
        sess_find(s.skip(1), token)
    }
}

/// Whether some record carries `token`.
pub open spec fn has_token(s: Seq<SessionRecordView>, token: u64) -> bool {
    sess_find(s, token) is Some
}

/// A found record sits in the sequence; an absent token is on no record.
pub proof fn lemma_sess_find_index(s: Seq<SessionRecordView>, token: u64)
    ensures
        match sess_find(s, token) {
            Some(r) => exists|i: int|
                0 <= i < s.len() && s[i] == r && (#[trigger] s[i]).token == token,
            None => forall|i: int| 0 <= i < s.len() ==> (#[trigger] s[i]).token != token,
        },
    decreases s.len(),
{
    if s.len() > 0 {
        lemma_sess_find_index(s.skip(1), token);
        if s[0].token == token {
        } else {
            match sess_find(s.skip(1), token) {
                Some(r) => {
                    let j = choose|j: int|
                        0 <= j < s.skip(1).len() && s.skip(1)[j] == r && (#[trigger] s.skip(
                            1,
                        )[j]).token == token;
                    assert(s[j + 1] == s.skip(1)[j]);
                },
                None => {
                    assert forall|i: int| 0 <= i < s.len() implies (#[trigger] s[i]).token
                        != token by {
                        if i > 0 {
                            assert(s.skip(1)[i - 1] == s[i]);
                        }
                    }
                },
            }
        }
    }
}

/// With pairwise-distinct tokens, the record found for a token is the one
/// at any index carrying it.
pub proof fn lemma_sess_find_unique(s: Seq<SessionRecordView>, token: u64, i: int)
    requires
        0 <= i < s.len(),
        s[i].token == token,
        forall|k: int, l: int|
            0 <= k < s.len() && 0 <= l < s.len() && k != l ==> (#[trigger] s[k]).token != (
            #[trigger] s[l]).token,
    ensures
        sess_find(s, token) == Some(s[i]),
    decreases s.len(),
{
    if i == 0 {
    } else {
        assert(s[0].token != s[i].token);
        let t = s.skip(1);
        assert(t[i - 1] == s[i]);
        assert forall|k: int, l: int|
            0 <= k < t.len() && 0 <= l < t.len() && k != l implies (#[trigger] t[k]).token != (
        #[trigger] t[l]).token by {
            assert(t[k] == s[k + 1] && t[l] == s[l + 1]);
        }
        lemma_sess_find_unique(t, token, i - 1);
    }
}

/// Every element kept by a filter occurs in the original sequence.
pub proof fn lemma_filter_membership<A>(s: Seq<A>, pred: spec_fn(A) -> bool)
    ensures
        forall|i: int| 0 <= i < s.filter(pred).len() ==> s.contains(#[trigger] s.filter(pred)[i]),
    decreases s.len(),
{
    reveal(Seq::filter);
    if s.len() > 0 {
        let d = s.drop_last();
        lemma_filter_membership(d, pred);
        assert forall|i: int| 0 <= i < s.filter(pred).len() implies s.contains(
            #[trigger] s.filter(pred)[i],
        ) by {
            if i < d.filter(pred).len() {
                assert(s.filter(pred)[i] == d.filter(pred)[i]);
                let j = choose|j: int| 0 <= j < d.len() && d[j] == d.filter(pred)[i];
                assert(s[j] == d[j]);
            } else {
                assert(s.filter(pred)[i] == s.last());
                assert(s[s.len() - 1] == s.last());
            }
        }
    }
}

/// Filtering keeps tokens pairwise distinct.
pub proof fn lemma_filter_distinct_tokens(s: Seq<SessionRecordView>, pred: spec_fn(
    SessionRecordView,
) -> bool)
    requires
        forall|i: int, j: int|
            0 <= i < s.len() && 0 <= j < s.len() && i != j ==> (#[trigger] s[i]).token != (
            #[trigger] s[j]).token,
    ensures
        forall|i: int, j: int|
            0 <= i < s.filter(pred).len() && 0 <= j < s.filter(pred).len() && i != j ==> (
            #[trigger] s.filter(pred)[i]).token != (#[trigger] s.filter(pred)[j]).token,
    decreases s.len(),
{
    reveal(Seq::filter);
    if s.len() > 0 {
        let d = s.drop_last();
        assert forall|i: int, j: int|
            0 <= i < d.len() && 0 <= j < d.len() && i != j implies (#[trigger] d[i]).token != (
        #[trigger] d[j]).token by {
            assert(d[i] == s[i] && d[j] == s[j]);
        }
        lemma_filter_distinct_tokens(d, pred);
        lemma_filter_membership(d, pred);
        let f = s.filter(pred);
        let df = d.filter(pred);
        assert forall|i: int, j: int|
            0 <= i < f.len() && 0 <= j < f.len() && i != j implies (#[trigger] f[i]).token != (
        #[trigger] f[j]).token by {
            if i < df.len() && j < df.len() {
                assert(f[i] == df[i] && f[j] == df[j]);
            } else if i < df.len() {
                assert(f[i] == df[i] && f[j] == s.last());
                let k = choose|k: int| 0 <= k < d.len() && d[k] == df[i];
                assert(s[k] == d[k]);
                assert(s[k].token != s[s.len() - 1].token);
            } else {
                assert(f[j] == df[j] && f[i] == s.last());
                let k = choose|k: int| 0 <= k < d.len() && d[k] == df[j];
                assert(s[k] == d[k]);
                assert(s[k].token != s[s.len() - 1].token);
            }
        }
    }
}

/// A filter that keeps every element changes nothing.
pub proof fn lemma_filter_all_kept<A>(s: Seq<A>, pred: spec_fn(A) -> bool)
    requires
        forall|i: int| 0 <= i < s.len() ==> pred(#[trigger] s[i]),
    ensures
        s.filter(pred) == s,
    decreases s.len(),
{
    reveal(Seq::filter);
    if s.len() > 0 {
        let d = s.drop_last();
        assert forall|i: int| 0 <= i < d.len() implies pred(#[trigger] d[i]) by {
            assert(d[i] == s[i]);
        }
        lemma_filter_all_kept(d, pred);
        assert(pred(s[s.len() - 1]));
        assert(d.filter(pred).push(s.last()) =~= s);
    }
}

/// Filtering twice with one predicate is the same as filtering once.
pub proof fn lemma_filter_idempotent<A>(s: Seq<A>, pred: spec_fn(A) -> bool)
    ensures
        s.filter(pred).filter(pred) == s.filter(pred),
{
    let f = s.filter(pred);
    assert forall|i: int| 0 <= i < f.len() implies pred(#[trigger] f[i]) by {
        s.lemma_filter_pred(pred, i);
    }
    lemma_filter_all_kept(f, pred);
}

/// The records that outlive a sweep at time `now`: activity within `ttl`.
pub open spec fn live_pred(ttl: int, now: int) -> spec_fn(SessionRecordView) -> bool {
    |r: SessionRecordView| now < r.last_activity + ttl
}

/// The records that survive deleting `token`.
pub open spec fn delete_pred(token: u64) -> spec_fn(SessionRecordView) -> bool {
    |r: SessionRecordView| r.token != token
}

/// The store after an explicit logout of `token`.
pub open spec fn delete_effect(s: Seq<SessionRecordView>, token: u64) -> Seq<SessionRecordView> {
    s.filter(delete_pred(token))
}

/// The store after the reaper sweeps at time `now`.
pub open spec fn reap_effect(s: Seq<SessionRecordView>, ttl: int, now: int) -> Seq<
    SessionRecordView,
> {
    s.filter(live_pred(ttl, now))
}

/// The store after a successful request refreshes `token`'s activity.
pub open spec fn touch_effect(s: Seq<SessionRecordView>, token: u64, now: int) -> Seq<
    SessionRecordView,
> {
    s.map_values(
        |r: SessionRecordView|
            if r.token == token {
                SessionRecordView { token: r.token, auth_user: r.auth_user, last_activity: now }
            } else {
                r
            },
    )
}

/// The store after the `auth_user` attribute of `token` is set to `u`: the
/// record is updated if present, created otherwise, with fresh activity.
pub open spec fn set_auth_user_effect(
    s: Seq<SessionRecordView>,
    token: u64,
    u: UserView,
    now: int,
) -> Seq<SessionRecordView> {
    if has_token(s, token) {
        s.map_values(
            |r: SessionRecordView|
                if r.token == token {
                    SessionRecordView { token: r.token, auth_user: Some(u), last_activity: now }
                } else {
                    r
                },
        )
    } else {
        s.push(SessionRecordView { token, auth_user: Some(u), last_activity: now })
    }
}

/// Whom a request with `token` speaks for at time `now`: the `auth_user`
/// of a live session. An unknown token, a stale session, and an anonymous
/// session all resolve to nobody, whether or not the reaper has run.
pub open spec fn resolve_outcome(
    s: Seq<SessionRecordView>,
    ttl: int,
    token: u64,
    now: int,
) -> Option<UserView> {
    match sess_find(s, token) {
        Some(r) => if now < r.last_activity + ttl {
            r.auth_user
        } else {
            None
        },
        None => None,
    }
}

/// Bounds every stored record respects.
pub open spec fn rec_ok(r: SessionRecordView, next_token: u64) -> bool {
    &&& r.token < next_token
    &&& 0 <= r.last_activity <= MAX_TIME
    &&& match r.auth_user {
        Some(u) => 0 <= u.id && 0 <= u.created_at <= MAX_TIME,
        None => true,
    }
}

/// The session store: records with pairwise-distinct tokens, a counter
/// from which fresh tokens are drawn, and the inactivity TTL in seconds.
pub struct SessionStore {
    pub sessions: Vec<SessionRecord>,
    pub next_token: u64,
    pub ttl: i64,
}

impl View for SessionStore {
    type V = Seq<SessionRecordView>;

    open spec fn view(&self) -> Seq<SessionRecordView> {
        self.sessions@.map_values(|r: SessionRecord| r@)
    }
}

impl SessionStore {
    pub open spec fn wf(&self) -> bool {
        &&& 0 <= self.ttl <= MAX_TIME
        &&& forall|i: int| 0 <= i < self@.len() ==> rec_ok(#[trigger] self@[i], self.next_token)
        &&& forall|i: int, j: int|
            0 <= i < self@.len() && 0 <= j < self@.len() && i != j ==> (#[trigger] self@[i]).token
                != (#[trigger] self@[j]).token
    }

    /// An empty store with the given inactivity TTL.
    pub fn new(ttl: i64) -> (r: Self)
        requires
            0 <= ttl <= MAX_TIME,
        ensures
            r@ =~= Seq::<SessionRecordView>::empty(),
            r.wf(),
            r.ttl == ttl,
            r.next_token == 0,
    {
        let r = SessionStore { sessions: Vec::new(), next_token: 0, ttl };
        proof {
            assert(r@ =~= Seq::<SessionRecordView>::empty());
        }
        r
    }

    /// Whether a fresh token can still be drawn.
    pub open spec fn can_create(&self) -> bool {
        self.next_token < u64::MAX
    }

    /// The index of the record carrying `token`, tied to `sess_find`.
    fn token_index(&self, token: u64) -> (r: Option<usize>)
        ensures
            match r {
                Some(i) => i < self@.len() && self@[i as int].token == token && sess_find(
                    self@,
                    token,
                ) == Some(self@[i as int]),
                None => sess_find(self@, token) is None,
            },
    {
        proof {
            assert(self@.skip(0) =~= self@);
        }
        let mut i: usize = 0;
        while i < self.sessions.len()
            invariant
                0 <= i <= self.sessions.len(),
                self@.len() == self.sessions.len(),
                sess_find(self@, token) == sess_find(self@.skip(i as int), token),
            decreases self.sessions.len() - i,
        {
            proof {
                assert(self@.skip(i as int)[0] == self@[i as int]);
                assert(self@[i as int] == self.sessions@[i as int]@);
            }
            if self.sessions[i].token == token {
                return Some(i);
            }
            proof {
                assert(self@.skip(i as int).skip(1) =~= self@.skip(i + 1 as int));
            }
            i = i + 1;
        }
        proof {
            assert(self@.skip(i as int) =~= Seq::<SessionRecordView>::empty());
        }
        None
    }

    /// Allocates a fresh anonymous session and returns its token, which no
    /// existing record carries.
    pub fn create(&mut self, now: i64) -> (token: u64)
        requires
            old(self).wf(),
            old(self).can_create(),
            0 <= now <= MAX_TIME,
        ensures
            final(self).wf(),
            final(self).ttl == old(self).ttl,
            token == old(self).next_token,
            final(self).next_token == old(self).next_token + 1,
            !has_token(old(self)@, token),
            final(self)@ =~= old(self)@.push(
                SessionRecordView { token, auth_user: None, last_activity: now as int },
            ),
    {
        let token = self.next_token;
        proof {
            lemma_sess_find_index(old(self)@, token);
            if has_token(old(self)@, token) {
                assert(false);
            }
        }
        self.next_token = self.next_token + 1;
        self.sessions.push(SessionRecord { token, auth_user: None, last_activity: now });
        proof {
            assert(self@ =~= old(self)@.push(
                SessionRecordView { token, auth_user: None, last_activity: now as int },
            ));
        }
        token
    }

    /// Upserts the `auth_user` attribute of `token` and refreshes its
    /// activity, creating the record if the token is new to the store.
    pub fn set_auth_user(&mut self, token: u64, user: &User, now: i64)
        requires
            old(self).wf(),
            token < u64::MAX,
            0 <= now <= MAX_TIME,
            user.id >= 0,
            0 <= user.created_at <= MAX_TIME,
        ensures
            final(self).wf(),
            final(self).ttl == old(self).ttl,
            final(self)@ =~= set_auth_user_effect(old(self)@, token, user@, now as int),
    {
        match self.token_index(token) {
            Some(i) => {
                self.sessions.set(
                    i,
                    SessionRecord { token, auth_user: Some(user.clone()), last_activity: now },
                );
                proof {
                    let s0 = old(self)@;
                    let eff = set_auth_user_effect(s0, token, user@, now as int);
                    assert forall|j: int| 0 <= j < s0.len() implies self@[j] == eff[j] by {
                        if j != i as int {
                            assert(s0[j].token != s0[i as int].token);
                            assert(self@[j] == s0[j]);
                        }
                    }
                    assert(self@ =~= eff);
                }
            },
            None => {
                if token >= self.next_token {
                    self.next_token = token + 1;
                }
                self.sessions.push(
                    SessionRecord { token, auth_user: Some(user.clone()), last_activity: now },
                );
                proof {
                    let s0 = old(self)@;
                    assert(self@ =~= s0.push(
                        SessionRecordView {
                            token,
                            auth_user: Some(user@),
                            last_activity: now as int,
                        },
                    ));
                    lemma_sess_find_index(s0, token);
                    assert forall|i: int, j: int|
                        0 <= i < self@.len() && 0 <= j < self@.len() && i != j implies (
                    #[trigger] self@[i]).token != (#[trigger] self@[j]).token by {
                        if i < s0.len() && j < s0.len() {
                            assert(self@[i] == s0[i] && self@[j] == s0[j]);
                        } else if i < s0.len() {
                            assert(self@[i] == s0[i]);
                        } else {
                            assert(self@[j] == s0[j]);
                        }
                    }
                }
            },
        }
    }

    /// Resolves the identity behind a request: the `auth_user` of a live
    /// session, whose activity is then refreshed (sliding expiration).
    /// Stale, unknown, and anonymous sessions yield `None` untouched.
    pub fn current_user(&mut self, token: u64, now: i64) -> (r: Option<User>)
        requires
            old(self).wf(),
            0 <= now <= MAX_TIME,
        ensures
            final(self).wf(),
            final(self).ttl == old(self).ttl,
            match resolve_outcome(old(self)@, old(self).ttl as int, token, now as int) {
                Some(u) => r matches Some(x) && x@ == u && final(self)@ =~= touch_effect(
                    old(self)@,
                    token,
                    now as int,
                ),
                None => r is None && final(self)@ == old(self)@,
            },
    {
        match self.token_index(token) {
            Some(i) => {
                let live = now < self.sessions[i].last_activity + self.ttl;
                if !live {
                    return None;
                }
                match &self.sessions[i].auth_user {
                    Some(u) => {
                        let user = u.clone();
                        let rec = SessionRecord {
                            token,
                            auth_user: Some(user.clone()),
                            last_activity: now,
                        };
                        self.sessions.set(i, rec);
                        proof {
                            let s0 = old(self)@;
                            let eff = touch_effect(s0, token, now as int);
                            assert forall|j: int| 0 <= j < s0.len() implies self@[j] == eff[j] by {
                                if j != i as int {
                                    assert(s0[j].token != s0[i as int].token);
                                    assert(self@[j] == s0[j]);
                                }
                            }
                            assert(self@ =~= eff);
                        }
                        Some(user)
                    },
                    None => None,
                }
            },
            None => None,
        }
    }

    /// Explicit logout: removes the record for `token` if there is one.
    /// Deleting an absent token changes nothing, so the call is idempotent.
    pub fn delete(&mut self, token: u64)
        requires
            old(self).wf(),
        ensures
            final(self).wf(),
            final(self).ttl == old(self).ttl,
            final(self).next_token == old(self).next_token,
            final(self)@ =~= delete_effect(old(self)@, token),
    {
        let ghost pred = delete_pred(token);
        let mut kept: Vec<SessionRecord> = Vec::new();
        proof {
            assert(self@.take(0) =~= Seq::<SessionRecordView>::empty());
            assert(self@.take(0).filter(pred) =~= Seq::<SessionRecordView>::empty()) by {
                reveal(Seq::filter);
            }
        }
        let mut i: usize = 0;
        while i < self.sessions.len()
            invariant
                0 <= i <= self.sessions.len(),
                self@.len() == self.sessions.len(),
                kept@.map_values(|r: SessionRecord| r@) == self@.take(i as int).filter(pred),
                pred == delete_pred(token),
            decreases self.sessions.len() - i,
        {
            proof {
                assert(self@[i as int] == self.sessions@[i as int]@);
            }
            if self.sessions[i].token != token {
                kept.push(self.sessions[i].clone());
            }
            proof {
                let pre = self@.take(i as int);
                let post = self@.take(i + 1 as int);
                assert(post =~= pre.push(self@[i as int]));
                pre.lemma_filter_push(self@[i as int], pred);
                assert(kept@.map_values(|r: SessionRecord| r@) =~= post.filter(pred));
            }
            i = i + 1;
        }
        proof {
            assert(self@.take(self@.len() as int) =~= self@);
        }
        self.sessions = kept;
        proof {
            let s0 = old(self)@;
            lemma_filter_membership(s0, pred);
            lemma_filter_distinct_tokens(s0, pred);
            assert forall|j: int| 0 <= j < self@.len() implies rec_ok(
                #[trigger] self@[j],
                self.next_token,
            ) by {
                assert(s0.contains(s0.filter(pred)[j]));
                let k = choose|k: int| 0 <= k < s0.len() && s0[k] == s0.filter(pred)[j];
                assert(rec_ok(s0[k], old(self).next_token));
            }
        }
    }

    /// The reaper's sweep: deletes every record stale at time `now` in
    /// bulk. `current_user` refuses stale sessions on its own, so a sweep
    /// changes no outcome; it only reclaims the storage.
    pub fn reap_expired(&mut self, now: i64)
        requires
            old(self).wf(),
            0 <= now <= MAX_TIME,
        ensures
            final(self).wf(),
            final(self).ttl == old(self).ttl,
            final(self).next_token == old(self).next_token,
            final(self)@ =~= reap_effect(old(self)@, old(self).ttl as int, now as int),
    {
        let ghost pred = live_pred(self.ttl as int, now as int);
        let mut kept: Vec<SessionRecord> = Vec::new();
        proof {
            assert(self@.take(0) =~= Seq::<SessionRecordView>::empty());
            assert(self@.take(0).filter(pred) =~= Seq::<SessionRecordView>::empty()) by {
                reveal(Seq::filter);
            }
        }
        let mut i: usize = 0;
        while i < self.sessions.len()
            invariant
                0 <= i <= self.sessions.len(),
                self@.len() == self.sessions.len(),
                kept@.map_values(|r: SessionRecord| r@) == self@.take(i as int).filter(pred),
                pred == live_pred(self.ttl as int, now as int),
                self.ttl == old(self).ttl,
                old(self).wf(),
                self.wf(),
            decreases self.sessions.len() - i,
        {
            proof {
                assert(self@[i as int] == self.sessions@[i as int]@);
                assert(rec_ok(self@[i as int], self.next_token));
            }
            if now < self.sessions[i].last_activity + self.ttl {
                kept.push(self.sessions[i].clone());
            }
            proof {
                let pre = self@.take(i as int);
                let post = self@.take(i + 1 as int);
                assert(post =~= pre.push(self@[i as int]));
                pre.lemma_filter_push(self@[i as int], pred);
                assert(kept@.map_values(|r: SessionRecord| r@) =~= post.filter(pred));
            }
            i = i + 1;
        }
        proof {
            assert(self@.take(self@.len() as int) =~= self@);
        }
        self.sessions = kept;
        proof {
            let s0 = old(self)@;
            lemma_filter_membership(s0, pred);
            lemma_filter_distinct_tokens(s0, pred);
            assert forall|j: int| 0 <= j < self@.len() implies rec_ok(
                #[trigger] self@[j],
                self.next_token,
            ) by {
                assert(s0.contains(s0.filter(pred)[j]));
                let k = choose|k: int| 0 <= k < s0.len() && s0[k] == s0.filter(pred)[j];
                assert(rec_ok(s0[k], old(self).next_token));
            }
        }
    }
}

} // verus!
