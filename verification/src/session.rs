//! The session manager.
//!
//! A session binds an opaque token, handed to the client, to a user id and
//! an expiry instant. Only identity resolution lives here; no ownership
//! logic. Times are plain instants supplied by the caller (the host reads
//! the clock).

use vstd::prelude::*;

verus! {

/// The identity a resolved session vouches for.
#[derive(Clone, Copy, Debug, PartialEq, Eq, Structural)]
pub struct UserSession {
    pub user_id: u64,
}

/// One stored session record.
#[derive(Clone, Copy, Debug, PartialEq, Eq, Structural)]
pub struct Session {
    /// The opaque token the client presents.
    pub token: u64,
    /// The identity the session is bound to.
    pub user_id: u64,
    /// When the session was established.
    pub created_at: u64,
    /// The session resolves only strictly before this instant.
    pub expires_at: u64,
}

/// A session is live at `now` while its expiry has not been reached.
pub open spec fn session_live(s: Session, now: u64) -> bool {
    now < s.expires_at
}

/// Pairwise-distinct tokens: a token identifies at most one session.
pub open spec fn tokens_distinct(s: Seq<Session>) -> bool {
    forall|i: int, j: int|
        0 <= i < j < s.len() ==> (#[trigger] s[i]).token != (#[trigger] s[j]).token
}

/// The sessions that survive invalidation of a single token.
pub open spec fn not_token(token: u64) -> spec_fn(Session) -> bool {
    |s: Session| s.token != token
}

/// The sessions that survive invalidation of a whole identity.
pub open spec fn not_owned_by(user_id: u64) -> spec_fn(Session) -> bool {
    |s: Session| s.user_id != user_id
}

/// The process-wide session store.
pub struct SessionStore {
    /// The stored sessions, in order of establishment.
    pub sessions: Vec<Session>,
    /// The next token to hand out; all stored tokens are below it.
    pub next_token: u64,
}

impl SessionStore {
    /// Well-formedness: tokens are pairwise distinct and below `next_token`,
    /// so a token identifies at most one session.
    pub open spec fn wf(self) -> bool {
        &&& forall|i: int|
            0 <= i < self.sessions@.len() ==> (#[trigger] self.sessions@[i]).token
                < self.next_token
        &&& tokens_distinct(self.sessions@)
    }

    /// An empty store.
    pub fn new() -> (r: SessionStore)
        ensures
            r.wf(),
            r.sessions@.len() == 0,
            r.next_token == 0,
    {
        SessionStore { sessions: Vec::new(), next_token: 0 }
    }

    /// Creates a new session bound to `user_id`, live until `now + ttl`,
    /// and returns its fresh token.
    pub fn establish(&mut self, user_id: u64, now: u64, ttl: u64) -> (token: u64)
        requires
            old(self).wf(),
            old(self).next_token < u64::MAX,
            now + ttl <= u64::MAX,
        ensures
            final(self).wf(),
            token == old(self).next_token,
            final(self).sessions@ == old(self).sessions@.push(
                Session { token, user_id, created_at: now, expires_at: (now + ttl) as u64 },
            ),
            final(self).next_token == token + 1,
    {
        let token = self.next_token;
        let s = Session { token, user_id, created_at: now, expires_at: now + ttl };
        self.sessions.push(s);
        self.next_token = token + 1;
        token
    }

    /// Resolves a presented token to the identity it vouches for: `None`
    /// when the token is unknown or the session has expired. A missing
    /// session is not an error; anonymous requests are legal for some
    /// operations.
    pub fn resolve(&self, token: u64, now: u64) -> (r: Option<UserSession>)
        requires
            self.wf(),
        ensures
            r is Some <==> exists|i: int|
                0 <= i < self.sessions@.len() && (#[trigger] self.sessions@[i]).token == token
                    && session_live(self.sessions@[i], now),
            forall|i: int|
                0 <= i < self.sessions@.len() && (#[trigger] self.sessions@[i]).token == token
                    && session_live(self.sessions@[i], now) ==> r == Some(
                    UserSession { user_id: self.sessions@[i].user_id },
                ),
    {
        let n = self.sessions.len();
        let mut i: usize = 0;
        while i < n
            invariant
                self.wf(),
                n == self.sessions@.len(),
                0 <= i <= n,
                forall|k: int|
                    0 <= k < i ==> !((#[trigger] self.sessions@[k]).token == token
                        && session_live(self.sessions@[k], now)),
            decreases n - i,
        {
            let s = self.sessions[i];
            if s.token == token && now < s.expires_at {
                proof {
                    assert forall|j: int|
                        0 <= j < self.sessions@.len() && (#[trigger] self.sessions@[j]).token
                            == token && session_live(self.sessions@[j], now) implies self.sessions@[j]
                        == self.sessions@[i as int] by {
                        if j < i as int {
                            assert(self.sessions@[j].token != self.sessions@[i as int].token);
                        } else if (i as int) < j {
                            assert(self.sessions@[i as int].token != self.sessions@[j].token);
                        }
                    }
                }
                return Some(UserSession { user_id: s.user_id });
            }
            i += 1;
        }
        None
    }

    /// Removes the session presented under `token`, if any. Idempotent: a
    /// second call on the same token leaves the store as it is (see
    /// `lemma_invalidate_idempotent`).
    pub fn invalidate(&mut self, token: u64)
        requires
            old(self).wf(),
        ensures
            final(self).wf(),
            final(self).sessions@ == old(self).sessions@.filter(not_token(token)),
            final(self).next_token == old(self).next_token,
    {
        let kept = self.retained(
            (|s: Session| -> (b: bool)
                ensures
                    b == not_token(token)(s),
                { s.token != token }),
            Ghost(not_token(token)),
        );
        proof {
            lemma_filter_members(self.sessions@, not_token(token));
        }
        self.sessions = kept;
    }

    /// Removes every session bound to `user_id`: the step that forces
    /// re-login after a password reset or an account deletion.
    pub fn invalidate_user(&mut self, user_id: u64)
        requires
            old(self).wf(),
        ensures
            final(self).wf(),
            final(self).sessions@ == old(self).sessions@.filter(not_owned_by(user_id)),
            final(self).next_token == old(self).next_token,
    {
        let kept = self.retained(
            (|s: Session| -> (b: bool)
                ensures
                    b == not_owned_by(user_id)(s),
                { s.user_id != user_id }),
            Ghost(not_owned_by(user_id)),
        );
        proof {
            lemma_filter_members(self.sessions@, not_owned_by(user_id));
        }
        self.sessions = kept;
    }

    /// The sessions passing `keep`, in store order.
    fn retained(&self, keep: impl Fn(Session) -> bool, Ghost(pred): Ghost<
        spec_fn(Session) -> bool,
    >) -> (r: Vec<Session>)
        requires
            forall|s: Session, b: bool| call_ensures(keep, (s,), b) ==> b == pred(s),
            forall|s: Session| #[trigger] call_requires(keep, (s,)),
        ensures
            r@ == self.sessions@.filter(pred),
    {
        let n = self.sessions.len();
        let mut kept: Vec<Session> = Vec::new();
        let mut i: usize = 0;
        while i < n
            invariant
                n == self.sessions@.len(),
                0 <= i <= n,
                kept@ == self.sessions@.subrange(0, i as int).filter(pred),
                forall|s: Session, b: bool| call_ensures(keep, (s,), b) ==> b == pred(s),
                forall|s: Session| #[trigger] call_requires(keep, (s,)),
            decreases n - i,
        {
            let s = self.sessions[i];
            proof {
                broadcast use vstd::prelude::Seq::lemma_filter_push;

                assert(self.sessions@.subrange(0, i + 1) =~= self.sessions@.subrange(
                    0,
                    i as int,
                ).push(s));
            }
            if keep(s) {
                kept.push(s);
            }
            i += 1;
        }
        proof {
            assert(self.sessions@.subrange(0, n as int) =~= self.sessions@);
        }
        kept
    }
}

/// Every element of a filtered sequence stands somewhere in the original.
pub proof fn lemma_filter_elem_of<A>(s: Seq<A>, pred: spec_fn(A) -> bool, j: int)
    requires
        0 <= j < s.filter(pred).len(),
    ensures
        exists|i: int| 0 <= i < s.len() && s[i] == s.filter(pred)[j],
    decreases s.len(),
{
    reveal(Seq::filter);
    if s.len() > 0 {
        let dl = s.drop_last();
        let f = s.filter(pred);
        if pred(s.last()) && j == f.len() - 1 {
            assert(s[s.len() - 1] == f[j]);
        } else {
            lemma_filter_elem_of(dl, pred, j);
            let i = choose|i: int| 0 <= i < dl.len() && dl[i] == dl.filter(pred)[j];
            assert(s[i] == s.filter(pred)[j]);
        }
    }
}

/// Filtering keeps tokens pairwise distinct, and every survivor is a
/// session of the original store.
pub proof fn lemma_filter_members(s: Seq<Session>, pred: spec_fn(Session) -> bool)
    requires
        tokens_distinct(s),
    ensures
        tokens_distinct(s.filter(pred)),
        forall|j: int|
            0 <= j < s.filter(pred).len() ==> exists|i: int|
                0 <= i < s.len() && s[i] == #[trigger] s.filter(pred)[j],
    decreases s.len(),
{
    reveal(Seq::filter);
    let f = s.filter(pred);
    assert forall|j: int| 0 <= j < f.len() implies exists|i: int|
        0 <= i < s.len() && s[i] == #[trigger] f[j] by {
        lemma_filter_elem_of(s, pred, j);
    }
    assert forall|j1: int, j2: int| 0 <= j1 < j2 < f.len() implies (#[trigger] f[j1]).token != (
    #[trigger] f[j2]).token by {
        lemma_filter_two_elems_of(s, pred, j1, j2);
        let (i1, i2) = choose|i1: int, i2: int|
            0 <= i1 < i2 < s.len() && s[i1] == f[j1] && s[i2] == f[j2];
        assert(s[i1].token != s[i2].token);
    }
}

/// Filtering a sequence whose elements all pass the predicate changes
/// nothing.
pub proof fn lemma_filter_all<A>(s: Seq<A>, pred: spec_fn(A) -> bool)
    requires
        forall|i: int| 0 <= i < s.len() ==> pred(#[trigger] s[i]),
    ensures
        s.filter(pred) == s,
    decreases s.len(),
{
    reveal(Seq::filter);
    if s.len() > 0 {
        lemma_filter_all(s.drop_last(), pred);
        assert(s.drop_last().push(s.last()) =~= s);
    }
}

/// Invalidation is idempotent: invalidating the same token twice leaves
/// the store exactly as one invalidation does.
pub proof fn lemma_invalidate_idempotent(s: Seq<Session>, token: u64)
    ensures
        s.filter(not_token(token)).filter(not_token(token)) == s.filter(not_token(token)),
{
    broadcast use vstd::prelude::Seq::lemma_filter_pred;

    lemma_filter_all(s.filter(not_token(token)), not_token(token));
}

/// Invalidating an identity leaves no session that any token of that user
/// resolves: after `invalidate_user(user_id)`, a token that was bound to
/// `user_id` matches no stored session, so by `resolve`'s contract the
/// lookup returns `None`.
pub proof fn lemma_invalidation_blocks_resolve(s: Seq<Session>, user_id: u64, i: int)
    requires
        tokens_distinct(s),
        0 <= i < s.len(),
        s[i].user_id == user_id,
    ensures
        forall|j: int|
            0 <= j < s.filter(not_owned_by(user_id)).len() ==> (#[trigger] s.filter(
                not_owned_by(user_id),
            )[j]).token != s[i].token,
{
    broadcast use vstd::prelude::Seq::lemma_filter_pred;

    let f = s.filter(not_owned_by(user_id));
    lemma_filter_members(s, not_owned_by(user_id));
    assert forall|j: int| 0 <= j < f.len() implies (#[trigger] f[j]).token != s[i].token by {
        let k = choose|k: int| 0 <= k < s.len() && s[k] == f[j];
        assert(s[k].user_id != user_id);
        if k < i {
            assert(s[k].token != s[i].token);
        } else {
            assert(s[i].token != s[k].token);
        }
    }
}

/// Two positions of a filtered sequence come from two positions of the
/// original, in the same order: filtering never duplicates an element.
pub proof fn lemma_filter_two_elems_of<A>(s: Seq<A>, pred: spec_fn(A) -> bool, j1: int, j2: int)
    requires
        0 <= j1 < j2 < s.filter(pred).len(),
    ensures
        exists|i1: int, i2: int|
            0 <= i1 < i2 < s.len() && s[i1] == s.filter(pred)[j1] && s[i2] == s.filter(pred)[j2],
    decreases s.len(),
{
    reveal(Seq::filter);
    let f = s.filter(pred);
    let dl = s.drop_last();
    if pred(s.last()) && j2 == f.len() - 1 {
        lemma_filter_elem_of(dl, pred, j1);
        let i1 = choose|i: int| 0 <= i < dl.len() && dl[i] == dl.filter(pred)[j1];
        assert(0 <= i1 < s.len() - 1 < s.len() && s[i1] == f[j1] && s[s.len() - 1] == f[j2]);
    } else {
        lemma_filter_two_elems_of(dl, pred, j1, j2);
        let fdl = dl.filter(pred);
        let (i1, i2) = choose|i1: int, i2: int|
            0 <= i1 < i2 < dl.len() && dl[i1] == fdl[j1] && dl[i2] == fdl[j2];
        assert(0 <= i1 < i2 < s.len() && s[i1] == f[j1] && s[i2] == f[j2]);
    }
}

} // verus!
