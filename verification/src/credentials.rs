//! The credential store.
//!
//! Pure data access for user records, password-reset tokens and
//! registration tokens. Text and key material are opaque byte strings;
//! passwords are held only as digests (`hash_of`). Each store carries the
//! uniqueness invariant its lookups rely on.

use vstd::prelude::*;

verus! {

use crate::bytes::{copy_bytes, copy_opt_bytes, ct_eq};

/// One account.
pub struct User {
    /// Unique, stable id.
    pub id: u64,
    /// The address the account is reached at; unique across accounts.
    pub email: Vec<u8>,
    /// Public-key material for registration proof; unique across accounts.
    pub public_key: Vec<u8>,
    /// Digest of the long-term password; the password itself is never kept.
    pub password_hash: u64,
    /// Display name.
    pub name: Vec<u8>,
    /// Optional avatar location.
    pub avatar_url: Option<Vec<u8>>,
}

/// `users[i]` is the account with address `email`.
pub open spec fn user_at_email(users: Seq<User>, email: Seq<u8>, i: int) -> bool {
    0 <= i < users.len() && users[i].email@ == email
}

/// `users[i]` is the account with id `id`.
pub open spec fn user_at_id(users: Seq<User>, id: u64, i: int) -> bool {
    0 <= i < users.len() && users[i].id == id
}

/// Some account has address `email`.
pub open spec fn has_email(users: Seq<User>, email: Seq<u8>) -> bool {
    exists|i: int| user_at_email(users, email, i)
}

/// Some account holds the public key `key`.
pub open spec fn has_public_key(users: Seq<User>, key: Seq<u8>) -> bool {
    exists|i: int| 0 <= i < users.len() && (#[trigger] users[i]).public_key@ == key
}

/// Some account has id `id`.
pub open spec fn has_user_id(users: Seq<User>, id: u64) -> bool {
    exists|i: int| user_at_id(users, id, i)
}

/// The user records.
pub struct UserStore {
    /// The accounts, in order of registration.
    pub users: Vec<User>,
    /// The next id to assign; all stored ids are below it.
    pub next_id: u64,
}

impl UserStore {
    /// Well-formedness: ids are below `next_id`, and ids, addresses and
    /// public keys are each pairwise distinct, so each identifies at most
    /// one account.
    pub open spec fn wf(self) -> bool {
        &&& forall|i: int|
            0 <= i < self.users@.len() ==> (#[trigger] self.users@[i]).id < self.next_id
        &&& forall|i: int, j: int|
            0 <= i < j < self.users@.len() ==> (#[trigger] self.users@[i]).id != (
            #[trigger] self.users@[j]).id && self.users@[i].email@ != self.users@[j].email@
                && self.users@[i].public_key@ != self.users@[j].public_key@
    }

    /// An empty store.
    pub fn new() -> (r: UserStore)
        ensures
            r.wf(),
            r.users@.len() == 0,
            r.next_id == 0,
    {
        UserStore { users: Vec::new(), next_id: 0 }
    }

    /// Whether some account already holds `key`.
    pub fn contains_public_key(&self, key: &Vec<u8>) -> (r: bool)
        ensures
            r == has_public_key(self.users@, key@),
    {
        let n = self.users.len();
        let mut i: usize = 0;
        while i < n
            invariant
                n == self.users@.len(),
                0 <= i <= n,
                forall|k: int| 0 <= k < i ==> (#[trigger] self.users@[k]).public_key@ != key@,
            decreases n - i,
        {
            if ct_eq(&self.users[i].public_key, key) {
                return true;
            }
            i += 1;
        }
        false
    }

    /// Whether some account has the address `email`.
    pub fn contains_email(&self, email: &Vec<u8>) -> (r: bool)
        ensures
            r == has_email(self.users@, email@),
    {
        let n = self.users.len();
        let mut i: usize = 0;
        while i < n
            invariant
                n == self.users@.len(),
                0 <= i <= n,
                forall|k: int| 0 <= k < i ==> (#[trigger] self.users@[k]).email@ != email@,
            decreases n - i,
        {
            if ct_eq(&self.users[i].email, email) {
                proof {
                    assert(user_at_email(self.users@, email@, i as int));
                }
                return true;
            }
            i += 1;
        }
        false
    }

    /// Adds a fresh account and returns its id. The caller has already
    /// ruled out address and key conflicts.
    pub fn register(
        &mut self,
        email: Vec<u8>,
        public_key: Vec<u8>,
        password_hash: u64,
        name: Vec<u8>,
        avatar_url: Option<Vec<u8>>,
    ) -> (id: u64)
        requires
            old(self).wf(),
            old(self).next_id < u64::MAX,
            !has_email(old(self).users@, email@),
            !has_public_key(old(self).users@, public_key@),
        ensures
            final(self).wf(),
            id == old(self).next_id,
            final(self).next_id == id + 1,
            final(self).users@.len() == old(self).users@.len() + 1,
            final(self).users@.subrange(0, old(self).users@.len() as int) == old(self).users@,
            final(self).users@.last().id == id,
            final(self).users@.last().email@ == email@,
            final(self).users@.last().public_key@ == public_key@,
            final(self).users@.last().password_hash == password_hash,
            final(self).users@.last().name@ == name@,
            final(self).users@.last().avatar_url == avatar_url,
    {
        let id = self.next_id;
        let ghost em = email@;
        let ghost pk = public_key@;
        self.users.push(User { id, email, public_key, password_hash, name, avatar_url });
        self.next_id = id + 1;
        proof {
            let pre = old(self).users@;
            let post = self.users@;
            assert(post.subrange(0, pre.len() as int) =~= pre);
            assert forall|i: int, j: int| 0 <= i < j < post.len() implies (#[trigger] post[i]).id
                != (#[trigger] post[j]).id && post[i].email@ != post[j].email@
                && post[i].public_key@ != post[j].public_key@ by {
                if j == pre.len() {
                    assert(post[i] == pre[i]);
                    assert(!user_at_email(pre, em, i));
                    assert(!(0 <= i < pre.len() && (#[trigger] pre[i]).public_key@ == pk));
                }
            }
        }
        id
    }

    /// Finds the account with id `id`.
    pub(crate) fn find_by_id(&self, id: u64) -> (r: Option<usize>)
        requires
            self.wf(),
        ensures
            r is Some <==> has_user_id(self.users@, id),
            r matches Some(i) ==> user_at_id(self.users@, id, i as int),
            forall|j: int| user_at_id(self.users@, id, j) ==> r == Some(j as usize),
    {
        let n = self.users.len();
        let mut i: usize = 0;
        while i < n
            invariant
                self.wf(),
                n == self.users@.len(),
                0 <= i <= n,
                forall|k: int| 0 <= k < i ==> !user_at_id(self.users@, id, k),
            decreases n - i,
        {
            if self.users[i].id == id {
                proof {
                    assert(user_at_id(self.users@, id, i as int));
                    assert forall|j: int| user_at_id(self.users@, id, j) implies j == i as int by {
                        if j < i as int {
                            assert(!user_at_id(self.users@, id, j));
                        } else if (i as int) < j {
                            assert(self.users@[i as int].id != self.users@[j].id);
                        }
                    }
                }
                return Some(i);
            }
            i += 1;
        }
        None
    }

    /// Finds the account with address `email`.
    pub(crate) fn find_by_email(&self, email: &Vec<u8>) -> (r: Option<usize>)
        requires
            self.wf(),
        ensures
            r is Some <==> has_email(self.users@, email@),
            r matches Some(i) ==> user_at_email(self.users@, email@, i as int),
            forall|j: int| user_at_email(self.users@, email@, j) ==> r == Some(j as usize),
    {
        let n = self.users.len();
        let mut i: usize = 0;
        while i < n
            invariant
                self.wf(),
                n == self.users@.len(),
                0 <= i <= n,
                forall|k: int| 0 <= k < i ==> !user_at_email(self.users@, email@, k),
            decreases n - i,
        {
            if ct_eq(&self.users[i].email, email) {
                proof {
                    assert(user_at_email(self.users@, email@, i as int));
                    assert forall|j: int|
                        user_at_email(self.users@, email@, j) implies j == i as int by {
                        if j < i as int {
                            assert(!user_at_email(self.users@, email@, j));
                        } else if (i as int) < j {
                            assert(self.users@[i as int].email@ != self.users@[j].email@);
                        }
                    }
                }
                return Some(i);
            }
            i += 1;
        }
        None
    }

    /// Replaces the password digest of the account with address `email`,
    /// if one exists; reports whether one did. Nothing else of any account
    /// changes.
    pub fn set_password_by_email(&mut self, email: &Vec<u8>, password_hash: u64) -> (found: bool)
        requires
            old(self).wf(),
        ensures
            final(self).wf(),
            final(self).next_id == old(self).next_id,
            found == has_email(old(self).users@, email@),
            !found ==> *final(self) == *old(self),
            forall|i: int|
                #[trigger] user_at_email(old(self).users@, email@, i) ==> final(self).users@ == old(
                    self,
                ).users@.update(i, (User { password_hash, ..old(self).users@[i] })),
    {
        let n = self.users.len();
        let mut i: usize = 0;
        while i < n
            invariant
                self.wf(),
                self == old(self),
                n == self.users@.len(),
                0 <= i <= n,
                forall|k: int| 0 <= k < i ==> (#[trigger] self.users@[k]).email@ != email@,
            decreases n - i,
        {
            if ct_eq(&self.users[i].email, email) {
                proof {
                    assert(user_at_email(self.users@, email@, i as int));
                    assert forall|k: int|
                        user_at_email(self.users@, email@, k) implies k == i as int by {
                        if k < i as int {
                            assert(self.users@[k].email@ != email@);
                        } else if (i as int) < k {
                            assert(self.users@[i as int].email@ != self.users@[k].email@);
                        }
                    }
                }
                let u = &mut self.users[i];
                u.password_hash = password_hash;
                proof {
                    assert(self.users@ =~= old(self).users@.update(
                        i as int,
                        (User { password_hash, ..old(self).users@[i as int] }),
                    ));
                }
                return true;
            }
            i += 1;
        }
        false
    }

    /// Removes the account with id `id`, if one exists; reports whether
    /// one did. Afterwards no account has that id.
    pub fn remove_by_id(&mut self, id: u64) -> (found: bool)
        requires
            old(self).wf(),
        ensures
            final(self).wf(),
            final(self).next_id == old(self).next_id,
            found == has_user_id(old(self).users@, id),
            !found ==> *final(self) == *old(self),
            forall|i: int|
                #[trigger] user_at_id(old(self).users@, id, i) ==> final(self).users@ == old(
                    self,
                ).users@.remove(i),
            !has_user_id(final(self).users@, id),
    {
        let n = self.users.len();
        let mut i: usize = 0;
        while i < n
            invariant
                self.wf(),
                self == old(self),
                n == self.users@.len(),
                0 <= i <= n,
                forall|k: int| 0 <= k < i ==> (#[trigger] self.users@[k]).id != id,
            decreases n - i,
        {
            if self.users[i].id == id {
                proof {
                    let pre = self.users@;
                    assert(user_at_id(pre, id, i as int));
                    assert forall|k: int| user_at_id(pre, id, k) implies k == i as int by {
                        if k < i as int {
                            assert(pre[k].id != id);
                        } else if (i as int) < k {
                            assert(pre[i as int].id != pre[k].id);
                        }
                    }
                    pre.remove_ensures(i as int);
                }
                self.users.remove(i);
                proof {
                    let pre = old(self).users@;
                    let post = self.users@;
                    assert forall|k: int| 0 <= k < post.len() implies (#[trigger] post[k]).id
                        != id by {
                        if k < i as int {
                            assert(post[k] == pre[k]);
                        } else {
                            assert(post[k] == pre[k + 1]);
                        }
                    }
                    assert forall|j1: int, j2: int| 0 <= j1 < j2 < post.len() implies (
                    #[trigger] post[j1]).id != (#[trigger] post[j2]).id && post[j1].email@
                        != post[j2].email@ && post[j1].public_key@ != post[j2].public_key@ by {
                        let m1: int = if j1 < i as int {
                            j1
                        } else {
                            j1 + 1
                        };
                        let m2: int = if j2 < i as int {
                            j2
                        } else {
                            j2 + 1
                        };
                        assert(post[j1] == pre[m1]);
                        assert(post[j2] == pre[m2]);
                    }
                }
                return true;
            }
            i += 1;
        }
        false
    }
}

/// One password-reset token: issued out-of-band for an address, consumed
/// exactly once.
pub struct ResetToken {
    /// The token's identifier, presented together with the address.
    pub token_id: Vec<u8>,
    /// The account address the reset targets.
    pub email: Vec<u8>,
    /// Digest of the temporary password; the password itself is never kept.
    pub temp_password_hash: u64,
    /// The token verifies only up to and including this instant.
    pub expires_at: u64,
    /// Terminal once set: the token was used and can never verify again.
    pub consumed: bool,
}

/// `tokens[i]` is the token filed under `(email, token_id)`.
pub open spec fn token_at(tokens: Seq<ResetToken>, email: Seq<u8>, token_id: Seq<u8>, i: int) -> bool {
    0 <= i < tokens.len() && tokens[i].email@ == email && tokens[i].token_id@ == token_id
}

/// Some token is filed under `(email, token_id)`.
pub open spec fn has_token(tokens: Seq<ResetToken>, email: Seq<u8>, token_id: Seq<u8>) -> bool {
    exists|i: int| token_at(tokens, email, token_id, i)
}

/// Pairwise-distinct `(email, token_id)` pairs.
pub open spec fn token_pairs_distinct(tokens: Seq<ResetToken>) -> bool {
    forall|i: int, j: int|
        0 <= i < j < tokens.len() ==> !((#[trigger] tokens[i]).email@ == (
        #[trigger] tokens[j]).email@ && tokens[i].token_id@ == tokens[j].token_id@)
}

/// The password-reset tokens.
pub struct TokenStore {
    /// The issued tokens.
    pub tokens: Vec<ResetToken>,
}

impl TokenStore {
    /// Well-formedness: the `(email, token_id)` pairs are pairwise
    /// distinct, so a pair identifies at most one token.
    pub open spec fn wf(self) -> bool {
        token_pairs_distinct(self.tokens@)
    }

    /// An empty store.
    pub fn new() -> (r: TokenStore)
        ensures
            r.wf(),
            r.tokens@.len() == 0,
    {
        TokenStore { tokens: Vec::new() }
    }

    /// Files a freshly issued token, unconsumed. Issuance happens
    /// out-of-band (the token and temporary password travel by e-mail);
    /// this records its digest and window.
    pub fn issue(
        &mut self,
        token_id: Vec<u8>,
        email: Vec<u8>,
        temp_password_hash: u64,
        expires_at: u64,
    )
        requires
            old(self).wf(),
            !has_token(old(self).tokens@, email@, token_id@),
        ensures
            final(self).wf(),
            final(self).tokens@ == old(self).tokens@.push(
                ResetToken {
                    token_id: token_id,
                    email: email,
                    temp_password_hash,
                    expires_at,
                    consumed: false,
                },
            ),
    {
        let ghost em = email@;
        let ghost tid = token_id@;
        self.tokens.push(
            ResetToken { token_id, email, temp_password_hash, expires_at, consumed: false },
        );
        proof {
            let pre = old(self).tokens@;
            let post = self.tokens@;
            assert forall|i: int, j: int| 0 <= i < j < post.len() implies !((
            #[trigger] post[i]).email@ == (#[trigger] post[j]).email@ && post[i].token_id@
                == post[j].token_id@) by {
                if j == pre.len() {
                    assert(post[i] == pre[i]);
                    assert(!token_at(pre, em, tid, i));
                }
            }
        }
    }

    /// Finds the token filed under `(email, token_id)`.
    pub(crate) fn find(&self, email: &Vec<u8>, token_id: &Vec<u8>) -> (r: Option<usize>)
        requires
            self.wf(),
        ensures
            r is Some <==> has_token(self.tokens@, email@, token_id@),
            r matches Some(i) ==> token_at(self.tokens@, email@, token_id@, i as int),
            forall|j: int|
                token_at(self.tokens@, email@, token_id@, j) ==> r == Some(j as usize),
    {
        let n = self.tokens.len();
        let mut i: usize = 0;
        while i < n
            invariant
                self.wf(),
                n == self.tokens@.len(),
                0 <= i <= n,
                forall|k: int| 0 <= k < i ==> !token_at(self.tokens@, email@, token_id@, k),
            decreases n - i,
        {
            if ct_eq(&self.tokens[i].email, email) && ct_eq(&self.tokens[i].token_id, token_id) {
                proof {
                    assert(token_at(self.tokens@, email@, token_id@, i as int));
                    assert forall|j: int|
                        token_at(self.tokens@, email@, token_id@, j) implies j == i as int by {
                        if j != i as int {
                            if j < i as int {
                                assert(!token_at(self.tokens@, email@, token_id@, j));
                            } else {
                                assert(!((self.tokens@[i as int]).email@
                                    == (self.tokens@[j]).email@ && self.tokens@[i as int].token_id@
                                    == self.tokens@[j].token_id@));
                            }
                        }
                    }
                }
                return Some(i);
            }
            i += 1;
        }
        None
    }

    /// Marks the token at `i` consumed: its terminal state. Nothing else
    /// of any token changes.
    pub(crate) fn consume(&mut self, i: usize)
        requires
            old(self).wf(),
            i < old(self).tokens@.len(),
        ensures
            final(self).wf(),
            final(self).tokens@ == old(self).tokens@.update(
                i as int,
                (ResetToken { consumed: true, ..old(self).tokens@[i as int] }),
            ),
    {
        let t = &mut self.tokens[i];
        t.consumed = true;
        proof {
            assert(self.tokens@ =~= old(self).tokens@.update(
                i as int,
                (ResetToken { consumed: true, ..old(self).tokens@[i as int] }),
            ));
        }
    }
}

/// One registration token: issued out-of-band during sign-up, it pins the
/// pending account's profile to a key/pin pair and is removed once the
/// account is created.
pub struct RegistrationToken {
    /// The key under which the token is looked up.
    pub key: Vec<u8>,
    /// The pin the registrant must present; compared in constant time.
    pub pin: Vec<u8>,
    /// The pending account's address.
    pub email: Vec<u8>,
    /// The pending account's display name.
    pub name: Vec<u8>,
    /// Digest of the pending account's long-term password.
    pub password_hash: u64,
    /// The pending account's optional avatar location.
    pub avatar_url: Option<Vec<u8>>,
}

/// `tokens[i]` is the registration token filed under `key`.
pub open spec fn reg_at(tokens: Seq<RegistrationToken>, key: Seq<u8>, i: int) -> bool {
    0 <= i < tokens.len() && tokens[i].key@ == key
}

/// Some registration token is filed under `key`.
pub open spec fn has_reg(tokens: Seq<RegistrationToken>, key: Seq<u8>) -> bool {
    exists|i: int| reg_at(tokens, key, i)
}

/// The registration tokens.
pub struct RegistrationStore {
    /// The pending registrations.
    pub tokens: Vec<RegistrationToken>,
}

impl RegistrationStore {
    /// Well-formedness: keys are pairwise distinct, so a key identifies at
    /// most one pending registration.
    pub open spec fn wf(self) -> bool {
        forall|i: int, j: int|
            0 <= i < j < self.tokens@.len() ==> (#[trigger] self.tokens@[i]).key@ != (
            #[trigger] self.tokens@[j]).key@
    }

    /// An empty store.
    pub fn new() -> (r: RegistrationStore)
        ensures
            r.wf(),
            r.tokens@.len() == 0,
    {
        RegistrationStore { tokens: Vec::new() }
    }

    /// Files a pending registration.
    pub fn issue(&mut self, token: RegistrationToken)
        requires
            old(self).wf(),
            !has_reg(old(self).tokens@, token.key@),
        ensures
            final(self).wf(),
            final(self).tokens@ == old(self).tokens@.push(token),
    {
        let ghost k = token.key@;
        self.tokens.push(token);
        proof {
            let pre = old(self).tokens@;
            let post = self.tokens@;
            assert forall|i: int, j: int| 0 <= i < j < post.len() implies (#[trigger] post[i]).key@
                != (#[trigger] post[j]).key@ by {
                if j == pre.len() {
                    assert(post[i] == pre[i]);
                    assert(!reg_at(pre, k, i));
                }
            }
        }
    }

    /// Finds the pending registration filed under `key`.
    pub(crate) fn find(&self, key: &Vec<u8>) -> (r: Option<usize>)
        requires
            self.wf(),
        ensures
            r is Some <==> has_reg(self.tokens@, key@),
            r matches Some(i) ==> reg_at(self.tokens@, key@, i as int),
            forall|j: int| reg_at(self.tokens@, key@, j) ==> r == Some(j as usize),
    {
        let n = self.tokens.len();
        let mut i: usize = 0;
        while i < n
            invariant
                self.wf(),
                n == self.tokens@.len(),
                0 <= i <= n,
                forall|k: int| 0 <= k < i ==> !reg_at(self.tokens@, key@, k),
            decreases n - i,
        {
            if ct_eq(&self.tokens[i].key, key) {
                proof {
                    assert(reg_at(self.tokens@, key@, i as int));
                    assert forall|j: int| reg_at(self.tokens@, key@, j) implies j == i as int by {
                        if j < i as int {
                            assert(!reg_at(self.tokens@, key@, j));
                        } else if (i as int) < j {
                            assert(self.tokens@[i as int].key@ != self.tokens@[j].key@);
                        }
                    }
                }
                return Some(i);
            }
            i += 1;
        }
        None
    }

    /// Removes the pending registration at `i`: a registration token is
    /// consumed by the account it creates.
    pub(crate) fn remove(&mut self, i: usize)
        requires
            old(self).wf(),
            i < old(self).tokens@.len(),
        ensures
            final(self).wf(),
            final(self).tokens@ == old(self).tokens@.remove(i as int),
    {
        proof {
            old(self).tokens@.remove_ensures(i as int);
        }
        self.tokens.remove(i);
        proof {
            let pre = old(self).tokens@;
            let post = self.tokens@;
            assert forall|j1: int, j2: int| 0 <= j1 < j2 < post.len() implies (
            #[trigger] post[j1]).key@ != (#[trigger] post[j2]).key@ by {
                let m1: int = if j1 < i as int {
                    j1
                } else {
                    j1 + 1
                };
                let m2: int = if j2 < i as int {
                    j2
                } else {
                    j2 + 1
                };
                assert(post[j1] == pre[m1]);
                assert(post[j2] == pre[m2]);
            }
        }
    }
}

} // verus!
