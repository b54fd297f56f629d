//! The user service.
//!
//! Registration, account update and deletion, and the password-reset
//! protocol. Registration and reset are exempt from the session check —
//! they establish identity instead of assuming it — while update and
//! deletion go through the authorization guard against the account's own
//! id.

use vstd::prelude::*;

verus! {

use crate::auth::{allowed, authorize};
use crate::bytes::{copy_bytes, copy_opt_bytes, ct_eq, opt_bytes_eq};
use crate::credentials::{
    has_email, has_public_key, has_reg, has_token, has_user_id, reg_at, token_at,
    token_pairs_distinct, user_at_email, user_at_id, RegistrationStore, ResetToken, TokenStore,
    User, UserStore,
};
use crate::errors::ServiceError;
use crate::hashing::{hash_bytes, hash_of};
use crate::session::{not_owned_by, SessionStore, UserSession};

/// What a caller supplies to update an account; absent fields are kept. A
/// supplied password is re-hashed; the store never sees it in the clear
/// past this call.
pub struct UpdateArgs {
    pub name: Option<Vec<u8>>,
    pub password: Option<Vec<u8>>,
    pub avatar_url: Option<Vec<u8>>,
}

/// What an account update leaves at the account's slot: supplied fields
/// replaced (the password as its digest), identity fields untouched.
pub open spec fn user_updated(new: User, prev: User, args: UpdateArgs) -> bool {
    &&& new.id == prev.id
    &&& new.email@ == prev.email@
    &&& new.public_key@ == prev.public_key@
    &&& new.name@ == (match args.name {
        Some(n) => n@,
        None => prev.name@,
    })
    &&& new.password_hash == (match args.password {
        Some(p) => hash_of(p@),
        None => prev.password_hash,
    })
    &&& (match args.avatar_url {
        Some(a) => new.avatar_url matches Some(v) && v@ == a@,
        None => new.avatar_url == prev.avatar_url,
    })
}

/// A reset token verifies at `now` against a presented temporary password
/// exactly when it is unconsumed, inside its window, and the digest
/// matches.
pub open spec fn reset_verifies(t: ResetToken, temp: Seq<u8>, now: u64) -> bool {
    &&& !t.consumed
    &&& now <= t.expires_at
    &&& hash_of(temp) == t.temp_password_hash
}

/// The user-facing operations, each taking already-parsed plain values
/// and the stores they act on.
pub struct UserRoute {}

impl UserRoute {
    /// Registers a new account from a public key and a registration
    /// token's key/pin pair, and returns the fresh user id. Fails
    /// `NotFound` when no registration is filed under the key,
    /// `Unauthorized` when the pin does not match (compared in constant
    /// time), and `Conflict` when the public key or the pending address is
    /// already taken. On any failure nothing changes; on success the
    /// pending profile becomes an account and the registration is
    /// consumed.
    pub fn create_user(
        users: &mut UserStore,
        registrations: &mut RegistrationStore,
        user_public_key: &Vec<u8>,
        token_key: &Vec<u8>,
        token_pin: &Vec<u8>,
    ) -> (r: Result<u64, ServiceError>)
        requires
            old(users).wf(),
            old(registrations).wf(),
            old(users).next_id < u64::MAX,
        ensures
            final(users).wf(),
            final(registrations).wf(),
            !has_reg(old(registrations).tokens@, token_key@) ==> r == Err::<u64, ServiceError>(
                ServiceError::NotFound,
            ) && *final(users) == *old(users) && *final(registrations) == *old(registrations),
            forall|i: int|
                #[trigger] reg_at(old(registrations).tokens@, token_key@, i) ==> {
                    let tok = old(registrations).tokens@[i];
                    if tok.pin@ != token_pin@ {
                        r == Err::<u64, ServiceError>(ServiceError::Unauthorized) && *final(users)
                            == *old(users) && *final(registrations) == *old(registrations)
                    } else if has_public_key(old(users).users@, user_public_key@) || has_email(
                        old(users).users@,
                        tok.email@,
                    ) {
                        r == Err::<u64, ServiceError>(ServiceError::Conflict) && *final(users)
                            == *old(users) && *final(registrations) == *old(registrations)
                    } else {
                        &&& r == Ok::<u64, ServiceError>(old(users).next_id)
                        &&& final(users).next_id == old(users).next_id + 1
                        &&& final(users).users@.len() == old(users).users@.len() + 1
                        &&& final(users).users@.subrange(0, old(users).users@.len() as int) == old(
                            users,
                        ).users@
                        &&& final(users).users@.last().id == old(users).next_id
                        &&& final(users).users@.last().email@ == tok.email@
                        &&& final(users).users@.last().public_key@ == user_public_key@
                        &&& final(users).users@.last().password_hash == tok.password_hash
                        &&& final(users).users@.last().name@ == tok.name@
                        &&& opt_bytes_eq(final(users).users@.last().avatar_url, tok.avatar_url)
                        &&& final(registrations).tokens@ == old(registrations).tokens@.remove(i)
                    }
                },
    {
        let i = match registrations.find(token_key) {
            Some(i) => i,
            None => {
                return Err(ServiceError::NotFound);
            },
        };
        if !ct_eq(&registrations.tokens[i].pin, token_pin) {
            return Err(ServiceError::Unauthorized);
        }
        if users.contains_public_key(user_public_key) {
            return Err(ServiceError::Conflict);
        }
        if users.contains_email(&registrations.tokens[i].email) {
            return Err(ServiceError::Conflict);
        }
        let tok = &registrations.tokens[i];
        let email = copy_bytes(&tok.email);
        let name = copy_bytes(&tok.name);
        let avatar_url = copy_opt_bytes(&tok.avatar_url);
        let password_hash = tok.password_hash;
        let id = users.register(email, copy_bytes(user_public_key), password_hash, name, avatar_url);
        registrations.remove(i);
        Ok(id)
    }

    /// Deletes the account with id `id`. Only a session bound to that very
    /// id may do so; every session of the deleted account is invalidated
    /// with it. Fails `Unauthorized` when the guard refuses, `NotFound`
    /// when no account has the id; on failure nothing changes.
    pub fn delete_user(
        users: &mut UserStore,
        sessions: &mut SessionStore,
        session: Option<UserSession>,
        id: u64,
    ) -> (r: Result<bool, ServiceError>)
        requires
            old(users).wf(),
            old(sessions).wf(),
        ensures
            final(users).wf(),
            final(sessions).wf(),
            final(users).next_id == old(users).next_id,
            final(sessions).next_token == old(sessions).next_token,
            !allowed(session, id) ==> r == Err::<bool, ServiceError>(ServiceError::Unauthorized)
                && *final(users) == *old(users) && *final(sessions) == *old(sessions),
            allowed(session, id) && !has_user_id(old(users).users@, id) ==> r == Err::<
                bool,
                ServiceError,
            >(ServiceError::NotFound) && *final(users) == *old(users) && *final(sessions) == *old(
                sessions,
            ),
            allowed(session, id) && has_user_id(old(users).users@, id) ==> {
                &&& r == Ok::<bool, ServiceError>(true)
                &&& !has_user_id(final(users).users@, id)
                &&& (forall|i: int|
                    #[trigger] user_at_id(old(users).users@, id, i) ==> final(users).users@ == old(
                        users,
                    ).users@.remove(i))
                &&& final(sessions).sessions@ == old(sessions).sessions@.filter(not_owned_by(id))
            },
    {
        match authorize(session, id) {
            Ok(_) => {},
            Err(e) => {
                return Err(e);
            },
        }
        let found = users.remove_by_id(id);
        if !found {
            return Err(ServiceError::NotFound);
        }
        sessions.invalidate_user(id);
        Ok(true)
    }

    /// Updates the account with id `id`. Only a session bound to that very
    /// id may do so. Fails `Unauthorized` when the guard refuses,
    /// `NotFound` when no account has the id; on failure nothing changes.
    /// On success the supplied fields are replaced — the password as its
    /// digest — and every other account is untouched.
    pub fn update_user(
        users: &mut UserStore,
        session: Option<UserSession>,
        id: u64,
        args: &UpdateArgs,
    ) -> (r: Result<bool, ServiceError>)
        requires
            old(users).wf(),
        ensures
            final(users).wf(),
            final(users).next_id == old(users).next_id,
            !allowed(session, id) ==> r == Err::<bool, ServiceError>(ServiceError::Unauthorized)
                && *final(users) == *old(users),
            allowed(session, id) && !has_user_id(old(users).users@, id) ==> r == Err::<
                bool,
                ServiceError,
            >(ServiceError::NotFound) && *final(users) == *old(users),
            allowed(session, id) ==> forall|i: int|
                #[trigger] user_at_id(old(users).users@, id, i) ==> {
                    &&& r == Ok::<bool, ServiceError>(true)
                    &&& final(users).users@.len() == old(users).users@.len()
                    &&& (forall|j: int|
                        0 <= j < old(users).users@.len() && j != i ==> final(users).users@[j]
                            == old(users).users@[j])
                    &&& user_updated(final(users).users@[i], old(users).users@[i], *args)
                },
    {
        match authorize(session, id) {
            Ok(_) => {},
            Err(e) => {
                return Err(e);
            },
        }
        let i = match users.find_by_id(id) {
            Some(i) => i,
            None => {
                return Err(ServiceError::NotFound);
            },
        };
        let password_hash = match &args.password {
            Some(p) => Some(hash_bytes(p)),
            None => None,
        };
        let u = &mut users.users[i];
        match &args.name {
            Some(n) => {
                u.name = copy_bytes(n);
            },
            None => {},
        }
        match password_hash {
            Some(h) => {
                u.password_hash = h;
            },
            None => {},
        }
        match &args.avatar_url {
            Some(a) => {
                u.avatar_url = Some(copy_bytes(a));
            },
            None => {},
        }
        proof {
            let pre = old(users).users@;
            let post = users.users@;
            assert forall|j1: int, j2: int| 0 <= j1 < j2 < post.len() implies (
            #[trigger] post[j1]).id != (#[trigger] post[j2]).id && post[j1].email@
                != post[j2].email@ && post[j1].public_key@ != post[j2].public_key@ by {
                assert(pre[j1].id != pre[j2].id && pre[j1].email@ != pre[j2].email@
                    && pre[j1].public_key@ != pre[j2].public_key@);
            }
        }
        Ok(true)
    }

    /// Resets an account's password from a reset token and its temporary
    /// password, with no session involved. The token is looked up by
    /// `(email, token_id)`: fails `NotFound` when absent, `InvalidToken`
    /// when already consumed — its terminal state, whatever the
    /// credentials — `Expired` when past its window, and `Unauthorized`
    /// when the temporary password's digest does not match. On success,
    /// atomically: the account's password digest becomes that of
    /// `new_password`, the token is consumed, and every session of the
    /// account is invalidated. On any failure nothing changes.
    pub fn reset_password(
        users: &mut UserStore,
        tokens: &mut TokenStore,
        sessions: &mut SessionStore,
        email: &Vec<u8>,
        token_id: &Vec<u8>,
        temporary_password: &Vec<u8>,
        new_password: &Vec<u8>,
        now: u64,
    ) -> (r: Result<bool, ServiceError>)
        requires
            old(users).wf(),
            old(tokens).wf(),
            old(sessions).wf(),
        ensures
            final(users).wf(),
            final(tokens).wf(),
            final(sessions).wf(),
            final(users).next_id == old(users).next_id,
            final(sessions).next_token == old(sessions).next_token,
            !has_token(old(tokens).tokens@, email@, token_id@) ==> r == Err::<bool, ServiceError>(
                ServiceError::NotFound,
            ) && *final(users) == *old(users) && *final(tokens) == *old(tokens) && *final(sessions)
                == *old(sessions),
            forall|i: int|
                #[trigger] token_at(old(tokens).tokens@, email@, token_id@, i) ==> {
                    let tok = old(tokens).tokens@[i];
                    if tok.consumed {
                        r == Err::<bool, ServiceError>(ServiceError::InvalidToken) && *final(users)
                            == *old(users) && *final(tokens) == *old(tokens) && *final(sessions)
                            == *old(sessions)
                    } else if now > tok.expires_at {
                        r == Err::<bool, ServiceError>(ServiceError::Expired) && *final(users)
                            == *old(users) && *final(tokens) == *old(tokens) && *final(sessions)
                            == *old(sessions)
                    } else if hash_of(temporary_password@) != tok.temp_password_hash {
                        r == Err::<bool, ServiceError>(ServiceError::Unauthorized) && *final(users)
                            == *old(users) && *final(tokens) == *old(tokens) && *final(sessions)
                            == *old(sessions)
                    } else if !has_email(old(users).users@, email@) {
                        r == Err::<bool, ServiceError>(ServiceError::NotFound) && *final(users)
                            == *old(users) && *final(tokens) == *old(tokens) && *final(sessions)
                            == *old(sessions)
                    } else {
                        &&& r == Ok::<bool, ServiceError>(true)
                        &&& final(tokens).tokens@ == old(tokens).tokens@.update(
                            i,
                            (ResetToken { consumed: true, ..old(tokens).tokens@[i] }),
                        )
                        &&& (forall|u: int|
                            #[trigger] user_at_email(old(users).users@, email@, u) ==> final(users).users@
                                == old(users).users@.update(
                                u,
                                (User {
                                    password_hash: hash_of(new_password@),
                                    ..old(users).users@[u]
                                }),
                            ) && final(sessions).sessions@ == old(sessions).sessions@.filter(
                                not_owned_by(old(users).users@[u].id),
                            ))
                    }
                },
    {
        let i = match tokens.find(email, token_id) {
            Some(i) => i,
            None => {
                return Err(ServiceError::NotFound);
            },
        };
        if tokens.tokens[i].consumed {
            return Err(ServiceError::InvalidToken);
        }
        if now > tokens.tokens[i].expires_at {
            return Err(ServiceError::Expired);
        }
        if hash_bytes(temporary_password) != tokens.tokens[i].temp_password_hash {
            return Err(ServiceError::Unauthorized);
        }
        let u = match users.find_by_email(email) {
            Some(u) => u,
            None => {
                return Err(ServiceError::NotFound);
            },
        };
        let user_id = users.users[u].id;
        // The commit point: every failure has already returned, so the
        // three writes below land together or not at all.
        let new_hash = hash_bytes(new_password);
        let found = users.set_password_by_email(email, new_hash);
        proof {
            assert(found);
        }
        tokens.consume(i);
        sessions.invalidate_user(user_id);
        Ok(true)
    }
}

/// Anti-replay law: once a reset has consumed the token filed under
/// `(email, token_id)`, every token filed under that pair — there is
/// exactly one — is consumed, so by `reset_password`'s contract any
/// further attempt against the pair fails with `InvalidToken`, whatever
/// the credentials. Of two serialized attempts with correct credentials,
/// exactly the first succeeds.
pub proof fn lemma_reset_anti_replay(
    tokens: Seq<ResetToken>,
    post: Seq<ResetToken>,
    email: Seq<u8>,
    token_id: Seq<u8>,
    i: int,
)
    requires
        token_pairs_distinct(tokens),
        token_at(tokens, email, token_id, i),
        post == tokens.update(i, (ResetToken { consumed: true, ..tokens[i] })),
    ensures
        forall|j: int| #[trigger] token_at(post, email, token_id, j) ==> post[j].consumed,
{
    assert forall|j: int| token_at(post, email, token_id, j) implies post[j].consumed by {
        if j != i {
            assert(post[j] == tokens[j]);
            if j < i {
                assert(!(tokens[j].email@ == tokens[i].email@ && tokens[j].token_id@
                    == tokens[i].token_id@));
            } else {
                assert(!(tokens[i].email@ == tokens[j].email@ && tokens[i].token_id@
                    == tokens[j].token_id@));
            }
        }
    }
}

/// Expiry law: a token past its window never verifies, whatever temporary
/// password is presented, so by `reset_password`'s contract an unconsumed
/// expired token always yields `Expired` — correct credentials included.
pub proof fn lemma_expired_token_never_verifies(t: ResetToken, temp: Seq<u8>, now: u64)
    requires
        now > t.expires_at,
    ensures
        !reset_verifies(t, temp, now),
{
}

} // verus!
