use darim::credentials::{RegistrationStore, RegistrationToken, TokenStore, UserStore};
use darim::errors::ServiceError;
use darim::hashing::hash_bytes;
use darim::session::SessionStore;
use darim::users::UserRoute;

fn bytes(s: &str) -> Vec<u8> {
    s.as_bytes().to_vec()
}

/// One account with address `park@email.com`, its stores, and a live session.
fn setup() -> (UserStore, TokenStore, SessionStore, u64, u64) {
    let mut users = UserStore::new();
    let mut regs = RegistrationStore::new();
    regs.issue(RegistrationToken {
        key: bytes("71I3Qz9u"),
        pin: bytes("P9d82Jc5"),
        email: bytes("park@email.com"),
        name: bytes("park"),
        password_hash: hash_bytes(&bytes("OldPw1234")),
        avatar_url: None,
    });
    let id = UserRoute::create_user(
        &mut users,
        &mut regs,
        &bytes("d63ee429"),
        &bytes("71I3Qz9u"),
        &bytes("P9d82Jc5"),
    )
    .unwrap();
    let mut sessions = SessionStore::new();
    let token = sessions.establish(id, 0, 1000);
    (users, TokenStore::new(), sessions, id, token)
}

#[test]
fn reset_succeeds_once_then_replays_fail() {
    let (mut users, mut tokens, mut sessions, _id, session_token) = setup();
    tokens.issue(bytes("d63ee429"), bytes("park@email.com"), hash_bytes(&bytes("P9d82Jc5")), 100);

    let first = UserRoute::reset_password(
        &mut users,
        &mut tokens,
        &mut sessions,
        &bytes("park@email.com"),
        &bytes("d63ee429"),
        &bytes("P9d82Jc5"),
        &bytes("71I3Qz9u"),
        50,
    );
    assert_eq!(first, Ok(true));
    assert_eq!(users.users[0].password_hash, hash_bytes(&bytes("71I3Qz9u")));
    // Session invalidation on reset: the prior session no longer resolves.
    assert_eq!(sessions.resolve(session_token, 60), None);

    // The same still-correct credentials now meet a consumed token.
    let second = UserRoute::reset_password(
        &mut users,
        &mut tokens,
        &mut sessions,
        &bytes("park@email.com"),
        &bytes("d63ee429"),
        &bytes("P9d82Jc5"),
        &bytes("AnotherPw"),
        55,
    );
    assert_eq!(second, Err(ServiceError::InvalidToken));
    assert_eq!(users.users[0].password_hash, hash_bytes(&bytes("71I3Qz9u")));

    let third = UserRoute::reset_password(
        &mut users,
        &mut tokens,
        &mut sessions,
        &bytes("park@email.com"),
        &bytes("d63ee429"),
        &bytes("P9d82Jc5"),
        &bytes("ThirdPw"),
        60,
    );
    assert_eq!(third, Err(ServiceError::InvalidToken));
}

#[test]
fn expired_token_fails_even_with_correct_credentials() {
    let (mut users, mut tokens, mut sessions, _id, _t) = setup();
    tokens.issue(bytes("tok-1"), bytes("park@email.com"), hash_bytes(&bytes("TempPw1")), 100);
    let r = UserRoute::reset_password(
        &mut users,
        &mut tokens,
        &mut sessions,
        &bytes("park@email.com"),
        &bytes("tok-1"),
        &bytes("TempPw1"),
        &bytes("NewPw1"),
        101,
    );
    assert_eq!(r, Err(ServiceError::Expired));
    assert_eq!(users.users[0].password_hash, hash_bytes(&bytes("OldPw1234")));
}

#[test]
fn wrong_temporary_password_is_unauthorized() {
    let (mut users, mut tokens, mut sessions, _id, session_token) = setup();
    tokens.issue(bytes("tok-1"), bytes("park@email.com"), hash_bytes(&bytes("TempPw1")), 100);
    let r = UserRoute::reset_password(
        &mut users,
        &mut tokens,
        &mut sessions,
        &bytes("park@email.com"),
        &bytes("tok-1"),
        &bytes("guess"),
        &bytes("NewPw1"),
        50,
    );
    assert_eq!(r, Err(ServiceError::Unauthorized));
    // A failed attempt consumes nothing and invalidates nothing.
    assert!(sessions.resolve(session_token, 60).is_some());
    let retry = UserRoute::reset_password(
        &mut users,
        &mut tokens,
        &mut sessions,
        &bytes("park@email.com"),
        &bytes("tok-1"),
        &bytes("TempPw1"),
        &bytes("NewPw1"),
        50,
    );
    assert_eq!(retry, Ok(true));
}

#[test]
fn unknown_token_pair_is_not_found() {
    let (mut users, mut tokens, mut sessions, _id, _t) = setup();
    tokens.issue(bytes("tok-1"), bytes("park@email.com"), hash_bytes(&bytes("TempPw1")), 100);
    let r = UserRoute::reset_password(
        &mut users,
        &mut tokens,
        &mut sessions,
        &bytes("other@email.com"),
        &bytes("tok-1"),
        &bytes("TempPw1"),
        &bytes("NewPw1"),
        50,
    );
    assert_eq!(r, Err(ServiceError::NotFound));
}
