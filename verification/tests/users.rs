use darim::credentials::{RegistrationStore, RegistrationToken, UserStore};
use darim::errors::ServiceError;
use darim::hashing::hash_bytes;
use darim::session::{SessionStore, UserSession};
use darim::users::{UpdateArgs, UserRoute};

fn bytes(s: &str) -> Vec<u8> {
    s.as_bytes().to_vec()
}

fn pending(key: &str, pin: &str, email: &str, name: &str) -> RegistrationToken {
    RegistrationToken {
        key: bytes(key),
        pin: bytes(pin),
        email: bytes(email),
        name: bytes(name),
        password_hash: hash_bytes(&bytes("Ir5c7y8dS3")),
        avatar_url: None,
    }
}

#[test]
fn registration_scenario_pin_mismatch_then_match() {
    let mut users = UserStore::new();
    let mut regs = RegistrationStore::new();
    regs.issue(pending("71I3Qz9u", "P9d82Jc5", "park@email.com", "park"));

    let pk = bytes("d63ee429");
    let wrong = UserRoute::create_user(&mut users, &mut regs, &pk, &bytes("71I3Qz9u"), &bytes("wrong"));
    assert_eq!(wrong, Err(ServiceError::Unauthorized));
    assert_eq!(users.users.len(), 0);

    let ok = UserRoute::create_user(&mut users, &mut regs, &pk, &bytes("71I3Qz9u"), &bytes("P9d82Jc5"));
    assert_eq!(ok, Ok(0));
    assert_eq!(users.users.len(), 1);
    assert_eq!(users.users[0].public_key, bytes("d63ee429"));
    assert_eq!(users.users[0].email, bytes("park@email.com"));
    // The registration token is consumed by the account it created.
    let again =
        UserRoute::create_user(&mut users, &mut regs, &pk, &bytes("71I3Qz9u"), &bytes("P9d82Jc5"));
    assert_eq!(again, Err(ServiceError::NotFound));
}

#[test]
fn registration_unknown_key_is_not_found() {
    let mut users = UserStore::new();
    let mut regs = RegistrationStore::new();
    let r = UserRoute::create_user(&mut users, &mut regs, &bytes("pk"), &bytes("nope"), &bytes("p"));
    assert_eq!(r, Err(ServiceError::NotFound));
}

#[test]
fn registration_duplicate_public_key_is_conflict() {
    let mut users = UserStore::new();
    let mut regs = RegistrationStore::new();
    regs.issue(pending("k1", "p1", "a@x", "a"));
    regs.issue(pending("k2", "p2", "b@x", "b"));
    let pk = bytes("same-key");
    assert_eq!(UserRoute::create_user(&mut users, &mut regs, &pk, &bytes("k1"), &bytes("p1")), Ok(0));
    assert_eq!(
        UserRoute::create_user(&mut users, &mut regs, &pk, &bytes("k2"), &bytes("p2")),
        Err(ServiceError::Conflict)
    );
}

#[test]
fn update_user_requires_matching_session() {
    let mut users = UserStore::new();
    let mut regs = RegistrationStore::new();
    regs.issue(pending("k", "p", "a@x", "a"));
    let id = UserRoute::create_user(&mut users, &mut regs, &bytes("pk"), &bytes("k"), &bytes("p"))
        .unwrap();
    let up = UpdateArgs { name: Some(bytes("park")), password: None, avatar_url: None };
    let r = UserRoute::update_user(&mut users, Some(UserSession { user_id: id + 1 }), id, &up);
    assert_eq!(r, Err(ServiceError::Unauthorized));
    let r = UserRoute::update_user(&mut users, None, id, &up);
    assert_eq!(r, Err(ServiceError::Unauthorized));
    assert_eq!(users.users[0].name, bytes("a"));
}

#[test]
fn update_user_rehashes_password_and_keeps_rest() {
    let mut users = UserStore::new();
    let mut regs = RegistrationStore::new();
    regs.issue(pending("k", "p", "a@x", "a"));
    let id = UserRoute::create_user(&mut users, &mut regs, &bytes("pk"), &bytes("k"), &bytes("p"))
        .unwrap();
    let up = UpdateArgs {
        name: Some(bytes("park")),
        password: Some(bytes("Ne5wPw99")),
        avatar_url: Some(bytes("avatar.jpg")),
    };
    assert_eq!(UserRoute::update_user(&mut users, Some(UserSession { user_id: id }), id, &up), Ok(true));
    assert_eq!(users.users[0].name, bytes("park"));
    assert_eq!(users.users[0].password_hash, hash_bytes(&bytes("Ne5wPw99")));
    assert_eq!(users.users[0].avatar_url, Some(bytes("avatar.jpg")));
    assert_eq!(users.users[0].email, bytes("a@x"));
}

#[test]
fn delete_user_requires_own_session_and_drops_sessions() {
    let mut users = UserStore::new();
    let mut regs = RegistrationStore::new();
    let mut sessions = SessionStore::new();
    regs.issue(pending("k", "p", "a@x", "a"));
    let id = UserRoute::create_user(&mut users, &mut regs, &bytes("pk"), &bytes("k"), &bytes("p"))
        .unwrap();
    let token = sessions.establish(id, 0, 100);

    let r = UserRoute::delete_user(&mut users, &mut sessions, Some(UserSession { user_id: id + 1 }), id);
    assert_eq!(r, Err(ServiceError::Unauthorized));

    let r = UserRoute::delete_user(&mut users, &mut sessions, Some(UserSession { user_id: id }), id);
    assert_eq!(r, Ok(true));
    assert_eq!(users.users.len(), 0);
    assert_eq!(sessions.resolve(token, 10), None);

    let r = UserRoute::delete_user(&mut users, &mut sessions, Some(UserSession { user_id: id }), id);
    assert_eq!(r, Err(ServiceError::NotFound));
}
