use darim::session::{SessionStore, UserSession};

#[test]
fn establish_then_resolve() {
    let mut sessions = SessionStore::new();
    let token = sessions.establish(1, 0, 100);
    assert_eq!(sessions.resolve(token, 50), Some(UserSession { user_id: 1 }));
}

#[test]
fn resolve_expired_returns_none() {
    let mut sessions = SessionStore::new();
    let token = sessions.establish(1, 0, 100);
    assert_eq!(sessions.resolve(token, 100), None);
    assert_eq!(sessions.resolve(token, 101), None);
}

#[test]
fn resolve_unknown_token_returns_none() {
    let mut sessions = SessionStore::new();
    let token = sessions.establish(1, 0, 100);
    assert_eq!(sessions.resolve(token + 1, 50), None);
}

#[test]
fn invalidate_removes_session_and_is_idempotent() {
    let mut sessions = SessionStore::new();
    let t1 = sessions.establish(1, 0, 100);
    let t2 = sessions.establish(2, 0, 100);
    sessions.invalidate(t1);
    assert_eq!(sessions.resolve(t1, 10), None);
    assert_eq!(sessions.resolve(t2, 10), Some(UserSession { user_id: 2 }));
    let len_after_first = sessions.sessions.len();
    sessions.invalidate(t1);
    assert_eq!(sessions.sessions.len(), len_after_first);
    assert_eq!(sessions.resolve(t2, 10), Some(UserSession { user_id: 2 }));
}

#[test]
fn invalidate_user_removes_every_session_of_that_user() {
    let mut sessions = SessionStore::new();
    let a1 = sessions.establish(1, 0, 100);
    let a2 = sessions.establish(1, 5, 100);
    let b = sessions.establish(2, 0, 100);
    sessions.invalidate_user(1);
    assert_eq!(sessions.resolve(a1, 10), None);
    assert_eq!(sessions.resolve(a2, 10), None);
    assert_eq!(sessions.resolve(b, 10), Some(UserSession { user_id: 2 }));
}

#[test]
fn tokens_are_fresh_across_sessions() {
    let mut sessions = SessionStore::new();
    let t1 = sessions.establish(1, 0, 10);
    let t2 = sessions.establish(1, 0, 10);
    assert_ne!(t1, t2);
}
