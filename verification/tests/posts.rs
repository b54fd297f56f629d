use darim::errors::ServiceError;
use darim::posts::{
    create_post, delete_post, get_post, get_posts, update_post, CreateArgs, PostStore, UpdateArgs,
};
use darim::session::UserSession;

fn args(title: &str, content: &str, date: u64) -> CreateArgs {
    CreateArgs { title: title.as_bytes().to_vec(), content: content.as_bytes().to_vec(), date }
}

#[test]
fn create_stamps_owner_from_session() {
    let mut posts = PostStore::new();
    let session = Some(UserSession { user_id: 1 });
    let id = create_post(&mut posts, session, &args("Lorem ipsum", "dolor sit amet", 7), 100)
        .unwrap();
    let p = get_post(&posts, session, id).unwrap();
    assert_eq!(p.owner_id, 1);
    assert_eq!(p.id, id);
    assert_eq!(p.title, b"Lorem ipsum".to_vec());
    assert_eq!(p.content, b"dolor sit amet".to_vec());
    assert_eq!(p.date, 7);
    assert_eq!(p.created_at, 100);
    assert_eq!(p.updated_at, None);
}

#[test]
fn anonymous_caller_cannot_create_or_read() {
    let mut posts = PostStore::new();
    assert_eq!(
        create_post(&mut posts, None, &args("a", "b", 1), 0),
        Err(ServiceError::Unauthorized)
    );
    match get_post(&posts, None, 0) {
        Err(ServiceError::Unauthorized) => {}
        _ => panic!("anonymous read must be unauthorized"),
    }
    match get_posts(&posts, None) {
        Err(ServiceError::Unauthorized) => {}
        _ => panic!("anonymous list must be unauthorized"),
    }
}

#[test]
fn ownership_scenario_delete_then_read() {
    // User id 1 owns post id 10: ids are assigned in sequence, so the
    // eleventh created post carries id 10.
    let mut posts = PostStore::new();
    let owner = Some(UserSession { user_id: 1 });
    let other = Some(UserSession { user_id: 2 });
    let mut last = 0;
    for k in 0..11u64 {
        last = create_post(&mut posts, owner, &args("t", "c", k), k).unwrap();
    }
    assert_eq!(last, 10);
    assert_eq!(delete_post(&mut posts, other, 10), Err(ServiceError::Unauthorized));
    assert_eq!(delete_post(&mut posts, owner, 10), Ok(true));
    match get_post(&posts, owner, 10) {
        Err(ServiceError::NotFound) => {}
        _ => panic!("deleted post must be gone"),
    }
}

#[test]
fn get_post_unknown_id_is_not_found() {
    let posts = PostStore::new();
    match get_post(&posts, Some(UserSession { user_id: 1 }), 5) {
        Err(ServiceError::NotFound) => {}
        _ => panic!("unknown id must be not found"),
    }
}

#[test]
fn get_posts_lists_only_own_posts_in_order() {
    let mut posts = PostStore::new();
    let alice = Some(UserSession { user_id: 1 });
    let bob = Some(UserSession { user_id: 2 });
    let a1 = create_post(&mut posts, alice, &args("a1", "x", 1), 0).unwrap();
    let _b1 = create_post(&mut posts, bob, &args("b1", "y", 2), 0).unwrap();
    let a2 = create_post(&mut posts, alice, &args("a2", "z", 3), 0).unwrap();
    let list = get_posts(&posts, alice).unwrap();
    assert_eq!(list.len(), 2);
    assert_eq!(list[0].id, a1);
    assert_eq!(list[1].id, a2);
    assert!(list.iter().all(|p| p.owner_id == 1));
}

#[test]
fn update_post_replaces_supplied_fields_only() {
    let mut posts = PostStore::new();
    let owner = Some(UserSession { user_id: 1 });
    let id = create_post(&mut posts, owner, &args("before", "kept", 4), 10).unwrap();
    let up = UpdateArgs { title: Some(b"after".to_vec()), content: None, date: None };
    assert_eq!(update_post(&mut posts, owner, id, &up, 20), Ok(true));
    let p = get_post(&posts, owner, id).unwrap();
    assert_eq!(p.title, b"after".to_vec());
    assert_eq!(p.content, b"kept".to_vec());
    assert_eq!(p.date, 4);
    assert_eq!(p.created_at, 10);
    assert_eq!(p.updated_at, Some(20));
}

#[test]
fn update_post_by_non_owner_is_unauthorized() {
    let mut posts = PostStore::new();
    let owner = Some(UserSession { user_id: 1 });
    let other = Some(UserSession { user_id: 2 });
    let id = create_post(&mut posts, owner, &args("t", "c", 1), 0).unwrap();
    let up = UpdateArgs { title: Some(b"x".to_vec()), content: None, date: None };
    assert_eq!(update_post(&mut posts, other, id, &up, 5), Err(ServiceError::Unauthorized));
    let p = get_post(&posts, owner, id).unwrap();
    assert_eq!(p.title, b"t".to_vec());
}
