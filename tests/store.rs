use user_posts::store::{Store, StoreError};

#[test]
fn users_get_consecutive_keys() {
    let mut store = Store::new();
    let a = store.create_user("alice".to_string()).unwrap();
    let b = store.create_user("bob".to_string()).unwrap();
    assert_eq!((a.id, a.username.as_str()), (1, "alice"));
    assert_eq!((b.id, b.username.as_str()), (2, "bob"));
}

#[test]
fn created_user_is_listed() {
    let mut store = Store::new();
    let created = store.create_user("carol".to_string()).unwrap();
    let users = store.list_users();
    assert_eq!(users.len(), 1);
    assert_eq!(users[0].id, created.id);
    assert_eq!(users[0].username, created.username);
}

#[test]
fn empty_store_lists_nothing() {
    let store = Store::new();
    assert!(store.list_users().is_empty());
    assert!(store.list_posts_for_user(1).is_empty());
}

#[test]
fn post_with_unknown_author_is_refused() {
    let mut store = Store::new();
    assert_eq!(
        store.create_post(Some(7), "hi".to_string()).unwrap_err(),
        StoreError::ConstraintViolation
    );
    assert!(store.list_posts_for_user(7).is_empty());
}

#[test]
fn post_without_author_is_stored() {
    let mut store = Store::new();
    let post = store.create_post(None, "anonymous".to_string()).unwrap();
    assert_eq!(post.id, 1);
    assert_eq!(post.user_id, None);
    assert_eq!(post.message, "anonymous");
}

#[test]
fn posts_are_listed_by_author() {
    let mut store = Store::new();
    let a = store.create_user("a".to_string()).unwrap();
    let b = store.create_user("b".to_string()).unwrap();
    store.create_post(Some(a.id), "one".to_string()).unwrap();
    store.create_post(Some(b.id), "two".to_string()).unwrap();
    store.create_post(Some(a.id), "three".to_string()).unwrap();
    let posts = store.list_posts_for_user(a.id);
    let ids: Vec<u64> = posts.iter().map(|p| p.id).collect();
    assert_eq!(ids, vec![1, 3]);
    assert_eq!(posts[1].message, "three");
}

#[test]
fn key_update_cascades_to_posts() {
    let mut store = Store::new();
    let a = store.create_user("a".to_string()).unwrap();
    store.create_post(Some(a.id), "one".to_string()).unwrap();
    store.create_post(None, "two".to_string()).unwrap();
    assert_eq!(store.update_user_id(a.id, 40), Ok(()));
    assert!(store.list_posts_for_user(a.id).is_empty());
    let moved = store.list_posts_for_user(40);
    assert_eq!(moved.len(), 1);
    assert_eq!(moved[0].message, "one");
    assert_eq!(store.list_users()[0].id, 40);
    let next = store.create_user("b".to_string()).unwrap();
    assert_eq!(next.id, 41);
}

#[test]
fn key_update_to_taken_key_is_refused() {
    let mut store = Store::new();
    store.create_user("a".to_string()).unwrap();
    store.create_user("b".to_string()).unwrap();
    assert_eq!(store.update_user_id(1, 2), Err(StoreError::ConstraintViolation));
    assert_eq!(store.update_user_id(1, 1), Ok(()));
    assert_eq!(store.update_user_id(9, 10), Err(StoreError::NoSuchRow));
    assert_eq!(store.update_user_id(1, u64::MAX), Err(StoreError::IdSpaceExhausted));
}

#[test]
fn referenced_user_cannot_be_deleted() {
    let mut store = Store::new();
    let a = store.create_user("a".to_string()).unwrap();
    store.create_post(Some(a.id), "kept".to_string()).unwrap();
    assert_eq!(store.delete_user(a.id).unwrap_err(), StoreError::ConstraintViolation);
    assert_eq!(store.list_users().len(), 1);
}

#[test]
fn unreferenced_user_is_deleted() {
    let mut store = Store::new();
    let a = store.create_user("a".to_string()).unwrap();
    let b = store.create_user("b".to_string()).unwrap();
    let gone = store.delete_user(a.id).unwrap();
    assert_eq!(gone.username, "a");
    let users = store.list_users();
    assert_eq!(users.len(), 1);
    assert_eq!(users[0].id, b.id);
    assert_eq!(store.delete_user(a.id).unwrap_err(), StoreError::NoSuchRow);
}
