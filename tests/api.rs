use user_posts::api::{
    create_post, create_user, error_status, list_posts, list_users, root, CreatePost, CreateUser,
};
use user_posts::store::{Store, StoreError};

#[test]
fn end_to_end_scenario() {
    let mut store = Store::new();
    let (status, user) =
        create_user(&mut store, CreateUser { username: "alice".to_string() }).unwrap();
    assert_eq!(status, 201);
    assert_eq!((user.id, user.username.as_str()), (1, "alice"));

    let (status, post) =
        create_post(&mut store, 1, CreatePost { message: "hi".to_string() }).unwrap();
    assert_eq!(status, 201);
    assert_eq!((post.id, post.message.as_str()), (1, "hi"));

    let (status, posts) = list_posts(&store, 1);
    assert_eq!(status, 200);
    assert_eq!(posts.len(), 1);
    assert_eq!((posts[0].id, posts[0].message.as_str()), (1, "hi"));

    let (status, posts) = list_posts(&store, 2);
    assert_eq!(status, 200);
    assert!(posts.is_empty());
}

#[test]
fn list_users_round_trip() {
    let mut store = Store::new();
    let (_, made) = create_user(&mut store, CreateUser { username: "dora".to_string() }).unwrap();
    let (status, users) = list_users(&store);
    assert_eq!(status, 200);
    assert_eq!(users.len(), 1);
    assert_eq!(users[0].id, made.id);
    assert_eq!(users[0].username, "dora");
}

#[test]
fn post_for_unknown_user_fails() {
    let mut store = Store::new();
    let err = create_post(&mut store, 3, CreatePost { message: "x".to_string() }).unwrap_err();
    assert_eq!(err, StoreError::ConstraintViolation);
    assert_eq!(error_status(err), 409);
}

#[test]
fn error_statuses() {
    assert_eq!(error_status(StoreError::NoSuchRow), 404);
    assert_eq!(error_status(StoreError::IdSpaceExhausted), 500);
}

#[test]
fn greeting() {
    assert_eq!(root(), "Hello, World!");
}
