use vstd::prelude::*;

use crate::store::{by_author, PostRow, Store, StoreError, UserRow};

verus! {

pub const STATUS_OK: u16 = 200;

pub const STATUS_CREATED: u16 = 201;

pub const STATUS_NOT_FOUND: u16 = 404;

pub const STATUS_CONFLICT: u16 = 409;

pub const STATUS_INTERNAL_ERROR: u16 = 500;

/// A user as the service returns it.
#[derive(Debug)]
pub struct User {
    pub id: u64,
    pub username: String,
}

/// A post as the service returns it.
#[derive(Debug)]
pub struct Post {
    pub id: u64,
    pub message: String,
}

/// The body of a request that creates a user.
#[derive(Debug)]
pub struct CreateUser {
    pub username: String,
}

/// The body of a request that creates a post.
#[derive(Debug)]
pub struct CreatePost {
    pub message: String,
}

pub open spec fn user_of(row: UserRow) -> User {
    User { id: row.id, username: row.username }
}

pub open spec fn post_of(row: PostRow) -> Post {
    Post { id: row.id, message: row.message }
}

/// The response body of the greeting endpoint.
pub fn root() -> (r: &'static str)
    ensures
        r@ == "Hello, World!"@,
{
    "Hello, World!"
}

/// The status that a failed store operation is reported with.
pub fn error_status(e: StoreError) -> (r: u16)
    ensures
        r == match e {
            StoreError::ConstraintViolation => STATUS_CONFLICT,
            StoreError::NoSuchRow => STATUS_NOT_FOUND,
            StoreError::IdSpaceExhausted => STATUS_INTERNAL_ERROR,
        },
{
    match e {
        StoreError::ConstraintViolation => STATUS_CONFLICT,
        StoreError::NoSuchRow => STATUS_NOT_FOUND,
        StoreError::IdSpaceExhausted => STATUS_INTERNAL_ERROR,
    }
}

/// `GET /users`: every user, in order of insertion.
pub fn list_users(store: &Store) -> (r: (u16, Vec<User>))
    ensures
        r.0 == STATUS_OK,
        r.1@ == store@.users.map_values(|u: UserRow| user_of(u)),
{
    let rows = store.list_users();
    let mut out: Vec<User> = Vec::new();
    let mut i: usize = 0;
    while i < rows.len()
        invariant
            i <= rows@.len(),
            rows@ == store@.users,
            out@ == rows@.take(i as int).map_values(|u: UserRow| user_of(u)),
        decreases rows@.len() - i,
    {
        out.push(User { id: rows[i].id, username: rows[i].username.clone() });
        i = i + 1;
        assert(out@ =~= rows@.take(i as int).map_values(|u: UserRow| user_of(u)));
    }
    assert(rows@.take(i as int) =~= rows@);
    (STATUS_OK, out)
}

/// `POST /users`: stores a user under the next key and returns it.
pub fn create_user(store: &mut Store, payload: CreateUser) -> (r: Result<(u16, User), StoreError>)
    requires
        old(store)@.wf(),
    ensures
        final(store)@.wf(),
        ({
            let (next, res) = old(store)@.create_user(payload.username);
            &&& final(store)@ == next
            &&& match res {
                Ok(row) => r == Ok::<(u16, User), StoreError>((STATUS_CREATED, user_of(row))),
                Err(e) => r == Err::<(u16, User), StoreError>(e),
            }
        }),
{
    match store.create_user(payload.username) {
        Ok(row) => Ok((STATUS_CREATED, User { id: row.id, username: row.username })),
        Err(e) => Err(e),
    }
}

/// `GET /users/{user_id}/posts`: the posts of that user, none when it has none
/// or does not exist.
pub fn list_posts(store: &Store, user_id: u32) -> (r: (u16, Vec<Post>))
    ensures
        r.0 == STATUS_OK,
        r.1@ == store@.posts.filter(by_author(user_id as u64)).map_values(|p: PostRow| post_of(p)),
{
    let rows = store.list_posts_for_user(user_id as u64);
    let mut out: Vec<Post> = Vec::new();
    let mut i: usize = 0;
    while i < rows.len()
        invariant
            i <= rows@.len(),
            rows@ == store@.posts.filter(by_author(user_id as u64)),
            out@ == rows@.take(i as int).map_values(|p: PostRow| post_of(p)),
        decreases rows@.len() - i,
    {
        out.push(Post { id: rows[i].id, message: rows[i].message.clone() });
        i = i + 1;
        assert(out@ =~= rows@.take(i as int).map_values(|p: PostRow| post_of(p)));
    }
    assert(rows@.take(i as int) =~= rows@);
    (STATUS_OK, out)
}

/// `POST /users/{user_id}/posts`: stores a post of that user; the store
/// refuses it when the user does not exist.
pub fn create_post(store: &mut Store, user_id: u32, payload: CreatePost) -> (r: Result<
    (u16, Post),
    StoreError,
>)
    requires
        old(store)@.wf(),
    ensures
        final(store)@.wf(),
        ({
            let (next, res) = old(store)@.create_post(Some(user_id as u64), payload.message);
            &&& final(store)@ == next
            &&& match res {
                Ok(row) => r == Ok::<(u16, Post), StoreError>((STATUS_CREATED, post_of(row))),
                Err(e) => r == Err::<(u16, Post), StoreError>(e),
            }
        }),
{
    match store.create_post(Some(user_id as u64), payload.message) {
        Ok(row) => Ok((STATUS_CREATED, Post { id: row.id, message: row.message })),
        Err(e) => Err(e),
    }
}

} // verus!
