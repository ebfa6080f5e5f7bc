use vstd::prelude::*;

verus! {

/// A stored user.
#[derive(Debug)]
pub struct UserRow {
    pub id: u64,
    pub username: String,
}

/// A stored post; `user_id`, when present, names an existing user.
#[derive(Debug)]
pub struct PostRow {
    pub id: u64,
    pub message: String,
    pub user_id: Option<u64>,
}

#[derive(Clone, Copy, Debug, PartialEq, Eq, Structural)]
pub enum StoreError {
    /// A write would break a key or a foreign key.
    ConstraintViolation,
    /// No row has the given key.
    NoSuchRow,
    /// Every key of the column is used up.
    IdSpaceExhausted,
}

/// The contents of a store: its rows in order of insertion and the next keys to hand out.
pub struct StoreModel {
    pub users: Seq<UserRow>,
    pub posts: Seq<PostRow>,
    pub next_user_id: u64,
    pub next_post_id: u64,
}

/// Posts whose author is `user_id`.
pub open spec fn by_author(user_id: u64) -> spec_fn(PostRow) -> bool {
    |p: PostRow| p.user_id == Some(user_id)
}

/// A post row with its author key moved from `from` to `to`.
pub open spec fn retarget(p: PostRow, from: u64, to: u64) -> PostRow {
    if p.user_id == Some(from) {
        PostRow { id: p.id, message: p.message, user_id: Some(to) }
    } else {
        p
    }
}

impl StoreModel {
    pub open spec fn has_user(self, id: u64) -> bool {
        exists|i: int| 0 <= i < self.users.len() && self.users[i].id == id
    }

    pub open spec fn user_position(self, id: u64) -> int {
        choose|i: int| 0 <= i < self.users.len() && self.users[i].id == id
    }

    /// Some post names `id` as its author.
    pub open spec fn is_referenced(self, id: u64) -> bool {
        exists|j: int| 0 <= j < self.posts.len() && #[trigger] self.posts[j].user_id == Some(id)
    }

    /// Keys are unique and below the next key to hand out, and every author exists.
    pub open spec fn wf(self) -> bool {
        &&& forall|i: int| 0 <= i < self.users.len() ==> #[trigger] self.users[i].id < self.next_user_id
        &&& forall|i: int, k: int|
            0 <= i < self.users.len() && 0 <= k < self.users.len() && i != k ==> self.users[i].id
                != self.users[k].id
        &&& forall|j: int| 0 <= j < self.posts.len() ==> #[trigger] self.posts[j].id < self.next_post_id
        &&& forall|j: int, k: int|
            0 <= j < self.posts.len() && 0 <= k < self.posts.len() && j != k ==> self.posts[j].id
                != self.posts[k].id
        &&& forall|j: int|
            0 <= j < self.posts.len() ==> match #[trigger] self.posts[j].user_id {
                Some(u) => self.has_user(u),
                None => true,
            }
    }

    /// Inserting a user: it takes the next key.
    pub open spec fn create_user(self, username: String) -> (StoreModel, Result<UserRow, StoreError>) {
        if self.next_user_id == u64::MAX {
            (self, Err(StoreError::IdSpaceExhausted))
        } else {
            let row = UserRow { id: self.next_user_id, username };
            (
                StoreModel {
                    users: self.users.push(row),
                    next_user_id: (self.next_user_id + 1) as u64,
                    ..self
                },
                Ok(row),
            )
        }
    }

    /// Inserting a post: its author, when given, must exist.
    pub open spec fn create_post(self, user_id: Option<u64>, message: String) -> (
        StoreModel,
        Result<PostRow, StoreError>,
    ) {
        if user_id matches Some(u) && !self.has_user(u) {
            (self, Err(StoreError::ConstraintViolation))
        } else if self.next_post_id == u64::MAX {
            (self, Err(StoreError::IdSpaceExhausted))
        } else {
            let row = PostRow { id: self.next_post_id, message, user_id };
            (
                StoreModel {
                    posts: self.posts.push(row),
                    next_post_id: (self.next_post_id + 1) as u64,
                    ..self
                },
                Ok(row),
            )
        }
    }

    /// Changing a user's key; the posts of that user follow it.
    pub open spec fn update_user_id(self, from: u64, to: u64) -> (StoreModel, Result<(), StoreError>) {
        if !self.has_user(from) {
            (self, Err(StoreError::NoSuchRow))
        } else if from == to {
            (self, Ok(()))
        } else if self.has_user(to) {
            (self, Err(StoreError::ConstraintViolation))
        } else if to == u64::MAX {
            (self, Err(StoreError::IdSpaceExhausted))
        } else {
            let pos = self.user_position(from);
            (
                StoreModel {
                    users: self.users.update(
                        pos,
                        UserRow { id: to, username: self.users[pos].username },
                    ),
                    posts: self.posts.map_values(|p: PostRow| retarget(p, from, to)),
                    next_user_id: if to < self.next_user_id {
                        self.next_user_id
                    } else {
                        (to + 1) as u64
                    },
                    next_post_id: self.next_post_id,
                },
                Ok(()),
            )
        }
    }

    /// Deleting a user: refused while a post names it.
    pub open spec fn delete_user(self, id: u64) -> (StoreModel, Result<UserRow, StoreError>) {
        if !self.has_user(id) {
            (self, Err(StoreError::NoSuchRow))
        } else if self.is_referenced(id) {
            (self, Err(StoreError::ConstraintViolation))
        } else {
            let pos = self.user_position(id);
            (StoreModel { users: self.users.remove(pos), ..self }, Ok(self.users[pos]))
        }
    }
}

/// An in-memory relational store of users and posts.
pub struct Store {
    users: Vec<UserRow>,
    posts: Vec<PostRow>,
    next_user_id: u64,
    next_post_id: u64,
}

impl View for Store {
    type V = StoreModel;

    closed spec fn view(&self) -> StoreModel {
        StoreModel {
            users: self.users@,
            posts: self.posts@,
            next_user_id: self.next_user_id,
            next_post_id: self.next_post_id,
        }
    }
}

fn copy_user(row: &UserRow) -> (r: UserRow)
    ensures
        r == *row,
{
    UserRow { id: row.id, username: row.username.clone() }
}

fn copy_post(row: &PostRow) -> (r: PostRow)
    ensures
        r == *row,
{
    PostRow { id: row.id, message: row.message.clone(), user_id: row.user_id }
}

impl Store {
    /// An empty store; keys start at 1.
    pub fn new() -> (r: Store)
        ensures
            r@.wf(),
            r@.users == Seq::<UserRow>::empty(),
            r@.posts == Seq::<PostRow>::empty(),
            r@.next_user_id == 1,
            r@.next_post_id == 1,
    {
        Store { users: Vec::new(), posts: Vec::new(), next_user_id: 1, next_post_id: 1 }
    }

    fn find_user(&self, id: u64) -> (r: Option<usize>)
        ensures
            r is None <==> !self@.has_user(id),
            r matches Some(i) ==> i < self@.users.len() && self@.users[i as int].id == id,
    {
        let mut i: usize = 0;
        while i < self.users.len()
            invariant
                i <= self.users@.len(),
                forall|k: int| 0 <= k < i ==> self.users@[k].id != id,
            decreases self.users@.len() - i,
        {
            if self.users[i].id == id {
                assert(self@.users[i as int].id == id);
                return Some(i);
            }
            i = i + 1;
        }
        None
    }

    fn is_referenced(&self, id: u64) -> (r: bool)
        ensures
            r == self@.is_referenced(id),
    {
        let mut j: usize = 0;
        while j < self.posts.len()
            invariant
                j <= self.posts@.len(),
                forall|k: int| 0 <= k < j ==> #[trigger] self.posts@[k].user_id != Some(id),
            decreases self.posts@.len() - j,
        {
            if let Some(u) = self.posts[j].user_id {
                if u == id {
                    assert(self.posts@[j as int].user_id == Some(id));
                    return true;
                }
            }
            j = j + 1;
        }
        false
    }

    /// Inserts a user with the given name under the next key.
    pub fn create_user(&mut self, username: String) -> (r: Result<UserRow, StoreError>)
        requires
            old(self)@.wf(),
        ensures
            final(self)@.wf(),
            (final(self)@, r) == old(self)@.create_user(username),
    {
        if self.next_user_id == u64::MAX {
            return Err(StoreError::IdSpaceExhausted);
        }
        let row = UserRow { id: self.next_user_id, username: username.clone() };
        self.users.push(row);
        self.next_user_id = self.next_user_id + 1;
        proof {
            let m = self@;
            assert forall|j: int| 0 <= j < m.posts.len() implies match #[trigger] m.posts[j].user_id {
                Some(u) => m.has_user(u),
                None => true,
            } by {
                if let Some(u) = m.posts[j].user_id {
                    assert(old(self)@.has_user(u));
                    let i = choose|i: int| 0 <= i < old(self)@.users.len() && old(self)@.users[i].id == u;
                    assert(m.users[i].id == u);
                }
            }
        }
        Ok(UserRow { id: self.next_user_id - 1, username })
    }

    /// Every user, in order of insertion.
    pub fn list_users(&self) -> (r: Vec<UserRow>)
        ensures
            r@ == self@.users,
    {
        let mut out: Vec<UserRow> = Vec::new();
        let mut i: usize = 0;
        while i < self.users.len()
            invariant
                i <= self.users@.len(),
                out@ == self.users@.take(i as int),
            decreases self.users@.len() - i,
        {
            out.push(copy_user(&self.users[i]));
            i = i + 1;
            assert(out@ =~= self.users@.take(i as int));
        }
        assert(self.users@.take(i as int) =~= self.users@);
        out
    }

    /// Inserts a post under the next key; its author, when given, must exist.
    pub fn create_post(&mut self, user_id: Option<u64>, message: String) -> (r: Result<PostRow, StoreError>)
        requires
            old(self)@.wf(),
        ensures
            final(self)@.wf(),
            (final(self)@, r) == old(self)@.create_post(user_id, message),
    {
        let author_exists = match user_id {
            Some(u) => self.find_user(u).is_some(),
            None => true,
        };
        if !author_exists {
            return Err(StoreError::ConstraintViolation);
        }
        if self.next_post_id == u64::MAX {
            return Err(StoreError::IdSpaceExhausted);
        }
        assert(user_id matches Some(u) ==> old(self)@.has_user(u));
        proof {
            lemma_create_post_keeps_wf(old(self)@, user_id, message);
        }
        let row = PostRow { id: self.next_post_id, message: message.clone(), user_id };
        self.posts.push(row);
        self.next_post_id = self.next_post_id + 1;
        Ok(PostRow { id: self.next_post_id - 1, message, user_id })
    }

    /// The posts whose author is `user_id`, in order of insertion; none when
    /// the user has none or does not exist.
    pub fn list_posts_for_user(&self, user_id: u64) -> (r: Vec<PostRow>)
        ensures
            r@ == self@.posts.filter(by_author(user_id)),
    {
        let mut out: Vec<PostRow> = Vec::new();
        let mut j: usize = 0;
        while j < self.posts.len()
            invariant
                j <= self.posts@.len(),
                out@ == self.posts@.take(j as int).filter(by_author(user_id)),
            decreases self.posts@.len() - j,
        {
            let ghost before = self.posts@.take(j as int);
            proof {
                let next = self.posts@.take(j + 1);
                assert(next.drop_last() =~= before);
                assert(next.last() == self.posts@[j as int]);
                reveal(Seq::filter);
            }
            if let Some(u) = self.posts[j].user_id {
                if u == user_id {
                    out.push(copy_post(&self.posts[j]));
                }
            }
            j = j + 1;
        }
        assert(self.posts@.take(j as int) =~= self.posts@);
        out
    }

    /// Moves a user to a new key; the posts of that user follow it.
    pub fn update_user_id(&mut self, from: u64, to: u64) -> (r: Result<(), StoreError>)
        requires
            old(self)@.wf(),
        ensures
            final(self)@.wf(),
            (final(self)@, r) == old(self)@.update_user_id(from, to),
    {
        let pos = match self.find_user(from) {
            None => {
                return Err(StoreError::NoSuchRow);
            },
            Some(p) => p,
        };
        if from == to {
            return Ok(());
        }
        if self.find_user(to).is_some() {
            return Err(StoreError::ConstraintViolation);
        }
        if to == u64::MAX {
            return Err(StoreError::IdSpaceExhausted);
        }
        let ghost m0 = self@;
        proof {
            lemma_user_position(m0, from, pos as int);
            lemma_update_keeps_wf(m0, from, to);
        }
        self.users[pos].id = to;
        if to >= self.next_user_id {
            self.next_user_id = to + 1;
        }
        let mut j: usize = 0;
        while j < self.posts.len()
            invariant
                self.users@ == m0.update_user_id(from, to).0.users,
                self.next_user_id == m0.update_user_id(from, to).0.next_user_id,
                self.next_post_id == m0.next_post_id,
                self.posts@.len() == m0.posts.len(),
                j <= self.posts@.len(),
                forall|k: int| 0 <= k < j ==> self.posts@[k] == retarget(m0.posts[k], from, to),
                forall|k: int| j <= k < self.posts@.len() ==> self.posts@[k] == m0.posts[k],
            decreases self.posts@.len() - j,
        {
            let follows = match self.posts[j].user_id {
                Some(u) => u == from,
                None => false,
            };
            if follows {
                self.posts[j].user_id = Some(to);
            }
            j = j + 1;
        }
        assert(self@.posts =~= m0.posts.map_values(|p: PostRow| retarget(p, from, to)));
        assert(self@.users =~= m0.update_user_id(from, to).0.users);
        Ok(())
    }

    /// Removes a user, unless a post still names it.
    pub fn delete_user(&mut self, id: u64) -> (r: Result<UserRow, StoreError>)
        requires
            old(self)@.wf(),
        ensures
            final(self)@.wf(),
            (final(self)@, r) == old(self)@.delete_user(id),
    {
        let pos = match self.find_user(id) {
            None => {
                return Err(StoreError::NoSuchRow);
            },
            Some(p) => p,
        };
        if self.is_referenced(id) {
            return Err(StoreError::ConstraintViolation);
        }
        proof {
            lemma_user_position(self@, id, pos as int);
            lemma_delete_keeps_wf(self@, id);
        }
        let row = self.users.remove(pos);
        Ok(row)
    }
}

proof fn lemma_user_position(m: StoreModel, id: u64, i: int)
    requires
        m.wf(),
        0 <= i < m.users.len(),
        m.users[i].id == id,
    ensures
        m.user_position(id) == i,
{
    let p = m.user_position(id);
    assert(0 <= p < m.users.len() && m.users[p].id == id);
}

/// A successful key change keeps the store well formed.
pub proof fn lemma_update_keeps_wf(m: StoreModel, from: u64, to: u64)
    requires
        m.wf(),
    ensures
        m.update_user_id(from, to).0.wf(),
{
    if m.has_user(from) && from != to && !m.has_user(to) && to != u64::MAX {
        let pos = m.user_position(from);
        let m2 = m.update_user_id(from, to).0;
        assert forall|i: int| 0 <= i < m2.users.len() implies #[trigger] m2.users[i].id
            < m2.next_user_id by {
            if i != pos {
                assert(m.users[i].id < m.next_user_id);
            }
        }
        assert forall|i: int, k: int|
            0 <= i < m2.users.len() && 0 <= k < m2.users.len() && i != k implies m2.users[i].id
                != m2.users[k].id by {
            if i == pos {
                assert(m.users[k].id != to);
            } else if k == pos {
                assert(m.users[i].id != to);
            }
        }
        assert forall|j: int| 0 <= j < m2.posts.len() implies #[trigger] m2.posts[j].id
            < m2.next_post_id by {
            assert(m.posts[j].id < m.next_post_id);
        }
        assert forall|j: int, k: int|
            0 <= j < m2.posts.len() && 0 <= k < m2.posts.len() && j != k implies m2.posts[j].id
                != m2.posts[k].id by {
            assert(m2.posts[j].id == m.posts[j].id);
            assert(m2.posts[k].id == m.posts[k].id);
        }
        assert forall|j: int| 0 <= j < m2.posts.len() implies match #[trigger] m2.posts[j].user_id {
            Some(u) => m2.has_user(u),
            None => true,
        } by {
            assert(m2.posts[j] == retarget(m.posts[j], from, to));
            if m.posts[j].user_id == Some(from) {
                assert(m2.users[pos].id == to);
            } else if let Some(u) = m.posts[j].user_id {
                assert(m.has_user(u));
                let i = choose|i: int| 0 <= i < m.users.len() && m.users[i].id == u;
                assert(i != pos);
                assert(m2.users[i].id == u);
            }
        }
    }
}

/// A successful delete keeps the store well formed.
pub proof fn lemma_delete_keeps_wf(m: StoreModel, id: u64)
    requires
        m.wf(),
    ensures
        m.delete_user(id).0.wf(),
{
    if m.has_user(id) && !m.is_referenced(id) {
        let pos = m.user_position(id);
        let m2 = m.delete_user(id).0;
        assert forall|i: int| 0 <= i < m2.users.len() implies #[trigger] m2.users[i].id
            < m2.next_user_id by {
            let src = if i < pos {
                i
            } else {
                i + 1
            };
            assert(m2.users[i] == m.users[src]);
        }
        assert forall|i: int, k: int|
            0 <= i < m2.users.len() && 0 <= k < m2.users.len() && i != k implies m2.users[i].id
                != m2.users[k].id by {
            let si = if i < pos {
                i
            } else {
                i + 1
            };
            let sk = if k < pos {
                k
            } else {
                k + 1
            };
            assert(m2.users[i] == m.users[si]);
            assert(m2.users[k] == m.users[sk]);
        }
        assert forall|j: int| 0 <= j < m2.posts.len() implies match #[trigger] m2.posts[j].user_id {
            Some(u) => m2.has_user(u),
            None => true,
        } by {
            if let Some(u) = m.posts[j].user_id {
                assert(u != id);
                assert(m.has_user(u));
                let i = choose|i: int| 0 <= i < m.users.len() && m.users[i].id == u;
                assert(i != pos);
                let di = if i < pos {
                    i
                } else {
                    i - 1
                };
                assert(m2.users[di].id == u);
            }
        }
    }
}

/// A post whose author does not exist is refused with a constraint error and
/// leaves the store as it was; a post with no author is stored.
pub proof fn lemma_post_author_integrity(m: StoreModel, user_id: u64, message: String)
    requires
        m.wf(),
    ensures
        !m.has_user(user_id) ==> m.create_post(Some(user_id), message) == (
            m,
            Err::<PostRow, StoreError>(StoreError::ConstraintViolation),
        ),
        m.next_post_id < u64::MAX ==> m.create_post(None, message).1 == Ok::<PostRow, StoreError>(
            PostRow { id: m.next_post_id, message, user_id: None },
        ),
        m.create_post(Some(user_id), message).0.wf(),
        m.create_post(None, message).0.wf(),
{
    lemma_create_post_keeps_wf(m, Some(user_id), message);
    lemma_create_post_keeps_wf(m, None, message);
}

proof fn lemma_create_post_keeps_wf(m: StoreModel, user_id: Option<u64>, message: String)
    requires
        m.wf(),
    ensures
        m.create_post(user_id, message).0.wf(),
{
    let m2 = m.create_post(user_id, message).0;
    if m2 != m {
        let n = m.posts.len() as int;
        assert forall|j: int| 0 <= j < m2.posts.len() implies #[trigger] m2.posts[j].id
            < m2.next_post_id by {
            if j < n {
                assert(m2.posts[j] == m.posts[j]);
            }
        }
        assert forall|j: int, k: int|
            0 <= j < m2.posts.len() && 0 <= k < m2.posts.len() && j != k implies m2.posts[j].id
                != m2.posts[k].id by {
            if j < n {
                assert(m2.posts[j] == m.posts[j]);
                assert(m.posts[j].id < m.next_post_id);
            }
            if k < n {
                assert(m2.posts[k] == m.posts[k]);
                assert(m.posts[k].id < m.next_post_id);
            }
        }
        assert forall|j: int| 0 <= j < m2.posts.len() implies match #[trigger] m2.posts[j].user_id {
            Some(u) => m2.has_user(u),
            None => true,
        } by {
            assert(m2.users == m.users);
            if j < n {
                assert(m2.posts[j] == m.posts[j]);
            } else {
                assert(m2.posts[j].user_id == user_id);
            }
        }
    }
}

/// A created user comes back from the next listing under the key and name
/// that creating it returned, and no other listed user has that key.
pub proof fn lemma_created_user_listed(m: StoreModel, username: String)
    requires
        m.wf(),
        m.next_user_id < u64::MAX,
    ensures
        ({
            let (m2, r) = m.create_user(username);
            &&& r matches Ok(row) && row.username == username && row.id == m.next_user_id
            &&& m2.users.len() == m.users.len() + 1
            &&& m2.users.last() == r->Ok_0
            &&& forall|i: int|
                0 <= i < m2.users.len() && m2.users[i].id == r->Ok_0.id ==> m2.users[i] == r->Ok_0
        }),
{
    let (m2, r) = m.create_user(username);
    assert forall|i: int|
        0 <= i < m2.users.len() && m2.users[i].id == r->Ok_0.id implies m2.users[i] == r->Ok_0 by {
        if i < m.users.len() {
            assert(m2.users[i] == m.users[i]);
            assert(m.users[i].id < m.next_user_id);
        }
    }
}

/// Moving a user to a free key carries its posts along: each post that named
/// the old key names the new one, no post names the old key, the other posts
/// stay as they were, and the store stays well formed.
pub proof fn lemma_key_update_cascades(m: StoreModel, from: u64, to: u64)
    requires
        m.wf(),
        m.has_user(from),
        !m.has_user(to),
        to != u64::MAX,
    ensures
        ({
            let (m2, r) = m.update_user_id(from, to);
            &&& r is Ok
            &&& m2.wf()
            &&& m2.has_user(to)
            &&& !m2.has_user(from)
            &&& m2.posts.len() == m.posts.len()
            &&& forall|j: int|
                0 <= j < m.posts.len() ==> (if m.posts[j].user_id == Some(from) {
                    m2.posts[j].user_id == Some(to)
                } else {
                    m2.posts[j] == m.posts[j]
                })
            &&& !m2.is_referenced(from)
        }),
{
    lemma_update_keeps_wf(m, from, to);
    let pos = m.user_position(from);
    let m2 = m.update_user_id(from, to).0;
    assert(m2.users[pos].id == to);
    assert forall|i: int| 0 <= i < m2.users.len() implies m2.users[i].id != from by {
        if i != pos {
            assert(m2.users[i] == m.users[i]);
        }
    }
    assert forall|j: int| 0 <= j < m2.posts.len() implies #[trigger] m2.posts[j].user_id != Some(
        from,
    ) by {
        assert(m2.posts[j] == retarget(m.posts[j], from, to));
    }
}

/// A user that a post still names cannot be deleted: the delete fails with a
/// constraint error and leaves the store as it was.
pub proof fn lemma_referenced_user_kept(m: StoreModel, id: u64)
    requires
        m.wf(),
        m.is_referenced(id),
    ensures
        m.delete_user(id) == (m, Err::<UserRow, StoreError>(StoreError::ConstraintViolation)),
{
    let j = choose|j: int| 0 <= j < m.posts.len() && #[trigger] m.posts[j].user_id == Some(id);
    assert(m.has_user(id)) by {
        assert(match m.posts[j].user_id {
            Some(u) => m.has_user(u),
            None => true,
        });
    }
}

proof fn lemma_filter_none(posts: Seq<PostRow>, pred: spec_fn(PostRow) -> bool)
    requires
        forall|j: int| 0 <= j < posts.len() ==> !pred(#[trigger] posts[j]),
    ensures
        posts.filter(pred).len() == 0,
    decreases posts.len(),
{
    reveal(Seq::filter);
    if posts.len() > 0 {
        let rest = posts.drop_last();
        assert forall|j: int| 0 <= j < rest.len() implies !pred(#[trigger] rest[j]) by {
            assert(rest[j] == posts[j]);
        }
        lemma_filter_none(rest, pred);
        assert(!pred(posts[posts.len() - 1]));
    }
}

/// Listing the posts of a user that does not exist yields none, not an error.
pub proof fn lemma_unknown_user_has_no_posts(m: StoreModel, user_id: u64)
    requires
        m.wf(),
        !m.has_user(user_id),
    ensures
        m.posts.filter(by_author(user_id)) == Seq::<PostRow>::empty(),
{
    assert forall|j: int| 0 <= j < m.posts.len() implies !by_author(user_id)(
        #[trigger] m.posts[j],
    ) by {
        if m.posts[j].user_id == Some(user_id) {
            assert(match m.posts[j].user_id {
                Some(u) => m.has_user(u),
                None => true,
            });
        }
    }
    lemma_filter_none(m.posts, by_author(user_id));
    assert(m.posts.filter(by_author(user_id)) =~= Seq::<PostRow>::empty());
}

} // verus!
