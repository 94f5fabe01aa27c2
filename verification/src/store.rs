//! The backing store and the services over it: user accounts, sessions and
//! todos, with the authentication service and the ownership gate.

use vstd::prelude::*;

use crate::errors::AuthError;
use crate::hashing::{
    generate_and_hash_auth_token, hash_password, hash_token, hash_token_spec, hex_of,
    scrypt_matches, verify_password,
};
use crate::models::{
    AuthRecord, AuthView, Todo, TodoEditable, TodoEditableView, TodoId, TodoView, User, UserId,
    UserView,
};

verus! {

/// Whether some stored user carries this username (exact, case-sensitive).
pub open spec fn has_username(users: Seq<UserView>, name: Seq<char>) -> bool {
    exists|i: int| 0 <= i < users.len() && (#[trigger] users[i]).username == name
}

/// The stored user carrying this username; meaningful when `has_username`
/// holds, and unambiguous because usernames are unique.
pub open spec fn user_named(users: Seq<UserView>, name: Seq<char>) -> UserView {
    users[choose|i: int| 0 <= i < users.len() && (#[trigger] users[i]).username == name]
}

/// The mathematical content of a [`Store`].
pub ghost struct StoreView {
    pub users: Seq<UserView>,
    pub auths: Seq<AuthView>,
    pub todos: Seq<TodoView>,
}

/// The store: every user, session record and todo, held in insertion order.
/// Rows are never physically deleted, and ids are handed out densely, so a
/// row's id is its position plus one.
pub struct Store {
    users: Vec<User>,
    auths: Vec<AuthRecord>,
    todos: Vec<Todo>,
}

/// Users are stored with dense ids (`users[i].id == i + 1`) and pairwise
/// distinct usernames, and there is room to hand out one more id.
pub open spec fn users_wf(users: Seq<UserView>) -> bool {
    &&& users.len() <= 0x7fff_ffff
    &&& forall|i: int| 0 <= i < users.len() ==> (#[trigger] users[i]).id == i + 1
    &&& forall|i: int, j: int|
        0 <= i < j < users.len() ==> users[i].username != users[j].username
}

/// A todo row's dates are real calendar days, as a date-typed schema
/// column would guarantee.
pub open spec fn todo_dates_valid(t: TodoView) -> bool {
    &&& t.not_before.is_valid()
    &&& match t.due {
        Some(d) => d.is_valid(),
        None => true,
    }
}

/// The editable fields carry real calendar days.
pub open spec fn edit_dates_valid(e: TodoEditableView) -> bool {
    &&& e.not_before.is_valid()
    &&& match e.due {
        Some(d) => d.is_valid(),
        None => true,
    }
}

/// Todos are stored with dense ids, every todo's owner is a stored user,
/// and every stored date is a real calendar day.
pub open spec fn todos_wf(s: StoreView) -> bool {
    &&& s.todos.len() <= 0x7fff_ffff
    &&& forall|i: int| 0 <= i < s.todos.len() ==> (#[trigger] s.todos[i]).id == i + 1
    &&& forall|i: int|
        0 <= i < s.todos.len() ==> 1 <= (#[trigger] s.todos[i]).user_id <= s.users.len()
    &&& forall|i: int| 0 <= i < s.todos.len() ==> todo_dates_valid(#[trigger] s.todos[i])
}

/// Every session record points at a stored user.
pub open spec fn auths_wf(s: StoreView) -> bool {
    forall|i: int|
        0 <= i < s.auths.len() ==> 1 <= (#[trigger] s.auths[i]).user_id <= s.users.len()
}

/// The store's invariant: dense unique ids, unique usernames, and every
/// todo and session referencing an existing user.
pub open spec fn store_wf(s: StoreView) -> bool {
    users_wf(s.users) && todos_wf(s) && auths_wf(s)
}

impl View for Store {
    type V = StoreView;

    closed spec fn view(&self) -> StoreView {
        StoreView {
            users: self.users@.map_values(|u: User| u@),
            auths: self.auths@.map_values(|a: AuthRecord| a@),
            todos: self.todos@.map_values(|t: Todo| t@),
        }
    }
}

impl Store {
    pub open spec fn wf(self) -> bool {
        store_wf(self@)
    }

    /// An empty store: no users, no sessions, no todos.
    pub fn new() -> (r: Store)
        ensures
            r.wf(),
            r@.users == Seq::<UserView>::empty(),
            r@.auths == Seq::<AuthView>::empty(),
            r@.todos == Seq::<TodoView>::empty(),
    {
        let r = Store { users: Vec::new(), auths: Vec::new(), todos: Vec::new() };
        proof {
            assert(r@.users =~= Seq::<UserView>::empty());
            assert(r@.auths =~= Seq::<AuthView>::empty());
            assert(r@.todos =~= Seq::<TodoView>::empty());
        }
        r
    }

    /// How many users are registered.
    pub fn user_count(&self) -> (r: usize)
        ensures
            r == self@.users.len(),
    {
        self.users.len()
    }

    /// How many todos exist, done or not.
    pub fn todo_count(&self) -> (r: usize)
        ensures
            r == self@.todos.len(),
    {
        self.todos.len()
    }

    /// The position of the user carrying `username`, if any.
    fn find_by_username(&self, username: &str) -> (r: Option<usize>)
        ensures
            match r {
                Some(i) => i < self@.users.len() && self@.users[i as int].username == username@,
                None => !has_username(self@.users, username@),
            },
    {
        let uname: String = username.to_owned();
        let n = self.users.len();
        let mut i: usize = 0;
        while i < n
            invariant
                n == self@.users.len(),
                n == self.users@.len(),
                i <= n,
                uname@ == username@,
                forall|j: int| 0 <= j < i ==> (#[trigger] self@.users[j]).username != username@,
            decreases n - i,
        {
            let found = self.users[i].username == uname;
            proof {
                assert(self@.users[i as int].username == self.users@[i as int]@.username);
            }
            if found {
                return Some(i);
            }
            i += 1;
        }
        None
    }

    /// Sign-up: registers `username` with a fresh scrypt hash of `password`
    /// and hands back the new id, or rejects a username that is already
    /// taken, leaving the store exactly as it was — never a partial record.
    pub fn create_user(&mut self, username: &str, password: &str) -> (r: Result<UserId, AuthError>)
        requires
            old(self).wf(),
            old(self)@.users.len() < 0x7fff_ffff,
        ensures
            final(self).wf(),
            final(self)@.auths == old(self)@.auths,
            final(self)@.todos == old(self)@.todos,
            match r {
                Err(e) => {
                    &&& e == AuthError::UsernameTaken
                    &&& has_username(old(self)@.users, username@)
                    &&& final(self)@ == old(self)@
                },
                Ok(id) => {
                    &&& !has_username(old(self)@.users, username@)
                    &&& id as int == old(self)@.users.len() + 1
                    &&& final(self)@.users.len() == old(self)@.users.len() + 1
                    &&& final(self)@.users.subrange(0, old(self)@.users.len() as int)
                        == old(self)@.users
                    &&& final(self)@.users.last().id == id as int
                    &&& final(self)@.users.last().username == username@
                    &&& scrypt_matches(password@, final(self)@.users.last().password_hash)
                },
            },
    {
        match self.find_by_username(username) {
            Some(_) => Err(AuthError::UsernameTaken),
            None => {
                let ghost users0 = self@.users;
                let password_hash = hash_password(password);
                assert(self.users.len() + 1 <= 0x7fff_ffff);
                let id: UserId = (self.users.len() + 1) as i32;
                let user = User { id, username: username.to_owned(), password_hash };
                let ghost uv = user@;
                self.users.push(user);
                proof {
                    assert(self@.users =~= users0.push(uv));
                    assert(self@.users.subrange(0, users0.len() as int) =~= users0);
                    assert(uv.username == username@);
                    assert(uv.id == users0.len() + 1);
                    assert forall|i: int| 0 <= i < self@.users.len()
                        implies (#[trigger] self@.users[i]).id == i + 1 by {
                        if i < users0.len() {
                            assert(self@.users[i] == users0[i]);
                        } else {
                            assert(self@.users[i] == uv);
                        }
                    }
                    assert(self@.auths =~= old(self)@.auths);
                    assert(self@.todos =~= old(self)@.todos);
                    assert forall|i: int| 0 <= i < self@.auths.len()
                        implies 1 <= (#[trigger] self@.auths[i]).user_id <= self@.users.len() by {
                        assert(1 <= old(self)@.auths[i].user_id <= users0.len());
                    }
                    assert forall|i: int, j: int| 0 <= i < j < self@.users.len()
                        implies self@.users[i].username != self@.users[j].username by {
                        assert(self@.users[i] == users0[i]);
                        if j == users0.len() as int {
                            if users0[i].username == username@ {
                                assert(has_username(users0, username@));
                            }
                            assert(self@.users[j] == uv);
                        } else {
                            assert(self@.users[j] == users0[j]);
                        }
                    }
                }
                Ok(id)
            },
        }
    }

    /// Login: a missing username and a wrong password are deliberately
    /// indistinguishable, both answering `InvalidCredentials` and leaving
    /// the store as it was. On a match a fresh opaque token is issued, only
    /// its digest is persisted, and the raw token is handed back exactly
    /// once.
    pub fn auth_user(&mut self, username: &str, password: &str) -> (r: Result<String, AuthError>)
        requires
            old(self).wf(),
        ensures
            final(self).wf(),
            final(self)@.users == old(self)@.users,
            final(self)@.todos == old(self)@.todos,
            match r {
                Err(e) => {
                    &&& e == AuthError::InvalidCredentials
                    &&& final(self)@ == old(self)@
                    &&& has_username(old(self)@.users, username@) ==> !scrypt_matches(
                        password@,
                        user_named(old(self)@.users, username@).password_hash,
                    )
                },
                Ok(token) => {
                    &&& has_username(old(self)@.users, username@)
                    &&& scrypt_matches(
                        password@,
                        user_named(old(self)@.users, username@).password_hash,
                    )
                    &&& token@.len() == 32
                    &&& exists|b: Seq<u8>| b.len() == 16 && token@ == hex_of(b)
                    &&& final(self)@.auths.len() == old(self)@.auths.len() + 1
                    &&& final(self)@.auths.subrange(0, old(self)@.auths.len() as int)
                        == old(self)@.auths
                    &&& final(self)@.auths.last().user_id
                        == user_named(old(self)@.users, username@).id
                    &&& final(self)@.auths.last().token_hash == hash_token_spec(token@)
                },
            },
    {
        match self.find_by_username(username) {
            None => Err(AuthError::InvalidCredentials),
            Some(i) => {
                proof {
                    let j = choose|j: int|
                        0 <= j < self@.users.len() && (#[trigger] self@.users[j]).username
                            == username@;
                    if j != i {
                        assert(self@.users[j].username == self@.users[i as int].username);
                        assert(false);
                    }
                    assert(user_named(self@.users, username@) == self@.users[i as int]);
                }
                let ok = verify_password(password, self.users[i].password_hash.as_str());
                proof {
                    assert(self@.users[i as int].password_hash
                        == self.users@[i as int]@.password_hash);
                }
                if !ok {
                    Err(AuthError::InvalidCredentials)
                } else {
                    let ghost auths0 = self@.auths;
                    let (token, token_hash) = generate_and_hash_auth_token();
                    let created = now_timestamp();
                    let user_id = self.users[i].id;
                    let record = AuthRecord { user_id, token_hash, created };
                    let ghost rv = record@;
                    self.auths.push(record);
                    proof {
                        assert(self@.auths =~= auths0.push(rv));
                        assert(self@.auths.subrange(0, auths0.len() as int) =~= auths0);
                        assert(self@.users =~= old(self)@.users);
                        assert(self@.todos =~= old(self)@.todos);
                        assert(rv.user_id == old(self)@.users[i as int].id);
                        assert forall|k: int| 0 <= k < self@.auths.len()
                            implies 1 <= (#[trigger] self@.auths[k]).user_id
                                <= self@.users.len() by {
                            if k < auths0.len() {
                                assert(self@.auths[k] == auths0[k]);
                                assert(1 <= old(self)@.auths[k].user_id <= self@.users.len());
                            } else {
                                assert(self@.auths[k] == rv);
                                assert(old(self)@.users[i as int].id == i + 1);
                            }
                        }
                    }
                    Ok(token)
                }
            },
        }
    }

    /// Whoami / the authentication gate's lookup: hashes the presented
    /// token and looks the digest up among the stored sessions, joined to
    /// its user. A token whose digest is not stored resolves to nothing.
    pub fn verify_token(&self, token: &str) -> (r: Option<User>)
        requires
            self.wf(),
        ensures
            match r {
                None => forall|i: int|
                    0 <= i < self@.auths.len() ==> (#[trigger] self@.auths[i]).token_hash
                        != hash_token_spec(token@),
                Some(u) => {
                    &&& exists|i: int|
                        0 <= i < self@.auths.len() && (#[trigger] self@.auths[i]).token_hash
                            == hash_token_spec(token@) && self@.auths[i].user_id == u@.id
                    &&& 1 <= u@.id <= self@.users.len()
                    &&& u@ == self@.users[u@.id - 1]
                },
            },
    {
        let token_hash = hash_token(token);
        let n = self.auths.len();
        let mut i: usize = 0;
        while i < n
            invariant
                self.wf(),
                n == self@.auths.len(),
                n == self.auths@.len(),
                token_hash@ == hash_token_spec(token@),
                i <= n,
                forall|j: int|
                    0 <= j < i ==> (#[trigger] self@.auths[j]).token_hash
                        != hash_token_spec(token@),
            decreases n - i,
        {
            let found = self.auths[i].token_hash == token_hash;
            proof {
                assert(self@.auths[i as int].token_hash == self.auths@[i as int]@.token_hash);
            }
            if found {
                let user_id = self.auths[i].user_id;
                proof {
                    assert(1 <= self@.auths[i as int].user_id <= self@.users.len());
                }
                let idx = (user_id - 1) as usize;
                let user = self.users[idx].clone();
                proof {
                    assert(user@ == self@.users[user_id - 1]);
                    assert(user@.id == user_id as int);
                }
                return Some(user);
            }
            i += 1;
        }
        None
    }

    /// The explicit authentication step at the top of every protected
    /// handler: the caller's token either resolves to the stored user it
    /// was issued to, or the request is `Unauthorized` — always the case
    /// for a token whose digest is not in the store.
    pub fn authenticate(&self, token: &str) -> (r: Result<User, AuthError>)
        requires
            self.wf(),
        ensures
            match r {
                Ok(u) => {
                    &&& exists|i: int|
                        0 <= i < self@.auths.len() && (#[trigger] self@.auths[i]).token_hash
                            == hash_token_spec(token@) && self@.auths[i].user_id == u@.id
                    &&& 1 <= u@.id <= self@.users.len()
                    &&& u@ == self@.users[u@.id - 1]
                },
                Err(e) => {
                    &&& e == AuthError::Unauthorized
                    &&& forall|i: int|
                        0 <= i < self@.auths.len() ==> (#[trigger] self@.auths[i]).token_hash
                            != hash_token_spec(token@)
                },
            },
    {
        match self.verify_token(token) {
            Some(user) => Ok(user),
            None => Err(AuthError::Unauthorized),
        }
    }
}

/// Whether the store holds a todo with id `todo_id` owned by the user with
/// id `user_id`.
pub open spec fn owns(s: StoreView, user_id: int, todo_id: int) -> bool {
    exists|i: int|
        0 <= i < s.todos.len() && (#[trigger] s.todos[i]).id == todo_id && s.todos[i].user_id
            == user_id
}

/// Law: ownership isolation. A todo belongs to one user alone; for every
/// other user the ownership check fails, just as it fails for an id that
/// matches no todo at all.
pub proof fn lemma_ownership_isolation(s: StoreView, owner_id: int, other_id: int, todo_id: int)
    requires
        store_wf(s),
        owner_id != other_id,
        owns(s, owner_id, todo_id),
    ensures
        !owns(s, other_id, todo_id),
{
    let i = choose|i: int|
        0 <= i < s.todos.len() && (#[trigger] s.todos[i]).id == todo_id && s.todos[i].user_id
            == owner_id;
    if owns(s, other_id, todo_id) {
        let j = choose|j: int|
            0 <= j < s.todos.len() && (#[trigger] s.todos[j]).id == todo_id && s.todos[j].user_id
                == other_id;
        assert(s.todos[i].id == i + 1);
        assert(s.todos[j].id == j + 1);
        assert(i == j);
        assert(false);
    }
}

impl Store {
    /// The ownership check itself: whether the requested todo exists and
    /// belongs to the caller, in one breath.
    pub fn verify_todo_id(&self, user: &User, todo_id: TodoId) -> (r: bool)
        requires
            self.wf(),
        ensures
            r == owns(self@, user.id as int, todo_id as int),
    {
        if todo_id >= 1 && (todo_id as usize) <= self.todos.len() {
            let idx = (todo_id as usize) - 1;
            let owner = self.todos[idx].user_id;
            proof {
                assert(self@.todos[idx as int].id == todo_id as int);
                if owner == user.id {
                    assert(owns(self@, user.id as int, todo_id as int));
                } else {
                    if owns(self@, user.id as int, todo_id as int) {
                        let k = choose|k: int|
                            0 <= k < self@.todos.len() && (#[trigger] self@.todos[k]).id
                                == todo_id as int && self@.todos[k].user_id == user.id as int;
                        assert(self@.todos[k].id == k + 1);
                        assert(false);
                    }
                }
            }
            owner == user.id
        } else {
            proof {
                if owns(self@, user.id as int, todo_id as int) {
                    let k = choose|k: int|
                        0 <= k < self@.todos.len() && (#[trigger] self@.todos[k]).id
                            == todo_id as int && self@.todos[k].user_id == user.id as int;
                    assert(self@.todos[k].id == k + 1);
                    assert(false);
                }
            }
            false
        }
    }

    /// The ownership gate run before every mutating or id-scoped read: it
    /// yields the todo id onward only when the caller owns it, and rejects
    /// everything else — a todo of another user and a todo that does not
    /// exist — with one undifferentiated outcome.
    pub fn ownership_gate(&self, user: &User, todo_id: TodoId) -> (r: Result<TodoId, AuthError>)
        requires
            self.wf(),
        ensures
            match r {
                Ok(t) => t == todo_id && owns(self@, user.id as int, todo_id as int),
                Err(e) => {
                    &&& e == AuthError::NotFoundOrForbidden
                    &&& !owns(self@, user.id as int, todo_id as int)
                },
            },
    {
        if self.verify_todo_id(user, todo_id) {
            Ok(todo_id)
        } else {
            Err(AuthError::NotFoundOrForbidden)
        }
    }
}

/// The active todos of one user: the rows owned by `user_id` whose `done`
/// flag is off, in storage order.
pub open spec fn active_of(todos: Seq<TodoView>, user_id: int) -> Seq<TodoView>
    decreases todos.len(),
{
    if todos.len() == 0 {
        Seq::empty()
    } else {
        let rest = active_of(todos.drop_last(), user_id);
        let t = todos.last();
        if t.user_id == user_id && !t.done {
            rest.push(t)
        } else {
            rest
        }
    }
}

/// The todos after the row with id `todo_id`, if there is one, has its
/// `done` flag set to `done`; without such a row nothing changes.
pub open spec fn mark_done_in(todos: Seq<TodoView>, todo_id: int, done: bool) -> Seq<TodoView> {
    if 1 <= todo_id <= todos.len() {
        todos.update(todo_id - 1, TodoView { done, ..todos[todo_id - 1] })
    } else {
        todos
    }
}

/// A todo row with its editable fields overwritten from `e`; identity,
/// owner and `done` flag stay.
pub open spec fn edited(t: TodoView, e: TodoEditableView) -> TodoView {
    TodoView { title: e.title, notes: e.notes, not_before: e.not_before, due: e.due, ..t }
}

/// The todos after the row with id `todo_id`, if there is one, has its
/// editable fields overwritten from `e`; without such a row nothing
/// changes.
pub open spec fn update_in(todos: Seq<TodoView>, todo_id: int, e: TodoEditableView) -> Seq<
    TodoView,
> {
    if 1 <= todo_id <= todos.len() {
        todos.update(todo_id - 1, edited(todos[todo_id - 1], e))
    } else {
        todos
    }
}

impl Store {
    /// Inserts a new todo for `user`, `done` off, and returns its generated
    /// id. Ownership is fixed at creation: the row belongs to `user` and to
    /// nobody else.
    pub fn create_todo(&mut self, user: &User, todo: &TodoEditable) -> (r: TodoId)
        requires
            old(self).wf(),
            1 <= user.id as int <= old(self)@.users.len(),
            old(self)@.todos.len() < 0x7fff_ffff,
            edit_dates_valid(todo@),
        ensures
            final(self).wf(),
            final(self)@.users == old(self)@.users,
            final(self)@.auths == old(self)@.auths,
            r as int == old(self)@.todos.len() + 1,
            owns(final(self)@, user.id as int, r as int),
            final(self)@.todos == old(self)@.todos.push(
                TodoView {
                    id: r as int,
                    user_id: user.id as int,
                    title: todo@.title,
                    notes: todo@.notes,
                    not_before: todo@.not_before,
                    due: todo@.due,
                    done: false,
                },
            ),
    {
        let ghost todos0 = self@.todos;
        assert(self.todos.len() + 1 <= 0x7fff_ffff);
        let id: TodoId = (self.todos.len() + 1) as i32;
        let row = Todo {
            id,
            user_id: user.id,
            title: todo.title.clone(),
            notes: todo.notes.clone(),
            not_before: todo.not_before,
            due: todo.due,
            done: false,
        };
        let ghost rv = row@;
        self.todos.push(row);
        proof {
            assert(self@.todos =~= todos0.push(rv));
            assert(self@.users =~= old(self)@.users);
            assert(self@.auths =~= old(self)@.auths);
            assert forall|i: int| 0 <= i < self@.todos.len()
                implies (#[trigger] self@.todos[i]).id == i + 1 && 1 <= self@.todos[i].user_id
                    <= self@.users.len() && todo_dates_valid(self@.todos[i]) by {
                if i < todos0.len() {
                    assert(self@.todos[i] == todos0[i]);
                    assert(todo_dates_valid(todos0[i]));
                } else {
                    assert(self@.todos[i] == rv);
                }
            }
            assert(self@.todos[todos0.len() as int] == rv);
            assert(owns(self@, user.id as int, id as int));
        }
        id
    }

    /// All of one user's not-yet-done todos, in storage order. The listing
    /// is scoped by the caller's own id at the query itself, so it needs no
    /// separate ownership gate.
    pub fn get_active_todos(&self, user: &User) -> (r: Vec<Todo>)
        requires
            self.wf(),
        ensures
            r@.map_values(|t: Todo| t@) == active_of(self@.todos, user.id as int),
    {
        let n = self.todos.len();
        let mut out: Vec<Todo> = Vec::new();
        let mut i: usize = 0;
        proof {
            assert(out@.map_values(|t: Todo| t@) =~= active_of(
                self@.todos.subrange(0, 0),
                user.id as int,
            ));
        }
        while i < n
            invariant
                n == self@.todos.len(),
                n == self.todos@.len(),
                i <= n,
                out@.map_values(|t: Todo| t@) == active_of(
                    self@.todos.subrange(0, i as int),
                    user.id as int,
                ),
            decreases n - i,
        {
            let ghost pre = self@.todos.subrange(0, i as int);
            let ghost post = self@.todos.subrange(0, i as int + 1);
            proof {
                assert(post.drop_last() =~= pre);
                assert(post.last() == self@.todos[i as int]);
            }
            let t = &self.todos[i];
            if t.user_id == user.id && !t.done {
                let ghost out0 = out@;
                out.push(t.clone());
                proof {
                    assert(out@.map_values(|t: Todo| t@) =~= out0.map_values(
                        |t: Todo| t@,
                    ).push(self@.todos[i as int]));
                }
            }
            i += 1;
        }
        proof {
            assert(self@.todos.subrange(0, n as int) =~= self@.todos);
        }
        out
    }

    /// Sets or clears the `done` flag of the row with id `todo_id`; an id
    /// that matches no row changes nothing. The ownership gate is the
    /// caller's duty — by design it runs once at the boundary, not again
    /// here.
    pub fn mark_todo_done(&mut self, todo_id: TodoId, done: bool)
        requires
            old(self).wf(),
        ensures
            final(self).wf(),
            final(self)@.users == old(self)@.users,
            final(self)@.auths == old(self)@.auths,
            final(self)@.todos == mark_done_in(old(self)@.todos, todo_id as int, done),
    {
        if todo_id >= 1 && (todo_id as usize) <= self.todos.len() {
            let idx = (todo_id as usize) - 1;
            let row = self.todos[idx].clone();
            let updated = Todo { done, ..row };
            self.todos.set(idx, updated);
            proof {
                assert(self@.todos =~= mark_done_in(old(self)@.todos, todo_id as int, done));
                assert(self@.users =~= old(self)@.users);
                assert(self@.auths =~= old(self)@.auths);
                assert forall|i: int| 0 <= i < self@.todos.len()
                    implies (#[trigger] self@.todos[i]).id == i + 1 && 1
                        <= self@.todos[i].user_id <= self@.users.len() && todo_dates_valid(
                        self@.todos[i],
                    ) by {
                    assert(old(self)@.todos[i].id == i + 1);
                    assert(todo_dates_valid(old(self)@.todos[i]));
                }
            }
        }
    }

    /// Overwrites the editable fields of the row with id `todo_id`; an id
    /// that matches no row changes nothing. Ownership, again, was the
    /// boundary's check.
    pub fn update_todo(&mut self, todo_id: TodoId, todo: &TodoEditable)
        requires
            old(self).wf(),
            edit_dates_valid(todo@),
        ensures
            final(self).wf(),
            final(self)@.users == old(self)@.users,
            final(self)@.auths == old(self)@.auths,
            final(self)@.todos == update_in(old(self)@.todos, todo_id as int, todo@),
    {
        if todo_id >= 1 && (todo_id as usize) <= self.todos.len() {
            let idx = (todo_id as usize) - 1;
            let row = self.todos[idx].clone();
            let updated = Todo {
                title: todo.title.clone(),
                notes: todo.notes.clone(),
                not_before: todo.not_before,
                due: todo.due,
                ..row
            };
            self.todos.set(idx, updated);
            proof {
                assert(self@.todos =~= update_in(old(self)@.todos, todo_id as int, todo@));
                assert(self@.users =~= old(self)@.users);
                assert(self@.auths =~= old(self)@.auths);
                assert forall|i: int| 0 <= i < self@.todos.len()
                    implies (#[trigger] self@.todos[i]).id == i + 1 && 1
                        <= self@.todos[i].user_id <= self@.users.len() && todo_dates_valid(
                        self@.todos[i],
                    ) by {
                    assert(old(self)@.todos[i].id == i + 1);
                    assert(todo_dates_valid(old(self)@.todos[i]));
                }
            }
        }
    }
}

/// Law: the active listing is scoped to its caller. Every row that
/// `active_of` yields is owned by `user_id` and not yet done, whatever the
/// store holds for other users.
pub proof fn lemma_active_scoped(todos: Seq<TodoView>, user_id: int, k: int)
    requires
        0 <= k < active_of(todos, user_id).len(),
    ensures
        active_of(todos, user_id)[k].user_id == user_id,
        !active_of(todos, user_id)[k].done,
    decreases todos.len(),
{
    if todos.len() > 0 {
        let rest = active_of(todos.drop_last(), user_id);
        if k < rest.len() {
            lemma_active_scoped(todos.drop_last(), user_id, k);
        }
    }
}

/// Law: marking done is idempotent. Marking the same todo with the same
/// flag a second time changes nothing — in particular, marking done twice
/// in a row leaves `done` set both times, without error.
pub proof fn lemma_mark_done_idempotent(todos: Seq<TodoView>, todo_id: int, done: bool)
    ensures
        mark_done_in(mark_done_in(todos, todo_id, done), todo_id, done)
            == mark_done_in(todos, todo_id, done),
{
    if 1 <= todo_id <= todos.len() {
        let once = mark_done_in(todos, todo_id, done);
        assert(mark_done_in(once, todo_id, done) =~= once);
    }
}

/// Relies on chrono's `Utc::now` for the session's creation timestamp;
/// nothing is assumed of the value.
#[verifier::external_body]
fn now_timestamp() -> (r: i64) {
    chrono::Utc::now().timestamp()
}

} // verus!
