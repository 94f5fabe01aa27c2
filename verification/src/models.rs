//! The data model: users, auth records and todos, together with the
//! mathematical views that the contracts speak about.

use vstd::prelude::*;

verus! {

pub type UserId = i32;
pub type TodoId = i32;

/// A calendar date held as plain year / month / day fields.
///
/// Only dates of the common (proleptic Gregorian) calendar with a positive
/// year are considered valid; [`Date::new`] is the checked constructor.
#[derive(Clone, Copy, PartialEq, Eq, Structural, Debug)]
pub struct Date {
    pub year: i32,
    pub month: u8,
    pub day: u8,
}

pub open spec fn is_leap_year(year: int) -> bool {
    (year % 4 == 0 && year % 100 != 0) || year % 400 == 0
}

pub open spec fn days_in_month(year: int, month: int) -> int {
    if month == 2 {
        if is_leap_year(year) {
            29
        } else {
            28
        }
    } else if month == 4 || month == 6 || month == 9 || month == 11 {
        30
    } else {
        31
    }
}

impl Date {
    pub open spec fn is_valid(self) -> bool {
        &&& self.year >= 1
        &&& 1 <= self.month <= 12
        &&& 1 <= self.day <= days_in_month(self.year as int, self.month as int)
    }

    /// Builds a date, rejecting anything that is not a real calendar day.
    pub fn new(year: i32, month: u8, day: u8) -> (r: Option<Date>)
        ensures
            match r {
                Some(d) => d == (Date { year, month, day }) && d.is_valid(),
                None => !(Date { year, month, day }).is_valid(),
            },
    {
        if year >= 1 && 1 <= month && month <= 12 {
            let leap: bool = (year % 4 == 0 && year % 100 != 0) || year % 400 == 0;
            let limit: u8 = if month == 2 {
                if leap {
                    29
                } else {
                    28
                }
            } else if month == 4 || month == 6 || month == 9 || month == 11 {
                30
            } else {
                31
            };
            if 1 <= day && day <= limit {
                Some(Date { year, month, day })
            } else {
                None
            }
        } else {
            None
        }
    }
}

/// A registered account; `password_hash` is a self-describing scrypt string,
/// never the plaintext.
pub struct User {
    pub id: UserId,
    pub username: String,
    pub password_hash: String,
}

pub ghost struct UserView {
    pub id: int,
    pub username: Seq<char>,
    pub password_hash: Seq<char>,
}

impl View for User {
    type V = UserView;

    open spec fn view(&self) -> UserView {
        UserView {
            id: self.id as int,
            username: self.username@,
            password_hash: self.password_hash@,
        }
    }
}

impl Clone for User {
    fn clone(&self) -> (r: Self)
        ensures
            r == *self,
    {
        User {
            id: self.id,
            username: self.username.clone(),
            password_hash: self.password_hash.clone(),
        }
    }
}

/// A persisted session: the digest of a raw token, never the token itself,
/// bound to the user it authenticates.
pub struct AuthRecord {
    pub user_id: UserId,
    pub token_hash: String,
    pub created: i64,
}

pub ghost struct AuthView {
    pub user_id: int,
    pub token_hash: Seq<char>,
    pub created: int,
}

impl View for AuthRecord {
    type V = AuthView;

    open spec fn view(&self) -> AuthView {
        AuthView {
            user_id: self.user_id as int,
            token_hash: self.token_hash@,
            created: self.created as int,
        }
    }
}

/// A todo row, owned exclusively by the user with id `user_id`.
pub struct Todo {
    pub id: TodoId,
    pub user_id: UserId,
    pub title: String,
    pub notes: String,
    pub not_before: Date,
    pub due: Option<Date>,
    pub done: bool,
}

pub ghost struct TodoView {
    pub id: int,
    pub user_id: int,
    pub title: Seq<char>,
    pub notes: Seq<char>,
    pub not_before: Date,
    pub due: Option<Date>,
    pub done: bool,
}

impl View for Todo {
    type V = TodoView;

    open spec fn view(&self) -> TodoView {
        TodoView {
            id: self.id as int,
            user_id: self.user_id as int,
            title: self.title@,
            notes: self.notes@,
            not_before: self.not_before,
            due: self.due,
            done: self.done,
        }
    }
}

impl Clone for Todo {
    fn clone(&self) -> (r: Self)
        ensures
            r == *self,
    {
        Todo {
            id: self.id,
            user_id: self.user_id,
            title: self.title.clone(),
            notes: self.notes.clone(),
            not_before: self.not_before,
            due: self.due,
            done: self.done,
        }
    }
}

/// The fields of a todo that a client may set: everything but its identity,
/// its owner and its `done` flag.
pub struct TodoEditable {
    pub title: String,
    pub notes: String,
    pub not_before: Date,
    pub due: Option<Date>,
}

pub ghost struct TodoEditableView {
    pub title: Seq<char>,
    pub notes: Seq<char>,
    pub not_before: Date,
    pub due: Option<Date>,
}

impl View for TodoEditable {
    type V = TodoEditableView;

    open spec fn view(&self) -> TodoEditableView {
        TodoEditableView {
            title: self.title@,
            notes: self.notes@,
            not_before: self.not_before,
            due: self.due,
        }
    }
}

/// The outward shape of a todo: what list responses carry, with the owner id
/// and other internal fields left out.
pub struct TodoDisplay {
    pub id: TodoId,
    pub title: String,
    pub notes: String,
    pub not_before: Date,
    pub due: Option<Date>,
    pub done: bool,
}

impl TodoDisplay {
    pub fn from_todo(todo: Todo) -> (r: Self)
        ensures
            r.id == todo.id,
            r.title@ == todo@.title,
            r.notes@ == todo@.notes,
            r.not_before == todo.not_before,
            r.due == todo.due,
            r.done == todo.done,
    {
        Self {
            id: todo.id,
            title: todo.title,
            notes: todo.notes,
            not_before: todo.not_before,
            due: todo.due,
            done: todo.done,
        }
    }
}

} // verus!
