//! The error taxonomy and its mapping to HTTP status codes: client-facing
//! authentication and authorization failures answer 400, unexpected storage
//! failures answer 500.

use vstd::prelude::*;

verus! {

/// A client-facing failure of the authentication service or of the
/// ownership gate. Every variant is safe to describe to the caller.
///
/// `NotFoundOrForbidden` merges "absent" and "someone else's" on purpose:
/// one outcome covers a todo that does not exist and a todo owned by
/// another user, so a caller cannot probe for other users' resources.
#[derive(Clone, Copy, PartialEq, Eq, Structural, Debug)]
pub enum AuthError {
    UsernameTaken,
    InvalidCredentials,
    Unauthorized,
    NotFoundOrForbidden,
}

impl AuthError {
    /// The generic help text the HTTP boundary serializes for this failure.
    pub fn help_text(&self) -> (r: &'static str)
        ensures
            r@ == match *self {
                AuthError::UsernameTaken => "username already exists"@,
                AuthError::InvalidCredentials => "username or password wrong"@,
                AuthError::Unauthorized => "invalid x-auth-token"@,
                AuthError::NotFoundOrForbidden => "note does not exist"@,
            },
    {
        match self {
            AuthError::UsernameTaken => "username already exists",
            AuthError::InvalidCredentials => "username or password wrong",
            AuthError::Unauthorized => "invalid x-auth-token",
            AuthError::NotFoundOrForbidden => "note does not exist",
        }
    }

    /// Every authentication or authorization failure is a client error.
    pub fn http_status(&self) -> (r: u16)
        ensures
            r == 400,
    {
        400
    }
}

/// The three classes of failure a request can end in: a malformed request,
/// a rejected one, or an unexpected storage failure.
#[derive(Clone, Copy, PartialEq, Eq, Structural, Debug)]
pub enum ErrorClass {
    Validation,
    Auth,
    Storage,
}

impl ErrorClass {
    /// Validation and auth failures are client errors; a storage failure is
    /// a server error whose detail is diagnostic only.
    pub fn http_status(&self) -> (r: u16)
        ensures
            r == match *self {
                ErrorClass::Validation => 400u16,
                ErrorClass::Auth => 400u16,
                ErrorClass::Storage => 500u16,
            },
    {
        match self {
            ErrorClass::Validation => 400,
            ErrorClass::Auth => 400,
            ErrorClass::Storage => 500,
        }
    }
}

} // verus!
