//! A small multi-user todo service: users sign up, authenticate with an
//! opaque bearer token, and manage personal todo items.
//!
//! The heart of the library is the authentication service and the ownership
//! gate: every todo-scoped operation is allowed only after the caller's token
//! resolves to a stored user and the requested todo id is owned by that user.
//! The backing store is modelled as an in-memory [`store::Store`] whose
//! invariants (unique usernames, todo rows referencing existing users) are
//! machine-checked, as are the contracts of every operation on it.
//!
//! Password hashing (scrypt), token digests (SHA-256 over hex) and random
//! token generation are performed by outside crates behind a small set of
//! trusted wrappers; everything that decides is verified.

pub mod errors;
pub mod hashing;
pub mod models;
pub mod store;
