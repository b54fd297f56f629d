//! Session-authenticated CRUD core.
//!
//! The crate verifies the access-control heart of a small two-resource
//! (users, posts) backend: how a request's session is resolved to an
//! identity, how ownership is checked before any read or mutation, and how
//! the password-reset protocol re-establishes identity without an active
//! session. Transport, routing and serialization are the host's job: the
//! host hands these functions already-parsed plain values and forwards the
//! `Result` back to the client.

pub mod auth;
pub mod bytes;
pub mod credentials;
pub mod errors;
pub mod hashing;
pub mod posts;
pub mod session;
pub mod users;
