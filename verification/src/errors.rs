//! The service-level error taxonomy.
//!
//! Every operation of the core returns `Result<T, ServiceError>`; the host
//! maps each variant to a response. No operation panics and none is retried
//! here: retry, if any, is the caller's business.

use vstd::prelude::*;

verus! {

/// Why an operation was refused.
#[derive(Clone, Copy, Debug, PartialEq, Eq, Structural)]
pub enum ServiceError {
    /// No session, a session/owner mismatch, or a failed credential check.
    Unauthorized,
    /// The requested user, post or token does not exist.
    NotFound,
    /// A reset token past its validity window.
    Expired,
    /// A reset token already consumed: terminal, whatever the credentials.
    InvalidToken,
    /// A registration that would reuse identifying material already taken.
    Conflict,
    /// An unexpected storage fault, surfaced opaquely.
    Internal,
}

} // verus!
