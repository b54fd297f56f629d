//! The authorization guard.
//!
//! Every owner-scoped operation goes through `authorize`, the single call
//! site at which a resolved session is held against a resource's owner.

use vstd::prelude::*;

verus! {

use crate::errors::ServiceError;
use crate::session::UserSession;

/// When the guard allows: exactly when a session is present and bound to
/// the resource's owner.
pub open spec fn allowed(session: Option<UserSession>, resource_owner_id: u64) -> bool {
    match session {
        Some(s) => s.user_id == resource_owner_id,
        None => false,
    }
}

/// Decides whether `session` may act on a resource owned by
/// `resource_owner_id`. Succeeds, returning the verified user id, exactly
/// when the session is present and bound to that owner; fails with
/// `Unauthorized` otherwise.
pub fn authorize(session: Option<UserSession>, resource_owner_id: u64) -> (r: Result<
    u64,
    ServiceError,
>)
    ensures
        allowed(session, resource_owner_id) ==> r == Ok::<u64, ServiceError>(resource_owner_id),
        !allowed(session, resource_owner_id) ==> r == Err::<u64, ServiceError>(
            ServiceError::Unauthorized,
        ),
{
    match session {
        Some(s) => {
            if s.user_id == resource_owner_id {
                Ok(resource_owner_id)
            } else {
                Err(ServiceError::Unauthorized)
            }
        },
        None => Err(ServiceError::Unauthorized),
    }
}

/// Ownership law: for any user ids `v` and `u`, a session bound to `v` is
/// allowed on a resource owned by `u` exactly when `v == u`; by
/// `authorize`'s contract the call then returns `Ok(u)`, and otherwise
/// `Err(Unauthorized)`.
pub proof fn lemma_authorize_ownership(v: u64, u: u64)
    ensures
        allowed(Some(UserSession { user_id: v }), u) <==> v == u,
        !allowed(None, u),
{
}

} // verus!
