//! Error taxonomy of the service.
//!
//! Every operation that can be refused reports one of these variants; the
//! transport layer maps them onto status codes (401, 403, 404, 400, 409, 500).

use vstd::prelude::*;

verus! {

/// Service-level error. The payload is a human-readable message; contracts
/// speak only of the variant.
#[derive(Debug)]
pub enum AppError {
    /// Missing, invalid or expired credentials or token.
    Unauthorized(String),
    /// Authenticated, but not permitted by role or ownership rules.
    Forbidden(String),
    /// Resource absent.
    NotFound(String),
    /// Malformed input, including the self-delete guard.
    BadRequest(String),
    /// Duplicate unique field on creation.
    Conflict(String),
    /// Storage or hashing failure.
    Internal(String),
}

} // verus!
