//! Error types of the protocol core.

use vstd::prelude::*;

verus! {

/// Error reserved for a failed session-cache insertion.  The cache used here
/// never reports one; the type is kept for callers that match on it.
#[derive(Debug, Clone, Copy, PartialEq, Eq, Structural)]
pub struct CacheError;

/// The operating system's entropy source rejected a request for random bytes.
#[derive(Debug, Clone, Copy, PartialEq, Eq, Structural)]
pub struct RandomGenerationError;

/// Too few peers answered a commitment fan-out for the threshold to be met.
#[derive(Debug, Clone, Copy, PartialEq, Eq, Structural)]
pub struct CommitmentGenerationError;

/// What a protocol handler reports to the transport layer; the layer above
/// maps each variant to an HTTP status code.
#[derive(Debug, Clone, Copy, PartialEq, Eq, Structural)]
pub enum HandlerError {
    /// Malformed commitment bytes, a wrong opening length, or a
    /// non-canonical scalar in a request.
    BadRequest,
    /// The requested session is not cached.
    NotFound,
    /// Too few peers responded.
    ThresholdNotReached,
    /// The entropy source failed.
    RandomnessUnavailable,
    /// Any other internal failure.
    Internal,
}

} // verus!
