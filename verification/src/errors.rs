//! The error taxonomy of the service: validation failures caught before any
//! provider call, upstream (gateway) failures, authentication failures, and
//! opaque internal failures.

use vstd::prelude::*;

verus! {

/// A callback request rejected before any external call is attempted.
#[derive(Clone, Copy, PartialEq, Eq, Structural, Debug)]
pub enum ValidationError {
    /// The `code` query parameter was empty.
    EmptyCode,
    /// The `{provider}` path segment named no known provider.
    UnknownProvider,
}

/// A provider call failed: non-success HTTP status, transport failure, or a
/// payload that did not decode. The upstream message is kept for diagnostics.
#[derive(Clone, Debug)]
pub struct UpstreamError {
    pub message: String,
}

/// The outcome kinds of session-token validation.
#[derive(Clone, Copy, PartialEq, Eq, Structural, Debug)]
pub enum TokenError {
    /// Signature and structure were valid but the expiry has passed.
    Expired,
    /// Bad signature or malformed structure.
    Malformed,
}

/// Why a protected request was rejected by the authentication guard.
#[derive(Clone, Copy, PartialEq, Eq, Structural, Debug)]
pub enum AuthError {
    /// Neither the token cookie nor an Authorization header was present.
    MissingToken,
    /// The presented token was valid but its expiry has passed.
    ExpiredToken,
    /// The presented token had a bad signature or malformed structure.
    InvalidToken,
    /// A structurally valid token whose subject resolves to no stored user.
    StaleIdentity,
}

/// Why a local registration was refused.
#[derive(Clone, Copy, PartialEq, Eq, Structural, Debug)]
pub enum RegisterError {
    /// A record with the same (case-folded) email already exists.
    EmailExists,
}

/// An opaque server-side failure (an unusable session configuration, lock
/// poisoning at the boundary); aborts the current request only and never
/// leaks detail to the client.
#[derive(Clone, Copy, PartialEq, Eq, Structural, Debug)]
pub struct InternalError;

} // verus!
