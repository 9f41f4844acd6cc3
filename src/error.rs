//! The ways an authorization attempt can be rejected.
use vstd::prelude::*;

verus! {

/// Why an authorization attempt was rejected. Every kind is terminal for the call.
#[derive(Clone, Copy, Debug, PartialEq, Eq, Structural)]
pub enum AuthError {
    /// The signature bundle is not strictly ascending by public key.
    OutOfOrderOrDuplicate,
    /// A signature in the bundle does not verify.
    BadSignature,
    /// The presented nonce is not the one stored for the identity.
    StaleNonce,
    /// The signers present do not carry enough weight, or exceed a spend limit.
    InsufficientQuorum,
    /// Weight or counter arithmetic would overflow.
    Overflow,
}

} // verus!
