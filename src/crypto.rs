//! The two cryptographic primitives the engine relies on, each a call into an
//! outside crate whose result is named here rather than restated.
use ed25519_dalek::Verifier;
use sha2::Digest;
use vstd::prelude::*;

verus! {

/// Whether ed25519 verification accepts `signature` by `public_key` over `message`.
pub uninterp spec fn ed25519_accepts(public_key: Seq<u8>, message: Seq<u8>, signature: Seq<u8>) -> bool;

/// The SHA-256 digest of `data`.
pub uninterp spec fn sha256_of(data: Seq<u8>) -> Seq<u8>;

/// Relies on ed25519_dalek 1.0 (`PublicKey::from_bytes`, `Signature::from_bytes`,
/// `Verifier::verify`): the verdict depends on the three byte strings alone, and a
/// key or signature that does not parse is reported as `false`, never as a panic.
#[verifier::external_body]
pub(crate) fn ed25519_verify(public_key: &[u8; 32], message: &[u8], signature: &[u8; 64]) -> (r: bool)
    ensures
        r == ed25519_accepts(public_key@, message@, signature@),
{
    match (
        ed25519_dalek::PublicKey::from_bytes(public_key),
        ed25519_dalek::Signature::from_bytes(signature),
    ) {
        (Ok(key), Ok(sig)) => key.verify(message, &sig).is_ok(),
        _ => false,
    }
}

/// Relies on sha2's `Sha256::digest`: the 32-byte digest of `data`.
#[verifier::external_body]
pub(crate) fn sha256(data: &[u8]) -> (r: [u8; 32])
    ensures
        r@ == sha256_of(data@),
{
    sha2::Sha256::digest(data).into()
}

} // verus!
