//! Authorization by a single identity with its own nonce: the invoking contract
//! (no signature, nonce zero), one ed25519 key, or a native account whose
//! weighted signers sign together.
use vstd::prelude::*;

use crate::bundle::{verify_all, verify_all_outcome, SignedEntry};
use crate::crypto::{ed25519_accepts, ed25519_verify, sha256_of};
use crate::error::AuthError;
use crate::keys::ContractId;
use crate::nonce::{consume_outcome, stored_nonce, Identifier, IdentifierView, NonceStore};
use crate::payload::{signature_payload, SignablePayload};
use crate::weighted::{weighted_outcome, NativeAccount};

verus! {

/// The proof of consent that comes with a call.
#[derive(Clone, Debug, PartialEq, Eq)]
pub enum Authorization {
    /// The call comes from this contract itself.
    Invoker(ContractId),
    /// One key signs.
    Ed25519(SignedEntry),
    /// Signers of a native account sign, strictly ascending by key.
    Account(NativeAccount, Vec<SignedEntry>),
}

/// The identity whose nonce an authorization uses.
pub open spec fn auth_identity(auth: Authorization) -> IdentifierView {
    match auth {
        Authorization::Invoker(c) => IdentifierView::Contract(c@),
        Authorization::Ed25519(entry) => IdentifierView::Ed25519(entry.public_key@),
        Authorization::Account(account, _) => IdentifierView::Account(account.public_key@),
    }
}

/// The verdict on `auth` for a payload with bytes `payload` that carries `nonce`,
/// and the nonces after it. Signatures are checked over the payload's digest
/// before the nonce; a native account's weight is judged after the nonce. Nonces
/// advance only on success.
pub open spec fn keyed_outcome(
    nonces: Map<IdentifierView, u64>,
    auth: Authorization,
    payload: Seq<u8>,
    nonce: u64,
) -> Result<Map<IdentifierView, u64>, AuthError> {
    match auth {
        Authorization::Invoker(c) => consume_outcome(nonces, IdentifierView::Contract(c@), nonce),
        Authorization::Ed25519(entry) => {
            if !ed25519_accepts(entry.public_key@, sha256_of(payload), entry.signature@) {
                Err(AuthError::BadSignature)
            } else {
                consume_outcome(nonces, IdentifierView::Ed25519(entry.public_key@), nonce)
            }
        },
        Authorization::Account(account, signatures) => match verify_all_outcome(
            sha256_of(payload),
            signatures@,
        ) {
            Err(e) => Err(e),
            Ok(keys) => match consume_outcome(
                nonces,
                IdentifierView::Account(account.public_key@),
                nonce,
            ) {
                Err(e) => Err(e),
                Ok(next) => match weighted_outcome(account.signers@, account.medium_threshold, keys) {
                    Err(e) => Err(e),
                    Ok(_) => Ok(next),
                },
            },
        },
    }
}

impl Authorization {
    /// The identity whose nonce this authorization uses.
    pub fn identifier(&self) -> (r: Identifier)
        ensures
            r@ == auth_identity(*self),
    {
        match self {
            Authorization::Invoker(c) => Identifier::Contract(*c),
            Authorization::Ed25519(entry) => Identifier::Ed25519(entry.public_key),
            Authorization::Account(account, _) => Identifier::Account(account.public_key),
        }
    }
}

/// Checks `auth` for `payload` and consumes the nonce the payload carries. On
/// failure `nonces` is unchanged.
pub fn check_auth(nonces: &mut NonceStore, auth: &Authorization, payload: &SignablePayload) -> (r:
    Result<(), AuthError>)
    requires
        old(nonces).wf(),
    ensures
        final(nonces).wf(),
        match r {
            Ok(_) => keyed_outcome(old(nonces)@, *auth, payload.spec_bytes(), payload.nonce) == Ok::<
                Map<IdentifierView, u64>,
                AuthError,
            >(final(nonces)@),
            Err(e) => {
                &&& keyed_outcome(old(nonces)@, *auth, payload.spec_bytes(), payload.nonce) == Err::<
                    Map<IdentifierView, u64>,
                    AuthError,
                >(e)
                &&& final(nonces)@ == old(nonces)@
            },
        },
{
    let id = auth.identifier();
    match auth {
        Authorization::Invoker(_) => nonces.consume(&id, payload.nonce),
        Authorization::Ed25519(entry) => {
            let digest = signature_payload(payload);
            if !ed25519_verify(&entry.public_key.bytes, &digest, &entry.signature.bytes) {
                return Err(AuthError::BadSignature);
            }
            nonces.consume(&id, payload.nonce)
        },
        Authorization::Account(account, signatures) => {
            let digest = signature_payload(payload);
            let verified = match verify_all(&digest, signatures) {
                Ok(keys) => keys,
                Err(e) => {
                    return Err(e);
                },
            };
            if let Err(e) = nonces.check(&id, payload.nonce) {
                return Err(e);
            }
            if let Err(e) = account.evaluate(&verified) {
                return Err(e);
            }
            nonces.consume(&id, payload.nonce)
        },
    }
}

/// The authorization state of a token contract: the nonce of every identity that
/// has signed for it.
pub struct Token {
    nonces: NonceStore,
}

impl View for Token {
    type V = Map<IdentifierView, u64>;

    closed spec fn view(&self) -> Map<IdentifierView, u64> {
        self.nonces@
    }
}

impl Token {
    pub closed spec fn wf(&self) -> bool {
        self.nonces.wf()
    }

    /// A token for which nobody has signed yet.
    pub fn new() -> (r: Token)
        ensures
            r.wf(),
            r@ == Map::<IdentifierView, u64>::empty(),
    {
        Token { nonces: NonceStore::new() }
    }

    /// The nonce that `id` must sign next.
    pub fn nonce(&self, id: &Identifier) -> (r: u64)
        requires
            self.wf(),
        ensures
            r == stored_nonce(self@, id@),
    {
        self.nonces.read(id)
    }

    /// Authorizes a token operation described by `payload` with `auth`, consuming
    /// the nonce it carries.
    pub fn authorize(&mut self, auth: &Authorization, payload: &SignablePayload) -> (r: Result<
        (),
        AuthError,
    >)
        requires
            old(self).wf(),
        ensures
            final(self).wf(),
            match r {
                Ok(_) => keyed_outcome(old(self)@, *auth, payload.spec_bytes(), payload.nonce) == Ok::<
                    Map<IdentifierView, u64>,
                    AuthError,
                >(final(self)@),
                Err(e) => {
                    &&& keyed_outcome(old(self)@, *auth, payload.spec_bytes(), payload.nonce)
                        == Err::<Map<IdentifierView, u64>, AuthError>(e)
                    &&& final(self)@ == old(self)@
                },
            },
    {
        check_auth(&mut self.nonces, auth, payload)
    }
}

} // verus!
