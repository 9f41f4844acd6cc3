//! The authorization engine of one account: it verifies the signature bundle
//! over the payload's digest, checks the nonce the payload commits to, asks the
//! account's quorum policy, and only then advances the nonce.
use vstd::prelude::*;

use crate::bundle::{key_views, verify_all, verify_all_outcome, SignedEntry};
use crate::crypto::sha256_of;
use crate::error::AuthError;
use crate::keys::PublicKey;
use crate::nonce::{consume_outcome, stored_nonce, Identifier, IdentifierView, NonceStore};
use crate::payload::{signature_payload, SignablePayload};
use crate::spend_limit::{
    context_views, spend_limit_outcome, AuthContext, ContextView, SpendLimitPolicy, SpendLimitView,
};
use crate::weighted::{weighted_outcome, NativeAccount, SignerWeight};

verus! {

/// How an account judges whether the signers present suffice.
pub enum QuorumPolicy {
    /// A native account: the signers' weights must reach its medium threshold.
    WeightedThreshold(NativeAccount),
    /// A registered signer set with per-asset spend limits.
    SpendLimit(SpendLimitPolicy),
}

/// A quorum policy as plain values.
pub enum QuorumView {
    WeightedThreshold(Seq<SignerWeight>, u32),
    SpendLimit(SpendLimitView),
}

impl View for QuorumPolicy {
    type V = QuorumView;

    open spec fn view(&self) -> QuorumView {
        match self {
            QuorumPolicy::WeightedThreshold(a) => QuorumView::WeightedThreshold(
                a.signers@,
                a.medium_threshold,
            ),
            QuorumPolicy::SpendLimit(p) => QuorumView::SpendLimit(p@),
        }
    }
}

/// The verdict of a policy on the verified signers and the contexts of a call.
pub open spec fn policy_outcome(
    policy: QuorumView,
    verified: Seq<Seq<u8>>,
    contexts: Seq<ContextView>,
) -> Result<(), AuthError> {
    match policy {
        QuorumView::WeightedThreshold(signers, threshold) => weighted_outcome(
            signers,
            threshold,
            verified,
        ),
        QuorumView::SpendLimit(p) => spend_limit_outcome(p, verified, contexts),
    }
}

/// The verdict of the engine, and the nonces after it: the bundle over the digest
/// of the payload, then the nonce the payload carries, then the policy. Nonces
/// advance only on success.
pub open spec fn check_outcome(
    identity: IdentifierView,
    policy: QuorumView,
    nonces: Map<IdentifierView, u64>,
    payload: Seq<u8>,
    nonce: u64,
    bundle: Seq<SignedEntry>,
    contexts: Seq<ContextView>,
) -> Result<Map<IdentifierView, u64>, AuthError> {
    match verify_all_outcome(sha256_of(payload), bundle) {
        Err(e) => Err(e),
        Ok(keys) => match consume_outcome(nonces, identity, nonce) {
            Err(e) => Err(e),
            Ok(next) => match policy_outcome(policy, keys, contexts) {
                Err(e) => Err(e),
                Ok(_) => Ok(next),
            },
        },
    }
}

impl QuorumPolicy {
    pub open spec fn wf(&self) -> bool {
        match self {
            QuorumPolicy::WeightedThreshold(_) => true,
            QuorumPolicy::SpendLimit(p) => p.wf(),
        }
    }

    /// Whether the verified signers satisfy this policy for `contexts`.
    pub fn evaluate(&self, verified: &Vec<PublicKey>, contexts: &Vec<AuthContext>) -> (r: Result<
        (),
        AuthError,
    >)
        requires
            self.wf(),
        ensures
            r == policy_outcome(self@, key_views(verified@), context_views(contexts@)),
    {
        match self {
            QuorumPolicy::WeightedThreshold(account) => account.evaluate(verified),
            QuorumPolicy::SpendLimit(p) => p.evaluate(verified, contexts),
        }
    }
}

/// The state of the engine as plain values.
pub struct EngineView {
    pub identity: IdentifierView,
    pub policy: QuorumView,
    pub nonces: Map<IdentifierView, u64>,
}

/// The authorization engine of one account identity.
pub struct AuthorizationEngine {
    identity: Identifier,
    policy: QuorumPolicy,
    nonces: NonceStore,
}

impl View for AuthorizationEngine {
    type V = EngineView;

    closed spec fn view(&self) -> EngineView {
        EngineView { identity: self.identity@, policy: self.policy@, nonces: self.nonces@ }
    }
}

impl AuthorizationEngine {
    pub closed spec fn wf(&self) -> bool {
        self.policy.wf() && self.nonces.wf()
    }

    /// An engine for `identity` under `policy`, with no nonce used yet.
    pub fn new(identity: Identifier, policy: QuorumPolicy) -> (r: AuthorizationEngine)
        requires
            policy.wf(),
        ensures
            r.wf(),
            r@.identity == identity@,
            r@.policy == policy@,
            r@.nonces == Map::<IdentifierView, u64>::empty(),
    {
        AuthorizationEngine { identity, policy, nonces: NonceStore::new() }
    }

    /// The nonce that the next signed payload must carry.
    pub fn nonce(&self) -> (r: u64)
        requires
            self.wf(),
        ensures
            r == stored_nonce(self@.nonces, self@.identity),
    {
        self.nonces.read(&self.identity)
    }

    /// Authorizes the operations `contexts` with `bundle` signing `payload`. On
    /// success the account's nonce has advanced; on any failure nothing changed.
    pub fn check(
        &mut self,
        payload: &SignablePayload,
        bundle: &Vec<SignedEntry>,
        contexts: &Vec<AuthContext>,
    ) -> (r: Result<(), AuthError>)
        requires
            old(self).wf(),
        ensures
            final(self).wf(),
            final(self)@.identity == old(self)@.identity,
            final(self)@.policy == old(self)@.policy,
            match r {
                Ok(_) => check_outcome(
                    old(self)@.identity,
                    old(self)@.policy,
                    old(self)@.nonces,
                    payload.spec_bytes(),
                    payload.nonce,
                    bundle@,
                    context_views(contexts@),
                ) == Ok::<Map<IdentifierView, u64>, AuthError>(final(self)@.nonces),
                Err(e) => {
                    &&& check_outcome(
                        old(self)@.identity,
                        old(self)@.policy,
                        old(self)@.nonces,
                        payload.spec_bytes(),
                        payload.nonce,
                        bundle@,
                        context_views(contexts@),
                    ) == Err::<Map<IdentifierView, u64>, AuthError>(e)
                    &&& final(self)@ == old(self)@
                },
            },
    {
        let digest = signature_payload(payload);
        let verified = match verify_all(&digest, bundle) {
            Ok(keys) => keys,
            Err(e) => {
                return Err(e);
            },
        };
        if let Err(e) = self.nonces.check(&self.identity, payload.nonce) {
            return Err(e);
        }
        if let Err(e) = self.policy.evaluate(&verified, contexts) {
            return Err(e);
        }
        self.nonces.consume(&self.identity, payload.nonce)
    }
}

} // verus!
