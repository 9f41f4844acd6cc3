//! Properties that hold across the engine's functions, proved over the same
//! spec functions that their contracts use.
use vstd::prelude::*;

use crate::bundle::{
    all_signatures_valid, bundle_keys, lemma_ascending_distinct, strictly_ascending,
    verify_all_outcome, SignedEntry,
};
use crate::engine::{check_outcome, QuorumView};
use crate::error::AuthError;
use crate::keyed::{keyed_outcome, Authorization};
use crate::keys::key_lt;
use crate::nonce::{consume_outcome, stored_nonce, IdentifierView};
use crate::spend_limit::{
    account_outcome, add_limit_context, lemma_present_count_full, spend_limit_outcome,
    within_limit, present_count, ContextView, SpendLimitView,
};

verus! {

/// A bundle in which the whole registered signer set signs, strictly ascending and
/// with valid signatures, is accepted by the bundle check, and the spend-limit
/// policy then accepts it for any operations at all.
pub proof fn lemma_full_signer_set_accepted(
    p: SpendLimitView,
    message: Seq<u8>,
    bundle: Seq<SignedEntry>,
    contexts: Seq<ContextView>,
)
    requires
        strictly_ascending(p.signers),
        bundle_keys(bundle) == p.signers,
        all_signatures_valid(message, bundle),
    ensures
        verify_all_outcome(message, bundle) == Ok::<Seq<Seq<u8>>, AuthError>(p.signers),
        account_outcome(p, message, bundle, contexts) == Ok::<(), AuthError>(()),
{
    assert forall|i: int| 0 <= i < p.signers.len() implies p.signers.contains(#[trigger] p.signers[i]) by {
    }
    lemma_present_count_full(p.signers, p.signers);
}

/// A bundle that lists one public key twice is rejected as out of order, whether
/// or not its signatures verify.
pub proof fn lemma_duplicate_key_rejected(message: Seq<u8>, bundle: Seq<SignedEntry>, i: int, j: int)
    requires
        0 <= i < j < bundle.len(),
        bundle[i].public_key@ == bundle[j].public_key@,
    ensures
        verify_all_outcome(message, bundle) == Err::<Seq<Seq<u8>>, AuthError>(
            AuthError::OutOfOrderOrDuplicate,
        ),
{
    let keys = bundle_keys(bundle);
    if strictly_ascending(keys) {
        lemma_ascending_distinct(keys, i, j);
    }
}

/// A bundle with two neighbours out of ascending order is rejected as out of
/// order even when every signature in it verifies.
pub proof fn lemma_unordered_bundle_rejected(message: Seq<u8>, bundle: Seq<SignedEntry>, i: int)
    requires
        0 <= i < bundle.len() - 1,
        !key_lt(bundle[i].public_key@, bundle[i + 1].public_key@),
        all_signatures_valid(message, bundle),
    ensures
        verify_all_outcome(message, bundle) == Err::<Seq<Seq<u8>>, AuthError>(
            AuthError::OutOfOrderOrDuplicate,
        ),
{
    assert(!key_lt(bundle_keys(bundle)[i], bundle_keys(bundle)[i + 1]));
}

/// Consuming a nonce is not idempotent: once an identity with a counter has
/// consumed a nonce, presenting the same nonce again is stale, and the counter
/// has moved up by exactly one.
pub proof fn lemma_nonce_not_reusable(nonces: Map<IdentifierView, u64>, id: IdentifierView, nonce: u64)
    requires
        !(id is Contract),
        consume_outcome(nonces, id, nonce) is Ok,
    ensures
        stored_nonce(consume_outcome(nonces, id, nonce)->Ok_0, id) == nonce + 1,
        consume_outcome(consume_outcome(nonces, id, nonce)->Ok_0, id, nonce) == Err::<
            Map<IdentifierView, u64>,
            AuthError,
        >(AuthError::StaleNonce),
{
}

/// A successful consumption advances the nonce of its own identity by exactly
/// one and leaves every other identity's nonce as it was: nonces never go down.
pub proof fn lemma_nonces_never_decrease(
    nonces: Map<IdentifierView, u64>,
    id: IdentifierView,
    nonce: u64,
    other: IdentifierView,
)
    requires
        consume_outcome(nonces, id, nonce) is Ok,
    ensures
        other != id ==> stored_nonce(consume_outcome(nonces, id, nonce)->Ok_0, other) == stored_nonce(
            nonces,
            other,
        ),
        stored_nonce(consume_outcome(nonces, id, nonce)->Ok_0, other) >= stored_nonce(nonces, other),
{
}

/// Submitting the same signed payload to the engine twice: if the first check
/// succeeds, the second fails with a stale nonce.
pub proof fn lemma_engine_replay_rejected(
    identity: IdentifierView,
    policy: QuorumView,
    nonces: Map<IdentifierView, u64>,
    payload: Seq<u8>,
    nonce: u64,
    bundle: Seq<SignedEntry>,
    contexts: Seq<ContextView>,
)
    requires
        !(identity is Contract),
        check_outcome(identity, policy, nonces, payload, nonce, bundle, contexts) is Ok,
    ensures
        check_outcome(
            identity,
            policy,
            check_outcome(identity, policy, nonces, payload, nonce, bundle, contexts)->Ok_0,
            payload,
            nonce,
            bundle,
            contexts,
        ) == Err::<Map<IdentifierView, u64>, AuthError>(AuthError::StaleNonce),
{
    lemma_nonce_not_reusable(nonces, identity, nonce);
}

/// Submitting the same signed payload with the same single-identity
/// authorization twice: if the first succeeds, the second fails with a stale
/// nonce.
pub proof fn lemma_keyed_replay_rejected(
    nonces: Map<IdentifierView, u64>,
    auth: Authorization,
    payload: Seq<u8>,
    nonce: u64,
)
    requires
        !(auth is Invoker),
        keyed_outcome(nonces, auth, payload, nonce) is Ok,
    ensures
        keyed_outcome(keyed_outcome(nonces, auth, payload, nonce)->Ok_0, auth, payload, nonce)
            == Err::<Map<IdentifierView, u64>, AuthError>(AuthError::StaleNonce),
{
    match auth {
        Authorization::Ed25519(entry) => {
            lemma_nonce_not_reusable(nonces, IdentifierView::Ed25519(entry.public_key@), nonce);
        },
        Authorization::Account(account, _) => {
            lemma_nonce_not_reusable(nonces, IdentifierView::Account(account.public_key@), nonce);
        },
        Authorization::Invoker(_) => {},
    }
}

/// An operation on the account itself (an administrative one, such as setting a
/// limit) is authorized only when every registered signer has signed, whatever
/// limits are configured.
pub proof fn lemma_admin_needs_full_quorum(
    p: SpendLimitView,
    verified: Seq<Seq<u8>>,
    contexts: Seq<ContextView>,
    i: int,
)
    requires
        0 <= i < contexts.len(),
        contexts[i].contract == p.account,
        spend_limit_outcome(p, verified, contexts) is Ok,
    ensures
        forall|j: int| 0 <= j < p.signers.len() ==> verified.contains(#[trigger] p.signers[j]),
{
    let k = present_count(p.signers, verified);
    assert(!within_limit(p, k, contexts[i]));
    lemma_present_count_full(p.signers, verified);
}

/// Setting a spend limit succeeds only with a bundle that holds every registered
/// signer.
pub proof fn lemma_add_limit_needs_full_quorum(
    p: SpendLimitView,
    message: Seq<u8>,
    bundle: Seq<SignedEntry>,
    asset: Seq<u8>,
    limit: u64,
)
    requires
        account_outcome(p, message, bundle, seq![add_limit_context(p.account, asset, limit)]) is Ok,
    ensures
        forall|j: int|
            0 <= j < p.signers.len() ==> bundle_keys(bundle).contains(#[trigger] p.signers[j]),
{
    let contexts = seq![add_limit_context(p.account, asset, limit)];
    lemma_admin_needs_full_quorum(p, bundle_keys(bundle), contexts, 0);
}

} // verus!
