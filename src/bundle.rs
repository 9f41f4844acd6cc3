//! A signature bundle: (public key, signature) pairs listed strictly ascending
//! by key, each verified against the same message.
use vstd::prelude::*;

use crate::crypto::{ed25519_accepts, ed25519_verify};
use crate::error::AuthError;
use crate::keys::{key_less, key_lt, lemma_key_lt_irreflexive, lemma_key_lt_transitive, PublicKey, Signature};

verus! {

/// One signer's contribution to a bundle.
#[derive(Clone, Copy, Debug, PartialEq, Eq)]
pub struct SignedEntry {
    pub public_key: PublicKey,
    pub signature: Signature,
}

/// The keys of a list of public keys, as byte sequences.
pub open spec fn key_views(keys: Seq<PublicKey>) -> Seq<Seq<u8>> {
    keys.map_values(|k: PublicKey| k@)
}

/// The signers of a bundle, in the bundle's order.
pub open spec fn bundle_keys(bundle: Seq<SignedEntry>) -> Seq<Seq<u8>> {
    bundle.map_values(|e: SignedEntry| e.public_key@)
}

/// Each key sorts strictly before the next one.
pub open spec fn strictly_ascending(keys: Seq<Seq<u8>>) -> bool {
    forall|i: int| 0 <= i < keys.len() - 1 ==> key_lt(#[trigger] keys[i], keys[i + 1])
}

/// Every signature of the bundle verifies against `message` under its own key.
pub open spec fn all_signatures_valid(message: Seq<u8>, bundle: Seq<SignedEntry>) -> bool {
    forall|i: int|
        0 <= i < bundle.len() ==> ed25519_accepts(
            #[trigger] bundle[i].public_key@,
            message,
            bundle[i].signature@,
        )
}

/// The verdict on a bundle: the ordering is checked first, then every signature;
/// on success the set of signers, in ascending order.
pub open spec fn verify_all_outcome(message: Seq<u8>, bundle: Seq<SignedEntry>) -> Result<
    Seq<Seq<u8>>,
    AuthError,
> {
    if !strictly_ascending(bundle_keys(bundle)) {
        Err(AuthError::OutOfOrderOrDuplicate)
    } else if !all_signatures_valid(message, bundle) {
        Err(AuthError::BadSignature)
    } else {
        Ok(bundle_keys(bundle))
    }
}

/// In a strictly ascending sequence every earlier key sorts before every later one.
pub proof fn lemma_ascending_pairwise(keys: Seq<Seq<u8>>, i: int, j: int)
    requires
        strictly_ascending(keys),
        0 <= i < j < keys.len(),
    ensures
        key_lt(keys[i], keys[j]),
    decreases j - i,
{
    if j > i + 1 {
        lemma_ascending_pairwise(keys, i, j - 1);
        assert(key_lt(keys[j - 1], keys[j]));
        lemma_key_lt_transitive(keys[i], keys[j - 1], keys[j]);
    }
}

/// A strictly ascending sequence holds no key twice.
pub proof fn lemma_ascending_distinct(keys: Seq<Seq<u8>>, i: int, j: int)
    requires
        strictly_ascending(keys),
        0 <= i < keys.len(),
        0 <= j < keys.len(),
        i != j,
    ensures
        keys[i] != keys[j],
{
    if i < j {
        lemma_ascending_pairwise(keys, i, j);
    } else {
        lemma_ascending_pairwise(keys, j, i);
    }
    lemma_key_lt_irreflexive(keys[i]);
}

/// Checks a signature bundle against `message`: first that its keys are strictly
/// ascending (no signer twice), then that each signature verifies. Returns the signers.
pub fn verify_all(message: &[u8], bundle: &Vec<SignedEntry>) -> (r: Result<Vec<PublicKey>, AuthError>)
    ensures
        match r {
            Ok(keys) => verify_all_outcome(message@, bundle@) == Ok::<Seq<Seq<u8>>, AuthError>(
                key_views(keys@),
            ),
            Err(e) => verify_all_outcome(message@, bundle@) == Err::<Seq<Seq<u8>>, AuthError>(e),
        },
{
    let n = bundle.len();
    let ghost keys_view = bundle_keys(bundle@);
    let last: usize = if n == 0 { 0 } else { n - 1 };
    let mut i: usize = 0;
    while i < last
        invariant
            n == bundle@.len(),
            last == if n == 0 { 0 } else { n - 1 },
            keys_view == bundle_keys(bundle@),
            i <= last,
            forall|j: int| 0 <= j < i ==> key_lt(#[trigger] keys_view[j], keys_view[j + 1]),
        decreases n - i,
    {
        if !key_less(&bundle[i].public_key, &bundle[i + 1].public_key) {
            assert(!key_lt(keys_view[i as int], keys_view[i + 1]));
            return Err(AuthError::OutOfOrderOrDuplicate);
        }
        i += 1;
    }
    assert(strictly_ascending(keys_view));
    let mut keys: Vec<PublicKey> = Vec::new();
    let mut k: usize = 0;
    while k < n
        invariant
            n == bundle@.len(),
            k <= n,
            strictly_ascending(bundle_keys(bundle@)),
            keys@.len() == k,
            forall|j: int| 0 <= j < k ==> #[trigger] keys@[j] == bundle@[j].public_key,
            forall|j: int|
                0 <= j < k ==> ed25519_accepts(
                    #[trigger] bundle@[j].public_key@,
                    message@,
                    bundle@[j].signature@,
                ),
        decreases n - k,
    {
        let entry = &bundle[k];
        if !ed25519_verify(&entry.public_key.bytes, message, &entry.signature.bytes) {
            assert(!ed25519_accepts(bundle@[k as int].public_key@, message@, bundle@[k as int].signature@));
            return Err(AuthError::BadSignature);
        }
        keys.push(entry.public_key);
        k += 1;
    }
    assert(key_views(keys@) =~= bundle_keys(bundle@));
    Ok(keys)
}

} // verus!
