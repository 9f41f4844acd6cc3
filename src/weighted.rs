//! The weighted native-account policy: the signers present must carry at least
//! the account's medium threshold of weight.
use vstd::prelude::*;

use crate::bundle::key_views;
use crate::error::AuthError;
use crate::keys::{key_equal, PublicKey};

verus! {

/// A signer of a native account and the weight its signature carries.
#[derive(Clone, Copy, Debug, PartialEq, Eq)]
pub struct SignerWeight {
    pub public_key: PublicKey,
    pub weight: u32,
}

/// A native account as the ledger describes it: its key, its weighted signers and
/// the weight that medium-threshold operations need.
#[derive(Clone, Debug, PartialEq, Eq)]
pub struct NativeAccount {
    pub public_key: PublicKey,
    pub signers: Vec<SignerWeight>,
    pub medium_threshold: u32,
}

/// The weight of `key` in `signers`: that of its first entry, zero if it has none.
pub open spec fn weight_in(signers: Seq<SignerWeight>, key: Seq<u8>) -> nat
    decreases signers.len(),
{
    if signers.len() == 0 {
        0
    } else if signers[0].public_key@ == key {
        signers[0].weight as nat
    } else {
        weight_in(signers.drop_first(), key)
    }
}

/// The summed weight of `keys`.
pub open spec fn total_weight(signers: Seq<SignerWeight>, keys: Seq<Seq<u8>>) -> nat
    decreases keys.len(),
{
    if keys.len() == 0 {
        0
    } else {
        total_weight(signers, keys.drop_last()) + weight_in(signers, keys.last())
    }
}

/// The verdict of the weighted policy on the signers `keys`.
pub open spec fn weighted_outcome(
    signers: Seq<SignerWeight>,
    threshold: u32,
    keys: Seq<Seq<u8>>,
) -> Result<(), AuthError> {
    if total_weight(signers, keys) > u32::MAX {
        Err(AuthError::Overflow)
    } else if total_weight(signers, keys) < threshold {
        Err(AuthError::InsufficientQuorum)
    } else {
        Ok(())
    }
}

/// The weight of a prefix never exceeds the weight of a longer prefix.
proof fn lemma_total_weight_monotone(signers: Seq<SignerWeight>, keys: Seq<Seq<u8>>, i: int, j: int)
    requires
        0 <= i <= j <= keys.len(),
    ensures
        total_weight(signers, keys.subrange(0, i)) <= total_weight(signers, keys.subrange(0, j)),
    decreases j - i,
{
    if i < j {
        lemma_total_weight_monotone(signers, keys, i, j - 1);
        assert(keys.subrange(0, j).drop_last() =~= keys.subrange(0, j - 1));
    }
}

impl NativeAccount {
    /// The weight of `key` on this account.
    pub fn signer_weight(&self, key: &PublicKey) -> (r: u32)
        ensures
            r == weight_in(self.signers@, key@),
    {
        let mut i: usize = 0;
        assert(self.signers@.subrange(0, self.signers@.len() as int) =~= self.signers@);
        while i < self.signers.len()
            invariant
                i <= self.signers@.len(),
                weight_in(self.signers@, key@) == weight_in(
                    self.signers@.subrange(i as int, self.signers@.len() as int),
                    key@,
                ),
            decreases self.signers@.len() - i,
        {
            let ghost rest = self.signers@.subrange(i as int, self.signers@.len() as int);
            if key_equal(&self.signers[i].public_key, key) {
                assert(rest[0] == self.signers@[i as int]);
                return self.signers[i].weight;
            }
            assert(rest.drop_first() =~= self.signers@.subrange(i + 1, self.signers@.len() as int));
            i += 1;
        }
        0
    }

    /// Whether the signers `keys` carry the account's medium threshold. A weight sum
    /// beyond `u32::MAX` is an error, never wrapped.
    pub fn evaluate(&self, keys: &Vec<PublicKey>) -> (r: Result<(), AuthError>)
        ensures
            r == weighted_outcome(self.signers@, self.medium_threshold, key_views(keys@)),
    {
        let ghost views = key_views(keys@);
        let mut sum: u32 = 0;
        let mut i: usize = 0;
        while i < keys.len()
            invariant
                i <= keys@.len(),
                views == key_views(keys@),
                sum == total_weight(self.signers@, views.subrange(0, i as int)),
            decreases keys@.len() - i,
        {
            let w = self.signer_weight(&keys[i]);
            assert(views.subrange(0, i + 1).drop_last() =~= views.subrange(0, i as int));
            match sum.checked_add(w) {
                Some(s) => {
                    sum = s;
                },
                None => {
                    proof {
                        lemma_total_weight_monotone(self.signers@, views, i + 1, views.len() as int);
                        assert(views.subrange(0, views.len() as int) =~= views);
                    }
                    return Err(AuthError::Overflow);
                },
            }
            i += 1;
        }
        assert(views.subrange(0, views.len() as int) =~= views);
        if sum < self.medium_threshold {
            Err(AuthError::InsufficientQuorum)
        } else {
            Ok(())
        }
    }
}

} // verus!
