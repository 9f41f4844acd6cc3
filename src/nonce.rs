//! Per-identity nonces: the counter a signed message commits to, advanced once
//! per successful authorization so that no message can be used twice.
use vstd::prelude::*;

use crate::error::AuthError;
use crate::keys::{bytes32_equal, ContractId, PublicKey};

verus! {

/// Who authorizes an operation.
#[derive(Clone, Copy, Debug, PartialEq, Eq)]
pub enum Identifier {
    /// The invoking contract itself: it needs no signature and keeps no counter.
    Contract(ContractId),
    /// A single ed25519 key.
    Ed25519(PublicKey),
    /// A native account, authorized by its weighted signers.
    Account(PublicKey),
}

/// An identifier as plain bytes.
pub enum IdentifierView {
    Contract(Seq<u8>),
    Ed25519(Seq<u8>),
    Account(Seq<u8>),
}

impl View for Identifier {
    type V = IdentifierView;

    open spec fn view(&self) -> IdentifierView {
        match self {
            Identifier::Contract(c) => IdentifierView::Contract(c@),
            Identifier::Ed25519(k) => IdentifierView::Ed25519(k@),
            Identifier::Account(k) => IdentifierView::Account(k@),
        }
    }
}

/// Whether two identifiers are the same.
pub fn identifier_equal(a: &Identifier, b: &Identifier) -> (r: bool)
    ensures
        r == (a@ == b@),
{
    match (a, b) {
        (Identifier::Contract(x), Identifier::Contract(y)) => bytes32_equal(&x.bytes, &y.bytes),
        (Identifier::Ed25519(x), Identifier::Ed25519(y)) => bytes32_equal(&x.bytes, &y.bytes),
        (Identifier::Account(x), Identifier::Account(y)) => bytes32_equal(&x.bytes, &y.bytes),
        _ => false,
    }
}

/// The nonce expected next from `id`: zero until its first successful use.
pub open spec fn stored_nonce(nonces: Map<IdentifierView, u64>, id: IdentifierView) -> u64 {
    if nonces.contains_key(id) {
        nonces[id]
    } else {
        0
    }
}

/// What presenting nonce `presented` for `id` does: the invoking contract must
/// present zero and keeps no counter; any other identity must present its stored
/// nonce, which then advances by one.
pub open spec fn consume_outcome(
    nonces: Map<IdentifierView, u64>,
    id: IdentifierView,
    presented: u64,
) -> Result<Map<IdentifierView, u64>, AuthError> {
    match id {
        IdentifierView::Contract(_) => {
            if presented == 0 {
                Ok(nonces)
            } else {
                Err(AuthError::StaleNonce)
            }
        },
        _ => {
            if presented != stored_nonce(nonces, id) {
                Err(AuthError::StaleNonce)
            } else if presented == u64::MAX {
                Err(AuthError::Overflow)
            } else {
                Ok(nonces.insert(id, (presented + 1) as u64))
            }
        },
    }
}

struct NonceEntry {
    id: Identifier,
    next: u64,
}

/// The next expected nonce of every identity that has used one.
pub struct NonceStore {
    entries: Vec<NonceEntry>,
    nonces: Ghost<Map<IdentifierView, u64>>,
}

impl View for NonceStore {
    type V = Map<IdentifierView, u64>;

    closed spec fn view(&self) -> Map<IdentifierView, u64> {
        self.nonces@
    }
}

impl NonceStore {
    /// The entries hold exactly the map, one entry per identity.
    pub closed spec fn wf(&self) -> bool {
        &&& forall|i: int|
            0 <= i < self.entries@.len() ==> {
                &&& self.nonces@.contains_key(#[trigger] self.entries@[i].id@)
                &&& self.nonces@[self.entries@[i].id@] == self.entries@[i].next
            }
        &&& forall|k: IdentifierView|
            #[trigger] self.nonces@.contains_key(k) ==> exists|i: int|
                0 <= i < self.entries@.len() && #[trigger] self.entries@[i].id@ == k
        &&& forall|i: int, j: int|
            0 <= i < j < self.entries@.len() ==> #[trigger] self.entries@[i].id@
                != #[trigger] self.entries@[j].id@
    }

    /// A store in which no identity has used a nonce yet.
    pub fn new() -> (r: NonceStore)
        ensures
            r.wf(),
            r@ == Map::<IdentifierView, u64>::empty(),
    {
        NonceStore { entries: Vec::new(), nonces: Ghost(Map::empty()) }
    }

    /// Where `id` stands among the entries, if it has one.
    fn position(&self, id: &Identifier) -> (r: Option<usize>)
        requires
            self.wf(),
        ensures
            match r {
                Some(i) => i < self.entries@.len() && self.entries@[i as int].id@ == id@,
                None => !self@.contains_key(id@),
            },
    {
        let mut i: usize = 0;
        while i < self.entries.len()
            invariant
                self.wf(),
                i <= self.entries@.len(),
                forall|j: int| 0 <= j < i ==> #[trigger] self.entries@[j].id@ != id@,
            decreases self.entries@.len() - i,
        {
            if identifier_equal(&self.entries[i].id, id) {
                return Some(i);
            }
            i += 1;
        }
        None
    }

    /// The nonce that `id` must present next.
    pub fn read(&self, id: &Identifier) -> (r: u64)
        requires
            self.wf(),
        ensures
            r == stored_nonce(self@, id@),
    {
        match self.position(id) {
            Some(i) => self.entries[i].next,
            None => 0,
        }
    }

    /// Checks `presented` against the nonce of `id` without consuming it.
    pub fn check(&self, id: &Identifier, presented: u64) -> (r: Result<(), AuthError>)
        requires
            self.wf(),
        ensures
            match r {
                Ok(_) => consume_outcome(self@, id@, presented) is Ok,
                Err(e) => consume_outcome(self@, id@, presented) == Err::<
                    Map<IdentifierView, u64>,
                    AuthError,
                >(e),
            },
    {
        match id {
            Identifier::Contract(_) => {
                if presented == 0 {
                    Ok(())
                } else {
                    Err(AuthError::StaleNonce)
                }
            },
            _ => {
                let stored = self.read(id);
                if presented != stored {
                    Err(AuthError::StaleNonce)
                } else if presented == u64::MAX {
                    Err(AuthError::Overflow)
                } else {
                    Ok(())
                }
            },
        }
    }

    /// Consumes nonce `presented` of `id`: on success the stored nonce has advanced
    /// by one; on failure the store is unchanged.
    pub fn consume(&mut self, id: &Identifier, presented: u64) -> (r: Result<(), AuthError>)
        requires
            old(self).wf(),
        ensures
            final(self).wf(),
            match r {
                Ok(_) => consume_outcome(old(self)@, id@, presented) == Ok::<
                    Map<IdentifierView, u64>,
                    AuthError,
                >(final(self)@),
                Err(e) => {
                    &&& consume_outcome(old(self)@, id@, presented) == Err::<
                        Map<IdentifierView, u64>,
                        AuthError,
                    >(e)
                    &&& final(self)@ == old(self)@
                },
            },
    {
        let verdict = self.check(id, presented);
        if verdict.is_err() {
            return verdict;
        }
        if let Identifier::Contract(_) = id {
            return Ok(());
        }
        let ghost before = self.nonces@;
        match self.position(id) {
            Some(i) => {
                let ghost entries = self.entries@;
                let entry = NonceEntry { id: *id, next: presented + 1 };
                self.entries.set(i, entry);
                self.nonces = Ghost(before.insert(id@, (presented + 1) as u64));
                assert forall|k: IdentifierView| #[trigger]
                    self.nonces@.contains_key(k) implies exists|j: int|
                    0 <= j < self.entries@.len() && #[trigger] self.entries@[j].id@ == k by {
                    if k != id@ {
                        let j = choose|j: int| 0 <= j < entries.len() && #[trigger] entries[j].id@ == k;
                        assert(self.entries@[j].id@ == k);
                    } else {
                        assert(self.entries@[i as int].id@ == k);
                    }
                }
            },
            None => {
                let ghost entries = self.entries@;
                let entry = NonceEntry { id: *id, next: presented + 1 };
                self.entries.push(entry);
                self.nonces = Ghost(before.insert(id@, (presented + 1) as u64));
                assert forall|k: IdentifierView| #[trigger]
                    self.nonces@.contains_key(k) implies exists|j: int|
                    0 <= j < self.entries@.len() && #[trigger] self.entries@[j].id@ == k by {
                    if k != id@ {
                        let j = choose|j: int| 0 <= j < entries.len() && #[trigger] entries[j].id@ == k;
                        assert(self.entries@[j] == entries[j]);
                    } else {
                        assert(self.entries@[self.entries@.len() - 1].id@ == k);
                    }
                }
            },
        }
        Ok(())
    }
}

} // verus!
