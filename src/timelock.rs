//! A claimable balance guarded by a time lock: a depositor locks an amount of a
//! token for a list of claimants, and one of them may claim it before or after
//! a given time. Both steps are authorized with nonce zero, so each identity can
//! deposit or claim at most once.
use vstd::prelude::*;

use crate::error::AuthError;
use crate::keyed::{auth_identity, check_auth, keyed_outcome, Authorization};
use crate::keys::{bytes32_to_vec, bytes_copy, ContractId};
use crate::nonce::{identifier_equal, Identifier, IdentifierView, NonceStore};
use crate::payload::{payload_bytes, val_views, SignablePayload, Val, ValView};

verus! {

/// The most claimants a balance may name.
pub const MAX_CLAIMANTS: usize = 10;

/// On which side of its timestamp a time bound is met.
#[derive(Clone, Copy, Debug, PartialEq, Eq)]
pub enum TimeBoundKind {
    Before,
    After,
}

/// A point in ledger time and the side of it on which a claim is allowed.
#[derive(Clone, Copy, Debug, PartialEq, Eq)]
pub struct TimeBound {
    pub kind: TimeBoundKind,
    pub timestamp: u64,
}

/// Whether a ledger at time `now` meets `bound` (both ends inclusive).
pub open spec fn time_bound_holds(bound: TimeBound, now: u64) -> bool {
    match bound.kind {
        TimeBoundKind::Before => now <= bound.timestamp,
        TimeBoundKind::After => now >= bound.timestamp,
    }
}

impl TimeBound {
    /// Whether a ledger at time `now` meets this bound.
    pub fn is_met(&self, now: u64) -> (r: bool)
        ensures
            r == time_bound_holds(*self, now),
    {
        match self.kind {
            TimeBoundKind::Before => now <= self.timestamp,
            TimeBoundKind::After => now >= self.timestamp,
        }
    }
}

/// Why a deposit or a claim was refused.
#[derive(Clone, Copy, Debug, PartialEq, Eq, Structural)]
pub enum ClaimError {
    /// More than `MAX_CLAIMANTS` claimants were named.
    TooManyClaimants,
    /// A balance has been deposited already.
    AlreadyInitialized,
    /// There is no balance to claim.
    NoBalance,
    /// The ledger time does not meet the time bound.
    TimeBoundNotMet,
    /// The claimant is not among the claimants of the balance.
    NotAClaimant,
    /// The authorization was rejected.
    Auth(AuthError),
}

/// A deposited balance.
#[derive(Clone, Debug, PartialEq, Eq)]
pub struct ClaimableBalance {
    pub token: ContractId,
    pub amount: i128,
    pub claimants: Vec<Identifier>,
    pub time_bound: TimeBound,
}

/// A balance as plain values.
pub struct BalanceView {
    pub token: Seq<u8>,
    pub amount: i128,
    pub claimants: Seq<IdentifierView>,
    pub time_bound: TimeBound,
}

/// The identifiers of a list as plain values.
pub open spec fn identifier_views(ids: Seq<Identifier>) -> Seq<IdentifierView> {
    ids.map_values(|i: Identifier| i@)
}

impl View for ClaimableBalance {
    type V = BalanceView;

    open spec fn view(&self) -> BalanceView {
        BalanceView {
            token: self.token@,
            amount: self.amount,
            claimants: identifier_views(self.claimants@),
            time_bound: self.time_bound,
        }
    }
}

/// An identifier as signed: a kind byte, then its 32 bytes.
pub open spec fn identifier_seq(id: IdentifierView) -> Seq<u8> {
    match id {
        IdentifierView::Contract(b) => seq![0u8] + b,
        IdentifierView::Ed25519(b) => seq![1u8] + b,
        IdentifierView::Account(b) => seq![2u8] + b,
    }
}

/// The claimants as signed arguments, one after the other.
pub open spec fn claimant_args(claimants: Seq<IdentifierView>) -> Seq<ValView> {
    claimants.map_values(|c: IdentifierView| ValView::Bytes(identifier_seq(c)))
}

/// The arguments a depositor signs: who deposits, the token, the amount, the time
/// bound (kind, then timestamp) and the claimants.
pub open spec fn deposit_args(
    from: IdentifierView,
    token: Seq<u8>,
    amount: i128,
    bound: TimeBound,
    claimants: Seq<IdentifierView>,
) -> Seq<ValView> {
    seq![
        ValView::Bytes(identifier_seq(from)),
        ValView::Bytes(token),
        ValView::I128(amount),
        ValView::U64(if bound.kind is Before { 0 } else { 1 }),
        ValView::U64(bound.timestamp),
    ] + claimant_args(claimants)
}

/// "deposit" in ASCII.
pub open spec fn deposit_name() -> Seq<u8> {
    seq![100u8, 101, 112, 111, 115, 105, 116]
}

/// "claim" in ASCII.
pub open spec fn claim_name() -> Seq<u8> {
    seq![99u8, 108, 97, 105, 109]
}

/// The state of the contract as plain values.
pub struct ClaimableView {
    pub contract: Seq<u8>,
    pub network: Seq<u8>,
    pub initialized: bool,
    pub balance: Option<BalanceView>,
    pub nonces: Map<IdentifierView, u64>,
}

/// The verdict on a deposit, and the nonces after it.
pub open spec fn deposit_outcome(
    s: ClaimableView,
    from: Authorization,
    token: Seq<u8>,
    amount: i128,
    claimants: Seq<IdentifierView>,
    bound: TimeBound,
) -> Result<Map<IdentifierView, u64>, ClaimError> {
    if claimants.len() > MAX_CLAIMANTS {
        Err(ClaimError::TooManyClaimants)
    } else if s.initialized {
        Err(ClaimError::AlreadyInitialized)
    } else {
        let payload = payload_bytes(
            deposit_name(),
            s.contract,
            s.network,
            deposit_args(auth_identity(from), token, amount, bound, claimants),
            0,
        );
        match keyed_outcome(s.nonces, from, payload, 0) {
            Err(e) => Err(ClaimError::Auth(e)),
            Ok(next) => Ok(next),
        }
    }
}

/// The verdict on a claim at ledger time `now`, and the nonces after it.
pub open spec fn claim_outcome(s: ClaimableView, claimant: Authorization, now: u64) -> Result<
    Map<IdentifierView, u64>,
    ClaimError,
> {
    match s.balance {
        None => Err(ClaimError::NoBalance),
        Some(b) => {
            if !time_bound_holds(b.time_bound, now) {
                Err(ClaimError::TimeBoundNotMet)
            } else if !b.claimants.contains(auth_identity(claimant)) {
                Err(ClaimError::NotAClaimant)
            } else {
                let payload = payload_bytes(
                    claim_name(),
                    s.contract,
                    s.network,
                    seq![ValView::Bytes(identifier_seq(auth_identity(claimant)))],
                    0,
                );
                match keyed_outcome(s.nonces, claimant, payload, 0) {
                    Err(e) => Err(ClaimError::Auth(e)),
                    Ok(next) => Ok(next),
                }
            }
        },
    }
}

/// The bytes under which an identifier is signed.
fn identifier_bytes(id: &Identifier) -> (r: Vec<u8>)
    ensures
        r@ == identifier_seq(id@),
{
    let (tag, bytes) = match id {
        Identifier::Contract(c) => (0u8, &c.bytes),
        Identifier::Ed25519(k) => (1u8, &k.bytes),
        Identifier::Account(k) => (2u8, &k.bytes),
    };
    let tail = bytes32_to_vec(bytes);
    let mut out: Vec<u8> = vec![tag];
    let mut i: usize = 0;
    while i < tail.len()
        invariant
            i <= tail@.len(),
            out@ == seq![tag] + tail@.subrange(0, i as int),
        decreases tail@.len() - i,
    {
        out.push(tail[i]);
        i += 1;
        assert(out@ =~= seq![tag] + tail@.subrange(0, i as int));
    }
    assert(tail@.subrange(0, tail@.len() as int) =~= tail@);
    assert(out@ =~= identifier_seq(id@));
    out
}

fn deposit_name_bytes() -> (r: Vec<u8>)
    ensures
        r@ == deposit_name(),
{
    let r = vec![100u8, 101, 112, 111, 115, 105, 116];
    assert(r@ =~= deposit_name());
    r
}

fn claim_name_bytes() -> (r: Vec<u8>)
    ensures
        r@ == claim_name(),
{
    let r = vec![99u8, 108, 97, 105, 109];
    assert(r@ =~= claim_name());
    r
}

/// The arguments of a deposit, as signed.
fn deposit_arg_vals(
    from: &Identifier,
    token: &ContractId,
    amount: i128,
    bound: &TimeBound,
    claimants: &Vec<Identifier>,
) -> (r: Vec<Val>)
    ensures
        val_views(r@) == deposit_args(from@, token@, amount, *bound, identifier_views(claimants@)),
{
    let kind: u64 = match bound.kind {
        TimeBoundKind::Before => 0,
        TimeBoundKind::After => 1,
    };
    let mut args: Vec<Val> = vec![
        Val::Bytes(identifier_bytes(from)),
        Val::Bytes(bytes32_to_vec(&token.bytes)),
        Val::I128(amount),
        Val::U64(kind),
        Val::U64(bound.timestamp),
    ];
    let ghost head = val_views(args@);
    let ghost ids = identifier_views(claimants@);
    let mut i: usize = 0;
    while i < claimants.len()
        invariant
            i <= claimants@.len(),
            ids == identifier_views(claimants@),
            val_views(args@) =~= head + claimant_args(ids.subrange(0, i as int)),
        decreases claimants@.len() - i,
    {
        let ghost before = val_views(args@);
        let bytes = identifier_bytes(&claimants[i]);
        assert(ids[i as int] == claimants@[i as int]@);
        args.push(Val::Bytes(bytes));
        assert(val_views(args@) =~= before.push(ValView::Bytes(identifier_seq(ids[i as int]))));
        assert(claimant_args(ids.subrange(0, i + 1)) =~= claimant_args(ids.subrange(0, i as int)).push(
            ValView::Bytes(identifier_seq(ids[i as int])),
        ));
        i += 1;
        assert(val_views(args@) =~= head + claimant_args(ids.subrange(0, i as int)));
    }
    assert(ids.subrange(0, ids.len() as int) =~= ids);
    assert(val_views(args@) =~= deposit_args(from@, token@, amount, *bound, ids));
    args
}

/// Whether `id` is one of `ids`.
fn contains_identifier(ids: &Vec<Identifier>, id: &Identifier) -> (r: bool)
    ensures
        r == identifier_views(ids@).contains(id@),
{
    let mut i: usize = 0;
    while i < ids.len()
        invariant
            i <= ids@.len(),
            forall|j: int| 0 <= j < i ==> identifier_views(ids@)[j] != id@,
        decreases ids@.len() - i,
    {
        if identifier_equal(&ids[i], id) {
            assert(identifier_views(ids@)[i as int] == id@);
            return true;
        }
        i += 1;
    }
    false
}

/// The contract that holds one claimable balance.
pub struct ClaimableBalanceContract {
    contract: ContractId,
    network: Vec<u8>,
    initialized: bool,
    balance: Option<ClaimableBalance>,
    nonces: NonceStore,
}

impl View for ClaimableBalanceContract {
    type V = ClaimableView;

    closed spec fn view(&self) -> ClaimableView {
        ClaimableView {
            contract: self.contract@,
            network: self.network@,
            initialized: self.initialized,
            balance: match self.balance {
                Some(b) => Some(b@),
                None => None,
            },
            nonces: self.nonces@,
        }
    }
}

impl ClaimableBalanceContract {
    pub closed spec fn wf(&self) -> bool {
        self.nonces.wf()
    }

    /// The contract `contract` on network `network`, before any deposit.
    pub fn new(contract: ContractId, network: Vec<u8>) -> (r: ClaimableBalanceContract)
        ensures
            r.wf(),
            r@.contract == contract@,
            r@.network == network@,
            !r@.initialized,
            r@.balance is None,
            r@.nonces == Map::<IdentifierView, u64>::empty(),
    {
        ClaimableBalanceContract {
            contract,
            network,
            initialized: false,
            balance: None,
            nonces: NonceStore::new(),
        }
    }

    /// The balance waiting to be claimed, if any.
    pub fn balance(&self) -> (r: Option<&ClaimableBalance>)
        ensures
            match r {
                Some(b) => self@.balance == Some(b@),
                None => self@.balance is None,
            },
    {
        match &self.balance {
            Some(b) => Some(b),
            None => None,
        }
    }

    /// The payload a depositor signs for a deposit: nonce zero, so that it can be
    /// used once.
    pub fn deposit_payload(
        &self,
        from: &Identifier,
        token: &ContractId,
        amount: i128,
        claimants: &Vec<Identifier>,
        time_bound: &TimeBound,
    ) -> (r: SignablePayload)
        ensures
            r.nonce == 0,
            r.spec_bytes() == payload_bytes(
                deposit_name(),
                self@.contract,
                self@.network,
                deposit_args(from@, token@, amount, *time_bound, identifier_views(claimants@)),
                0,
            ),
    {
        SignablePayload {
            function: deposit_name_bytes(),
            contract: self.contract,
            network: bytes_copy(&self.network),
            args: deposit_arg_vals(from, token, amount, time_bound, claimants),
            nonce: 0,
        }
    }

    /// The payload a claimant signs for a claim: nonce zero, so that it can be used
    /// once.
    pub fn claim_payload(&self, claimant: &Identifier) -> (r: SignablePayload)
        ensures
            r.nonce == 0,
            r.spec_bytes() == payload_bytes(
                claim_name(),
                self@.contract,
                self@.network,
                seq![ValView::Bytes(identifier_seq(claimant@))],
                0,
            ),
    {
        let args = vec![Val::Bytes(identifier_bytes(claimant))];
        assert(val_views(args@) =~= seq![ValView::Bytes(identifier_seq(claimant@))]);
        SignablePayload {
            function: claim_name_bytes(),
            contract: self.contract,
            network: bytes_copy(&self.network),
            args,
            nonce: 0,
        }
    }

    /// Locks `amount` of `token` for `claimants` under `time_bound`, authorized by
    /// the depositor with nonce zero. The token transfer itself is the caller's to
    /// make once this succeeds.
    pub fn deposit(
        &mut self,
        from: &Authorization,
        token: ContractId,
        amount: i128,
        claimants: Vec<Identifier>,
        time_bound: TimeBound,
    ) -> (r: Result<(), ClaimError>)
        requires
            old(self).wf(),
        ensures
            final(self).wf(),
            match r {
                Ok(_) => {
                    &&& deposit_outcome(
                        old(self)@,
                        *from,
                        token@,
                        amount,
                        identifier_views(claimants@),
                        time_bound,
                    ) == Ok::<Map<IdentifierView, u64>, ClaimError>(final(self)@.nonces)
                    &&& final(self)@.initialized
                    &&& final(self)@.balance == Some(
                        BalanceView {
                            token: token@,
                            amount,
                            claimants: identifier_views(claimants@),
                            time_bound,
                        },
                    )
                    &&& final(self)@.contract == old(self)@.contract
                    &&& final(self)@.network == old(self)@.network
                },
                Err(e) => {
                    &&& deposit_outcome(
                        old(self)@,
                        *from,
                        token@,
                        amount,
                        identifier_views(claimants@),
                        time_bound,
                    ) == Err::<Map<IdentifierView, u64>, ClaimError>(e)
                    &&& final(self)@ == old(self)@
                },
            },
    {
        if claimants.len() > MAX_CLAIMANTS {
            return Err(ClaimError::TooManyClaimants);
        }
        if self.initialized {
            return Err(ClaimError::AlreadyInitialized);
        }
        let from_id = from.identifier();
        let payload = self.deposit_payload(&from_id, &token, amount, &claimants, &time_bound);
        if let Err(e) = check_auth(&mut self.nonces, from, &payload) {
            return Err(ClaimError::Auth(e));
        }
        self.balance = Some(ClaimableBalance { token, amount, claimants, time_bound });
        self.initialized = true;
        Ok(())
    }

    /// Claims the balance for `claimant` at ledger time `now`, authorized with nonce
    /// zero. Returns the token and amount that the caller then transfers to the
    /// claimant; the balance is gone afterwards.
    pub fn claim(&mut self, claimant: &Authorization, now: u64) -> (r: Result<(ContractId, i128), ClaimError>)
        requires
            old(self).wf(),
        ensures
            final(self).wf(),
            match r {
                Ok((token, amount)) => {
                    &&& claim_outcome(old(self)@, *claimant, now) == Ok::<
                        Map<IdentifierView, u64>,
                        ClaimError,
                    >(final(self)@.nonces)
                    &&& old(self)@.balance matches Some(b) && b.token == token@ && b.amount == amount
                    &&& final(self)@.balance is None
                    &&& final(self)@.initialized == old(self)@.initialized
                    &&& final(self)@.contract == old(self)@.contract
                    &&& final(self)@.network == old(self)@.network
                },
                Err(e) => {
                    &&& claim_outcome(old(self)@, *claimant, now) == Err::<
                        Map<IdentifierView, u64>,
                        ClaimError,
                    >(e)
                    &&& final(self)@ == old(self)@
                },
            },
    {
        let (token, amount) = match &self.balance {
            None => {
                return Err(ClaimError::NoBalance);
            },
            Some(b) => {
                if !b.time_bound.is_met(now) {
                    return Err(ClaimError::TimeBoundNotMet);
                }
                let claimant_id = claimant.identifier();
                if !contains_identifier(&b.claimants, &claimant_id) {
                    return Err(ClaimError::NotAClaimant);
                }
                let payload = self.claim_payload(&claimant_id);
                if let Err(e) = check_auth(&mut self.nonces, claimant, &payload) {
                    return Err(ClaimError::Auth(e));
                }
                (b.token, b.amount)
            },
        };
        self.balance = None;
        Ok((token, amount))
    }
}

} // verus!
