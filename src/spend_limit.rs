//! The context-aware spend-limit policy of an account: every registered signer
//! may authorize anything, while fewer signers may only move bounded amounts of
//! assets that carry a per-signer limit.
use vstd::prelude::*;

use crate::bundle::{key_views, strictly_ascending, verify_all, verify_all_outcome, SignedEntry};
use crate::error::AuthError;
use crate::keys::{bytes32_to_vec, bytes_equal, contract_id_equal, key_equal, key_less, ContractId, PublicKey};
use crate::payload::{val_views, Val, ValView};

verus! {

/// One operation that an authorization covers: the contract called, the function
/// and its arguments.
#[derive(Clone, Debug, PartialEq, Eq)]
pub struct AuthContext {
    pub contract: ContractId,
    pub fn_name: Vec<u8>,
    pub args: Vec<Val>,
}

/// A context as plain values.
pub struct ContextView {
    pub contract: Seq<u8>,
    pub fn_name: Seq<u8>,
    pub args: Seq<ValView>,
}

impl View for AuthContext {
    type V = ContextView;

    open spec fn view(&self) -> ContextView {
        ContextView { contract: self.contract@, fn_name: self.fn_name@, args: val_views(self.args@) }
    }
}

/// The contexts of one authorization as plain values.
pub open spec fn context_views(contexts: Seq<AuthContext>) -> Seq<ContextView> {
    contexts.map_values(|c: AuthContext| c@)
}

/// A value-moving function that a reduced set of signers may authorize, and the
/// position of its amount among the arguments.
#[derive(Clone, Debug, PartialEq, Eq)]
pub struct LimitedFunction {
    pub name: Vec<u8>,
    pub amount_index: usize,
}

/// The configuration of a spend-limit account as plain values.
pub struct SpendLimitView {
    /// The account itself: operations on it are administrative.
    pub account: Seq<u8>,
    /// The registered signer set, strictly ascending.
    pub signers: Seq<Seq<u8>>,
    /// The allow-list of value-moving functions.
    pub limited: Seq<(Seq<u8>, usize)>,
    /// The per-signer limit of each asset that has one.
    pub limits: Map<Seq<u8>, u64>,
}

/// How many registered signers appear among the verified ones.
pub open spec fn present_count(signers: Seq<Seq<u8>>, verified: Seq<Seq<u8>>) -> nat
    decreases signers.len(),
{
    if signers.len() == 0 {
        0
    } else {
        present_count(signers.drop_last(), verified) + if verified.contains(signers.last()) {
            1nat
        } else {
            0nat
        }
    }
}

/// The amount position of `name` in the allow-list (its first entry), if listed.
pub open spec fn amount_index(limited: Seq<(Seq<u8>, usize)>, name: Seq<u8>) -> Option<usize>
    decreases limited.len(),
{
    if limited.len() == 0 {
        None
    } else if limited[0].0 == name {
        Some(limited[0].1)
    } else {
        amount_index(limited.drop_first(), name)
    }
}

/// The amount at position `index`, if there is an `i128` there.
pub open spec fn amount_at(args: Seq<ValView>, index: usize) -> Option<i128> {
    if index < args.len() {
        match args[index as int] {
            ValView::I128(a) => Some(a),
            _ => None,
        }
    } else {
        None
    }
}

/// Whether `k` signers may authorize context `c` without the full signer set: it
/// calls an allow-listed function of an asset with a limit (never the account
/// itself), and its amount is at most the limit times `k`.
pub open spec fn within_limit(p: SpendLimitView, k: nat, c: ContextView) -> bool {
    &&& c.contract != p.account
    &&& p.limits.contains_key(c.contract)
    &&& match amount_index(p.limited, c.fn_name) {
        Some(index) => match amount_at(c.args, index) {
            Some(amount) => amount as int <= p.limits[c.contract] as int * k,
            None => false,
        },
        None => false,
    }
}

/// The verdict of the spend-limit policy on the verified signers and the contexts.
pub open spec fn spend_limit_outcome(
    p: SpendLimitView,
    verified: Seq<Seq<u8>>,
    contexts: Seq<ContextView>,
) -> Result<(), AuthError> {
    let k = present_count(p.signers, verified);
    if k == p.signers.len() {
        Ok(())
    } else if forall|i: int| 0 <= i < contexts.len() ==> within_limit(p, k, #[trigger] contexts[i]) {
        Ok(())
    } else {
        Err(AuthError::InsufficientQuorum)
    }
}

/// The verdict on a whole authorization: the bundle, then the policy.
pub open spec fn account_outcome(
    p: SpendLimitView,
    message: Seq<u8>,
    bundle: Seq<SignedEntry>,
    contexts: Seq<ContextView>,
) -> Result<(), AuthError> {
    match verify_all_outcome(message, bundle) {
        Err(e) => Err(e),
        Ok(keys) => spend_limit_outcome(p, keys, contexts),
    }
}

proof fn lemma_present_count_bound(signers: Seq<Seq<u8>>, verified: Seq<Seq<u8>>)
    ensures
        present_count(signers, verified) <= signers.len(),
    decreases signers.len(),
{
    if signers.len() > 0 {
        lemma_present_count_bound(signers.drop_last(), verified);
    }
}

/// Every registered signer is present exactly when all of them are counted.
pub proof fn lemma_present_count_full(signers: Seq<Seq<u8>>, verified: Seq<Seq<u8>>)
    ensures
        present_count(signers, verified) == signers.len() <==> forall|i: int|
            0 <= i < signers.len() ==> verified.contains(#[trigger] signers[i]),
    decreases signers.len(),
{
    if signers.len() > 0 {
        let front = signers.drop_last();
        lemma_present_count_full(front, verified);
        lemma_present_count_bound(front, verified);
        if present_count(signers, verified) == signers.len() {
            assert forall|i: int| 0 <= i < signers.len() implies verified.contains(#[trigger] signers[i]) by {
                if i < signers.len() - 1 {
                    assert(front[i] == signers[i]);
                }
            }
        }
        if forall|i: int| 0 <= i < signers.len() ==> verified.contains(#[trigger] signers[i]) {
            assert forall|i: int| 0 <= i < front.len() implies verified.contains(#[trigger] front[i]) by {
                assert(front[i] == signers[i]);
            }
            assert(verified.contains(signers[signers.len() - 1]));
        }
    }
}

struct LimitEntry {
    asset: ContractId,
    limit: u64,
}

/// The quorum policy of an account with a registered signer set and spend limits.
pub struct SpendLimitPolicy {
    account: ContractId,
    signers: Vec<PublicKey>,
    limited: Vec<LimitedFunction>,
    limits: Vec<LimitEntry>,
    limit_map: Ghost<Map<Seq<u8>, u64>>,
}

impl View for SpendLimitPolicy {
    type V = SpendLimitView;

    closed spec fn view(&self) -> SpendLimitView {
        SpendLimitView {
            account: self.account@,
            signers: key_views(self.signers@),
            limited: self.limited@.map_values(|f: LimitedFunction| (f.name@, f.amount_index)),
            limits: self.limit_map@,
        }
    }
}

/// Whether `key` is one of `keys`.
fn contains_key(keys: &Vec<PublicKey>, key: &PublicKey) -> (r: bool)
    ensures
        r == key_views(keys@).contains(key@),
{
    let mut i: usize = 0;
    while i < keys.len()
        invariant
            i <= keys@.len(),
            forall|j: int| 0 <= j < i ==> key_views(keys@)[j] != key@,
        decreases keys@.len() - i,
    {
        if key_equal(&keys[i], key) {
            assert(key_views(keys@)[i as int] == key@);
            return true;
        }
        i += 1;
    }
    false
}

/// "add_limit" in ASCII: the name of the administrative operation that sets a spend limit.
pub open spec fn add_limit_name() -> Seq<u8> {
    seq![97u8, 100, 100, 95, 108, 105, 109, 105, 116]
}

/// The context under which setting the limit of `asset` to `limit` is authorized:
/// a call of the account on itself.
pub open spec fn add_limit_context(account: Seq<u8>, asset: Seq<u8>, limit: u64) -> ContextView {
    ContextView {
        contract: account,
        fn_name: add_limit_name(),
        args: seq![ValView::Bytes(asset), ValView::U64(limit)],
    }
}

fn add_limit_name_bytes() -> (r: Vec<u8>)
    ensures
        r@ == add_limit_name(),
{
    let r = vec![97u8, 100, 100, 95, 108, 105, 109, 105, 116];
    assert(r@ =~= add_limit_name());
    r
}

impl SpendLimitPolicy {
    /// The signer set is non-empty and strictly ascending, and the limit entries
    /// hold exactly the limit map, one entry per asset.
    pub closed spec fn wf(&self) -> bool {
        &&& self.signers@.len() >= 1
        &&& strictly_ascending(key_views(self.signers@))
        &&& forall|i: int|
            0 <= i < self.limits@.len() ==> {
                &&& self.limit_map@.contains_key(#[trigger] self.limits@[i].asset@)
                &&& self.limit_map@[self.limits@[i].asset@] == self.limits@[i].limit
            }
        &&& forall|a: Seq<u8>|
            #[trigger] self.limit_map@.contains_key(a) ==> exists|i: int|
                0 <= i < self.limits@.len() && #[trigger] self.limits@[i].asset@ == a
        &&& forall|i: int, j: int|
            0 <= i < j < self.limits@.len() ==> #[trigger] self.limits@[i].asset@
                != #[trigger] self.limits@[j].asset@
    }

    /// A policy for `account` with the registered signer set `signers` and the
    /// allow-list `limited`, and no limits yet. `None` when the signer set is empty
    /// or not strictly ascending.
    pub fn new(account: ContractId, signers: Vec<PublicKey>, limited: Vec<LimitedFunction>) -> (r:
        Option<SpendLimitPolicy>)
        ensures
            match r {
                Some(p) => {
                    &&& p.wf()
                    &&& p@.account == account@
                    &&& p@.signers == key_views(signers@)
                    &&& p@.limited == limited@.map_values(
                        |f: LimitedFunction| (f.name@, f.amount_index),
                    )
                    &&& p@.limits == Map::<Seq<u8>, u64>::empty()
                },
                None => signers@.len() == 0 || !strictly_ascending(key_views(signers@)),
            },
    {
        if signers.len() == 0 {
            return None;
        }
        let n = signers.len();
        let mut i: usize = 0;
        while i < n - 1
            invariant
                n == signers@.len(),
                n >= 1,
                i <= n - 1,
                forall|j: int|
                    0 <= j < i ==> crate::keys::key_lt(
                        #[trigger] key_views(signers@)[j],
                        key_views(signers@)[j + 1],
                    ),
            decreases n - i,
        {
            if !key_less(&signers[i], &signers[i + 1]) {
                assert(!crate::keys::key_lt(key_views(signers@)[i as int], key_views(signers@)[i + 1]));
                return None;
            }
            i += 1;
        }
        Some(
            SpendLimitPolicy {
                account,
                signers,
                limited,
                limits: Vec::new(),
                limit_map: Ghost(Map::empty()),
            },
        )
    }

    /// How many registered signers are among `verified`.
    fn count_present(&self, verified: &Vec<PublicKey>) -> (r: usize)
        ensures
            r == present_count(self@.signers, key_views(verified@)),
    {
        let ghost signers = key_views(self.signers@);
        let mut count: usize = 0;
        let mut i: usize = 0;
        while i < self.signers.len()
            invariant
                i <= self.signers@.len(),
                signers == key_views(self.signers@),
                signers == self@.signers,
                count <= i,
                count == present_count(signers.subrange(0, i as int), key_views(verified@)),
            decreases self.signers@.len() - i,
        {
            assert(signers.subrange(0, i + 1).drop_last() =~= signers.subrange(0, i as int));
            if contains_key(verified, &self.signers[i]) {
                count += 1;
            }
            i += 1;
        }
        assert(signers.subrange(0, signers.len() as int) =~= signers);
        count
    }

    /// The amount position of `name` in the allow-list, if listed.
    fn amount_index_of(&self, name: &Vec<u8>) -> (r: Option<usize>)
        ensures
            r == amount_index(self@.limited, name@),
    {
        let ghost limited = self@.limited;
        let mut i: usize = 0;
        assert(limited.subrange(0, limited.len() as int) =~= limited);
        while i < self.limited.len()
            invariant
                i <= self.limited@.len(),
                limited == self@.limited,
                limited.len() == self.limited@.len(),
                amount_index(limited, name@) == amount_index(
                    limited.subrange(i as int, limited.len() as int),
                    name@,
                ),
            decreases self.limited@.len() - i,
        {
            let ghost rest = limited.subrange(i as int, limited.len() as int);
            assert(rest[0] == limited[i as int]);
            if bytes_equal(&self.limited[i].name, name) {
                return Some(self.limited[i].amount_index);
            }
            assert(rest.drop_first() =~= limited.subrange(i + 1, limited.len() as int));
            i += 1;
        }
        None
    }

    /// Where `asset` stands among the limit entries, if it has a limit.
    fn limit_position(&self, asset: &ContractId) -> (r: Option<usize>)
        requires
            self.wf(),
        ensures
            match r {
                Some(i) => i < self.limits@.len() && self.limits@[i as int].asset@ == asset@,
                None => !self@.limits.contains_key(asset@),
            },
    {
        let mut i: usize = 0;
        while i < self.limits.len()
            invariant
                self.wf(),
                i <= self.limits@.len(),
                forall|j: int| 0 <= j < i ==> #[trigger] self.limits@[j].asset@ != asset@,
            decreases self.limits@.len() - i,
        {
            if contract_id_equal(&self.limits[i].asset, asset) {
                return Some(i);
            }
            i += 1;
        }
        None
    }

    /// The per-signer limit of `asset`, if it has one.
    pub fn limit(&self, asset: &ContractId) -> (r: Option<u64>)
        requires
            self.wf(),
        ensures
            r == (if self@.limits.contains_key(asset@) {
                Some(self@.limits[asset@])
            } else {
                None
            }),
    {
        match self.limit_position(asset) {
            Some(i) => Some(self.limits[i].limit),
            None => None,
        }
    }

    /// Whether `k` signers may authorize `context` under a spend limit.
    fn context_within_limit(&self, k: usize, context: &AuthContext) -> (r: bool)
        requires
            self.wf(),
        ensures
            r == within_limit(self@, k as nat, context@),
    {
        if contract_id_equal(&context.contract, &self.account) {
            return false;
        }
        let limit = match self.limit(&context.contract) {
            Some(l) => l,
            None => {
                return false;
            },
        };
        let index = match self.amount_index_of(&context.fn_name) {
            Some(i) => i,
            None => {
                return false;
            },
        };
        if index >= context.args.len() {
            return false;
        }
        match &context.args[index] {
            Val::I128(amount) => {
                if *amount < 0 {
                    true
                } else {
                    let wide_limit: u128 = limit as u128;
                    let wide_k: u128 = k as u128;
                    assert(wide_limit * wide_k <= 0xffff_ffff_ffff_ffffu128 * 0xffff_ffff_ffff_ffffu128)
                        by (nonlinear_arith)
                        requires
                            wide_limit <= 0xffff_ffff_ffff_ffffu128,
                            wide_k <= 0xffff_ffff_ffff_ffffu128,
                    ;
                    (*amount as u128) <= wide_limit * wide_k
                }
            },
            _ => false,
        }
    }

    /// Whether the verified signers may authorize every one of `contexts`: always
    /// when all registered signers are present, otherwise only contexts within a
    /// spend limit.
    pub fn evaluate(&self, verified: &Vec<PublicKey>, contexts: &Vec<AuthContext>) -> (r: Result<
        (),
        AuthError,
    >)
        requires
            self.wf(),
        ensures
            r == spend_limit_outcome(self@, key_views(verified@), context_views(contexts@)),
    {
        let k = self.count_present(verified);
        if k == self.signers.len() {
            return Ok(());
        }
        let ghost views = context_views(contexts@);
        let mut i: usize = 0;
        while i < contexts.len()
            invariant
                self.wf(),
                i <= contexts@.len(),
                views == context_views(contexts@),
                k == present_count(self@.signers, key_views(verified@)),
                k != self@.signers.len(),
                forall|j: int| 0 <= j < i ==> within_limit(self@, k as nat, #[trigger] views[j]),
            decreases contexts@.len() - i,
        {
            if !self.context_within_limit(k, &contexts[i]) {
                assert(!within_limit(self@, k as nat, views[i as int]));
                assert(!(forall|j: int|
                    0 <= j < views.len() ==> within_limit(self@, k as nat, #[trigger] views[j])));
                return Err(AuthError::InsufficientQuorum);
            }
            i += 1;
        }
        Ok(())
    }

    /// Checks an authorization of this account: the bundle must verify against
    /// `signature_payload`, then the signers must satisfy the policy for `contexts`.
    pub fn check_auth(
        &self,
        signature_payload: &[u8; 32],
        bundle: &Vec<SignedEntry>,
        contexts: &Vec<AuthContext>,
    ) -> (r: Result<(), AuthError>)
        requires
            self.wf(),
        ensures
            r == account_outcome(self@, signature_payload@, bundle@, context_views(contexts@)),
    {
        let verified = match verify_all(signature_payload, bundle) {
            Ok(keys) => keys,
            Err(e) => {
                return Err(e);
            },
        };
        self.evaluate(&verified, contexts)
    }

    /// Sets the per-signer limit of `asset` to `limit`, replacing any earlier one.
    fn set_limit(&mut self, asset: &ContractId, limit: u64)
        requires
            old(self).wf(),
        ensures
            final(self).wf(),
            final(self)@ == (SpendLimitView {
                limits: old(self)@.limits.insert(asset@, limit),
                ..old(self)@
            }),
    {
        let ghost before = self.limit_map@;
        let ghost entries = self.limits@;
        let entry = LimitEntry { asset: *asset, limit };
        match self.limit_position(asset) {
            Some(i) => {
                self.limits.set(i, entry);
                self.limit_map = Ghost(before.insert(asset@, limit));
                assert forall|a: Seq<u8>| #[trigger]
                    self.limit_map@.contains_key(a) implies exists|j: int|
                    0 <= j < self.limits@.len() && #[trigger] self.limits@[j].asset@ == a by {
                    if a != asset@ {
                        let j = choose|j: int| 0 <= j < entries.len() && #[trigger] entries[j].asset@ == a;
                        assert(self.limits@[j].asset@ == a);
                    } else {
                        assert(self.limits@[i as int].asset@ == a);
                    }
                }
            },
            None => {
                self.limits.push(entry);
                self.limit_map = Ghost(before.insert(asset@, limit));
                assert forall|a: Seq<u8>| #[trigger]
                    self.limit_map@.contains_key(a) implies exists|j: int|
                    0 <= j < self.limits@.len() && #[trigger] self.limits@[j].asset@ == a by {
                    if a != asset@ {
                        let j = choose|j: int| 0 <= j < entries.len() && #[trigger] entries[j].asset@ == a;
                        assert(self.limits@[j] == entries[j]);
                    } else {
                        assert(self.limits@[self.limits@.len() - 1].asset@ == a);
                    }
                }
            },
        }
        assert(self@.limits =~= old(self)@.limits.insert(asset@, limit));
    }

    /// The administrative operation that sets the per-signer limit of `asset`. It is
    /// authorized as a call of the account on itself, which no spend limit covers, so
    /// it needs the whole registered signer set; only then is the limit stored.
    pub fn add_limit(
        &mut self,
        signature_payload: &[u8; 32],
        bundle: &Vec<SignedEntry>,
        asset: &ContractId,
        limit: u64,
    ) -> (r: Result<(), AuthError>)
        requires
            old(self).wf(),
        ensures
            final(self).wf(),
            r == account_outcome(
                old(self)@,
                signature_payload@,
                bundle@,
                seq![add_limit_context(old(self)@.account, asset@, limit)],
            ),
            r is Ok ==> final(self)@ == (SpendLimitView {
                limits: old(self)@.limits.insert(asset@, limit),
                ..old(self)@
            }),
            r is Err ==> final(self)@ == old(self)@,
    {
        let args = vec![Val::Bytes(bytes32_to_vec(&asset.bytes)), Val::U64(limit)];
        assert(val_views(args@) =~= seq![ValView::Bytes(asset@), ValView::U64(limit)]);
        let context = AuthContext { contract: self.account, fn_name: add_limit_name_bytes(), args };
        assert(context@ == add_limit_context(self@.account, asset@, limit));
        let contexts = vec![context];
        assert(context_views(contexts@) =~= seq![add_limit_context(self@.account, asset@, limit)]);
        let verdict = self.check_auth(signature_payload, bundle, &contexts);
        if verdict.is_ok() {
            self.set_limit(asset, limit);
        }
        verdict
    }
}

} // verus!
