use ed25519_dalek::{Keypair, SecretKey, Signer};
use quorum_auth::{
    signature_payload, AuthError, Authorization, ClaimError, ClaimableBalanceContract, ContractId,
    Identifier, PublicKey, SignablePayload, Signature, SignedEntry, TimeBound, TimeBoundKind,
};

const LEDGER_TIME: u64 = 12345;

fn keypair(seed: u8) -> Keypair {
    let secret = SecretKey::from_bytes(&[seed; 32]).unwrap();
    let public = ed25519_dalek::PublicKey::from(&secret);
    Keypair { secret, public }
}

fn identifier(k: &Keypair) -> Identifier {
    Identifier::Ed25519(PublicKey { bytes: k.public.to_bytes() })
}

fn authorize(k: &Keypair, payload: &SignablePayload) -> Authorization {
    Authorization::Ed25519(SignedEntry {
        public_key: PublicKey { bytes: k.public.to_bytes() },
        signature: Signature { bytes: k.sign(&signature_payload(payload)).to_bytes() },
    })
}

struct ClaimableBalanceTest {
    deposit_address: Keypair,
    claim_addresses: [Keypair; 3],
    token: ContractId,
    contract: ClaimableBalanceContract,
}

impl ClaimableBalanceTest {
    fn setup() -> Self {
        ClaimableBalanceTest {
            deposit_address: keypair(1),
            claim_addresses: [keypair(2), keypair(3), keypair(4)],
            token: ContractId { bytes: [0xaa; 32] },
            contract: ClaimableBalanceContract::new(ContractId { bytes: [0xcc; 32] }, b"test network".to_vec()),
        }
    }

    fn deposit(&mut self, amount: i128, claimants: &[usize], time_bound: TimeBound) -> Result<(), ClaimError> {
        let claimants: Vec<Identifier> = claimants.iter().map(|i| identifier(&self.claim_addresses[*i])).collect();
        let from = identifier(&self.deposit_address);
        let payload = self.contract.deposit_payload(&from, &self.token, amount, &claimants, &time_bound);
        let auth = authorize(&self.deposit_address, &payload);
        self.contract.deposit(&auth, self.token, amount, claimants, time_bound)
    }

    fn claim(&mut self, claimant: usize, now: u64) -> Result<(ContractId, i128), ClaimError> {
        let id = identifier(&self.claim_addresses[claimant]);
        let payload = self.contract.claim_payload(&id);
        let auth = authorize(&self.claim_addresses[claimant], &payload);
        self.contract.claim(&auth, now)
    }
}

#[test]
fn test_deposit_and_claim() {
    let mut test = ClaimableBalanceTest::setup();
    let mut depositor_balance: i128 = 1000;
    let mut contract_balance: i128 = 0;
    let mut claimant_balance: i128 = 0;
    test.deposit(800, &[0, 1], TimeBound { kind: TimeBoundKind::Before, timestamp: 12346 }).unwrap();
    depositor_balance -= 800;
    contract_balance += 800;
    let held = test.contract.balance().unwrap();
    assert_eq!(held.amount, 800);
    assert_eq!(held.token, test.token);
    assert_eq!(held.claimants, vec![identifier(&test.claim_addresses[0]), identifier(&test.claim_addresses[1])]);
    assert_eq!(depositor_balance, 200);
    assert_eq!(contract_balance, 800);
    assert_eq!(claimant_balance, 0);

    let (token, amount) = test.claim(1, LEDGER_TIME).unwrap();
    assert_eq!(token, test.token);
    contract_balance -= amount;
    claimant_balance += amount;
    assert_eq!(depositor_balance, 200);
    assert_eq!(contract_balance, 0);
    assert_eq!(claimant_balance, 800);
    assert!(test.contract.balance().is_none());
}

#[test]
fn test_double_deposit_not_possible() {
    let mut test = ClaimableBalanceTest::setup();
    let bound = TimeBound { kind: TimeBoundKind::Before, timestamp: 12346 };
    test.deposit(1, &[0], bound).unwrap();
    assert_eq!(test.deposit(1, &[0], bound), Err(ClaimError::AlreadyInitialized));
}

#[test]
fn test_unauthorized_claim_not_possible() {
    let mut test = ClaimableBalanceTest::setup();
    test.deposit(800, &[0, 1], TimeBound { kind: TimeBoundKind::Before, timestamp: 12346 }).unwrap();
    assert_eq!(test.claim(2, LEDGER_TIME), Err(ClaimError::NotAClaimant));
}

#[test]
fn test_out_of_time_bound_claim_not_possible() {
    let mut test = ClaimableBalanceTest::setup();
    test.deposit(800, &[0], TimeBound { kind: TimeBoundKind::After, timestamp: 12346 }).unwrap();
    assert_eq!(test.claim(0, LEDGER_TIME), Err(ClaimError::TimeBoundNotMet));
}

#[test]
fn test_double_claim_not_possible() {
    let mut test = ClaimableBalanceTest::setup();
    test.deposit(800, &[0], TimeBound { kind: TimeBoundKind::Before, timestamp: 12346 }).unwrap();
    assert_eq!(test.claim(0, LEDGER_TIME), Ok((test.token, 800)));
    assert_eq!(test.claim(0, LEDGER_TIME), Err(ClaimError::NoBalance));
}

#[test]
fn test_deposit_after_claim_not_possible() {
    let mut test = ClaimableBalanceTest::setup();
    let bound = TimeBound { kind: TimeBoundKind::After, timestamp: 12344 };
    test.deposit(800, &[0], bound).unwrap();
    assert_eq!(test.claim(0, LEDGER_TIME), Ok((test.token, 800)));
    assert_eq!(test.deposit(200, &[0], bound), Err(ClaimError::AlreadyInitialized));
}

#[test]
fn too_many_claimants_rejected() {
    let mut test = ClaimableBalanceTest::setup();
    let claimants: Vec<Identifier> = (0..11u8).map(|i| Identifier::Ed25519(PublicKey { bytes: [i; 32] })).collect();
    let from = identifier(&test.deposit_address);
    let bound = TimeBound { kind: TimeBoundKind::Before, timestamp: 1 };
    let payload = test.contract.deposit_payload(&from, &test.token, 5, &claimants, &bound);
    let auth = authorize(&test.deposit_address, &payload);
    assert_eq!(test.contract.deposit(&auth, test.token, 5, claimants, bound), Err(ClaimError::TooManyClaimants));
}

#[test]
fn deposit_signature_must_cover_the_arguments() {
    let mut test = ClaimableBalanceTest::setup();
    let from = identifier(&test.deposit_address);
    let claimants = vec![identifier(&test.claim_addresses[0])];
    let bound = TimeBound { kind: TimeBoundKind::Before, timestamp: 12346 };
    let payload = test.contract.deposit_payload(&from, &test.token, 800, &claimants, &bound);
    let auth = authorize(&test.deposit_address, &payload);
    assert_eq!(
        test.contract.deposit(&auth, test.token, 900, claimants, bound),
        Err(ClaimError::Auth(AuthError::BadSignature))
    );
    assert!(test.contract.balance().is_none());
}

#[test]
fn time_bounds_are_inclusive() {
    let before = TimeBound { kind: TimeBoundKind::Before, timestamp: 100 };
    let after = TimeBound { kind: TimeBoundKind::After, timestamp: 100 };
    assert!(before.is_met(100));
    assert!(before.is_met(99));
    assert!(!before.is_met(101));
    assert!(after.is_met(100));
    assert!(after.is_met(101));
    assert!(!after.is_met(99));
}

#[test]
fn no_balance_to_claim_before_deposit() {
    let mut test = ClaimableBalanceTest::setup();
    assert_eq!(test.claim(0, LEDGER_TIME), Err(ClaimError::NoBalance));
}
