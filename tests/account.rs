use ed25519_dalek::{Keypair, Signer};
use quorum_auth::{
    AuthContext, AuthError, ContractId, LimitedFunction, PublicKey, Signature, SignedEntry,
    SpendLimitPolicy, Val,
};
use rand::thread_rng;

fn generate_keypair() -> Keypair {
    Keypair::generate(&mut thread_rng())
}

fn signer_public_key(signer: &Keypair) -> PublicKey {
    PublicKey { bytes: signer.public.to_bytes() }
}

fn sign(signer: &Keypair, payload: &[u8; 32]) -> SignedEntry {
    SignedEntry {
        public_key: signer_public_key(signer),
        signature: Signature { bytes: signer.sign(payload).to_bytes() },
    }
}

fn token_auth_context(token: &ContractId, fn_name: &str, amount: i128) -> AuthContext {
    AuthContext {
        contract: *token,
        fn_name: fn_name.as_bytes().to_vec(),
        args: vec![Val::Void, Val::Void, Val::I128(amount)],
    }
}

fn limited_functions() -> Vec<LimitedFunction> {
    vec![
        LimitedFunction { name: b"transfer".to_vec(), amount_index: 2 },
        LimitedFunction { name: b"increase_allowance".to_vec(), amount_index: 2 },
    ]
}

fn sorted_signers() -> [Keypair; 2] {
    let mut signers = [generate_keypair(), generate_keypair()];
    if signers[0].public.as_bytes() > signers[1].public.as_bytes() {
        signers.swap(0, 1);
    }
    signers
}

fn create_account(signers: &[Keypair; 2]) -> (ContractId, SpendLimitPolicy) {
    let account = ContractId { bytes: rand::random::<[u8; 32]>() };
    let policy = SpendLimitPolicy::new(
        account,
        vec![signer_public_key(&signers[0]), signer_public_key(&signers[1])],
        limited_functions(),
    )
    .unwrap();
    (account, policy)
}

#[test]
fn test_token_auth() {
    let signers = sorted_signers();
    let (_, mut account) = create_account(&signers);
    let payload: [u8; 32] = rand::random();
    let token = ContractId { bytes: rand::random::<[u8; 32]>() };

    // Without a limit for the token, one signer cannot move it at all.
    assert_eq!(
        account.check_auth(
            &payload,
            &vec![sign(&signers[0], &payload)],
            &vec![token_auth_context(&token, "transfer", 1000)],
        ),
        Err(AuthError::InsufficientQuorum)
    );

    // Adding a limit needs both signers.
    assert_eq!(
        account.add_limit(&payload, &vec![sign(&signers[0], &payload)], &token, 1000),
        Err(AuthError::InsufficientQuorum)
    );
    assert_eq!(account.limit(&token), None);
    account
        .add_limit(
            &payload,
            &vec![sign(&signers[0], &payload), sign(&signers[1], &payload)],
            &token,
            1000,
        )
        .unwrap();
    assert_eq!(account.limit(&token), Some(1000));

    // 1 signer can transfer 1000 units, but not more.
    account
        .check_auth(
            &payload,
            &vec![sign(&signers[0], &payload)],
            &vec![token_auth_context(&token, "transfer", 1000)],
        )
        .unwrap();
    assert_eq!(
        account.check_auth(
            &payload,
            &vec![sign(&signers[0], &payload)],
            &vec![token_auth_context(&token, "transfer", 1001)],
        ),
        Err(AuthError::InsufficientQuorum)
    );
    assert_eq!(
        account.check_auth(
            &payload,
            &vec![sign(&signers[0], &payload)],
            &vec![token_auth_context(&token, "increase_allowance", 1001)],
        ),
        Err(AuthError::InsufficientQuorum)
    );

    // 1 signer can still approve 1000 units.
    account
        .check_auth(
            &payload,
            &vec![sign(&signers[0], &payload)],
            &vec![token_auth_context(&token, "increase_allowance", 1000)],
        )
        .unwrap();
    // 2 signers can transfer any amount of token.
    account
        .check_auth(
            &payload,
            &vec![sign(&signers[0], &payload), sign(&signers[1], &payload)],
            &vec![token_auth_context(&token, "transfer", 10000)],
        )
        .unwrap();
}

#[test]
fn spend_limit_scenario_single_and_full_signers() {
    let signers = sorted_signers();
    let (_, mut account) = create_account(&signers);
    let payload: [u8; 32] = rand::random();
    let token = ContractId { bytes: [7; 32] };
    let both = vec![sign(&signers[0], &payload), sign(&signers[1], &payload)];
    account.add_limit(&payload, &both, &token, 1000).unwrap();

    let only_a = vec![sign(&signers[0], &payload)];
    let only_b = vec![sign(&signers[1], &payload)];
    assert_eq!(account.check_auth(&payload, &only_a, &vec![token_auth_context(&token, "transfer", 1000)]), Ok(()));
    assert_eq!(account.check_auth(&payload, &only_b, &vec![token_auth_context(&token, "transfer", 1000)]), Ok(()));
    assert_eq!(
        account.check_auth(&payload, &only_a, &vec![token_auth_context(&token, "transfer", 1001)]),
        Err(AuthError::InsufficientQuorum)
    );
    assert_eq!(account.check_auth(&payload, &both, &vec![token_auth_context(&token, "transfer", 10000)]), Ok(()));
}

#[test]
fn admin_operation_needs_every_signer_after_limit_set() {
    let signers = sorted_signers();
    let (account_id, mut account) = create_account(&signers);
    let payload: [u8; 32] = rand::random();
    let token = ContractId { bytes: [9; 32] };
    let both = vec![sign(&signers[0], &payload), sign(&signers[1], &payload)];
    account.add_limit(&payload, &both, &token, 1000).unwrap();

    let only_a = vec![sign(&signers[0], &payload)];
    assert_eq!(account.add_limit(&payload, &only_a, &token, 5000), Err(AuthError::InsufficientQuorum));
    assert_eq!(account.limit(&token), Some(1000));

    // Even a limit set on the account's own identifier does not make a call on the
    // account itself limit-eligible.
    account.add_limit(&payload, &both, &account_id, 1_000_000).unwrap();
    assert_eq!(
        account.check_auth(&payload, &only_a, &vec![token_auth_context(&account_id, "transfer", 1)]),
        Err(AuthError::InsufficientQuorum)
    );

    account.add_limit(&payload, &both, &token, 2000).unwrap();
    assert_eq!(account.limit(&token), Some(2000));
}

#[test]
fn every_context_must_pass() {
    let signers = sorted_signers();
    let (_, mut account) = create_account(&signers);
    let payload: [u8; 32] = rand::random();
    let token = ContractId { bytes: [3; 32] };
    let other = ContractId { bytes: [4; 32] };
    let both = vec![sign(&signers[0], &payload), sign(&signers[1], &payload)];
    account.add_limit(&payload, &both, &token, 100).unwrap();
    let only_a = vec![sign(&signers[0], &payload)];

    let contexts = vec![
        token_auth_context(&token, "transfer", 50),
        token_auth_context(&other, "transfer", 1),
    ];
    assert_eq!(account.check_auth(&payload, &only_a, &contexts), Err(AuthError::InsufficientQuorum));
    let contexts = vec![
        token_auth_context(&token, "transfer", 50),
        token_auth_context(&token, "increase_allowance", 100),
    ];
    assert_eq!(account.check_auth(&payload, &only_a, &contexts), Ok(()));
    // A function outside the allow-list needs every signer.
    assert_eq!(
        account.check_auth(&payload, &only_a, &vec![token_auth_context(&token, "burn", 1)]),
        Err(AuthError::InsufficientQuorum)
    );
    // An amount that is not an i128 at the configured position is not limit-eligible.
    let odd = AuthContext { contract: token, fn_name: b"transfer".to_vec(), args: vec![Val::Void] };
    assert_eq!(account.check_auth(&payload, &only_a, &vec![odd]), Err(AuthError::InsufficientQuorum));
}

#[test]
fn signature_errors_come_before_the_policy() {
    let signers = sorted_signers();
    let (_, account) = create_account(&signers);
    let payload: [u8; 32] = rand::random();
    let token = ContractId { bytes: [5; 32] };
    let mut forged = sign(&signers[0], &payload);
    forged.signature.bytes[0] ^= 1;
    assert_eq!(
        account.check_auth(&payload, &vec![forged], &vec![token_auth_context(&token, "transfer", 1)]),
        Err(AuthError::BadSignature)
    );
    let reversed = vec![sign(&signers[1], &payload), sign(&signers[0], &payload)];
    assert_eq!(
        account.check_auth(&payload, &reversed, &vec![token_auth_context(&token, "transfer", 1)]),
        Err(AuthError::OutOfOrderOrDuplicate)
    );
}

#[test]
fn unregistered_signers_do_not_count() {
    let signers = sorted_signers();
    let (_, account) = create_account(&signers);
    let payload: [u8; 32] = rand::random();
    let stranger = generate_keypair();
    let mut bundle = vec![sign(&signers[0], &payload), sign(&stranger, &payload)];
    bundle.sort_by(|a, b| a.public_key.bytes.cmp(&b.public_key.bytes));
    let token = ContractId { bytes: [6; 32] };
    assert_eq!(
        account.check_auth(&payload, &bundle, &vec![token_auth_context(&token, "transfer", 1)]),
        Err(AuthError::InsufficientQuorum)
    );
}

#[test]
fn signer_set_must_be_ascending_and_non_empty() {
    let signers = sorted_signers();
    let account = ContractId { bytes: [1; 32] };
    let a = signer_public_key(&signers[0]);
    let b = signer_public_key(&signers[1]);
    assert!(SpendLimitPolicy::new(account, vec![], limited_functions()).is_none());
    assert!(SpendLimitPolicy::new(account, vec![b, a], limited_functions()).is_none());
    assert!(SpendLimitPolicy::new(account, vec![a, a], limited_functions()).is_none());
    assert!(SpendLimitPolicy::new(account, vec![a, b], limited_functions()).is_some());
}
