use quorum_auth::{AuthError, ContractId, Identifier, NonceStore, PublicKey};

#[test]
fn nonce_starts_at_zero_and_advances() {
    let mut store = NonceStore::new();
    let id = Identifier::Ed25519(PublicKey { bytes: [1; 32] });
    assert_eq!(store.read(&id), 0);
    assert_eq!(store.consume(&id, 0), Ok(()));
    assert_eq!(store.read(&id), 1);
    assert_eq!(store.consume(&id, 1), Ok(()));
    assert_eq!(store.read(&id), 2);
}

#[test]
fn consuming_a_nonce_twice_fails() {
    let mut store = NonceStore::new();
    let id = Identifier::Account(PublicKey { bytes: [2; 32] });
    assert_eq!(store.consume(&id, 0), Ok(()));
    assert_eq!(store.consume(&id, 0), Err(AuthError::StaleNonce));
    assert_eq!(store.read(&id), 1);
}

#[test]
fn future_nonce_is_stale_and_changes_nothing() {
    let mut store = NonceStore::new();
    let id = Identifier::Ed25519(PublicKey { bytes: [3; 32] });
    assert_eq!(store.consume(&id, 5), Err(AuthError::StaleNonce));
    assert_eq!(store.read(&id), 0);
    assert_eq!(store.check(&id, 0), Ok(()));
    assert_eq!(store.read(&id), 0);
}

#[test]
fn identities_have_separate_counters() {
    let mut store = NonceStore::new();
    let key = PublicKey { bytes: [4; 32] };
    let a = Identifier::Ed25519(key);
    let b = Identifier::Account(key);
    assert_eq!(store.consume(&a, 0), Ok(()));
    assert_eq!(store.read(&b), 0);
    assert_eq!(store.consume(&b, 0), Ok(()));
    assert_eq!(store.consume(&a, 1), Ok(()));
    assert_eq!(store.read(&a), 2);
    assert_eq!(store.read(&b), 1);
}

#[test]
fn invoking_contract_presents_zero() {
    let mut store = NonceStore::new();
    let id = Identifier::Contract(ContractId { bytes: [5; 32] });
    assert_eq!(store.consume(&id, 0), Ok(()));
    assert_eq!(store.consume(&id, 0), Ok(()));
    assert_eq!(store.consume(&id, 1), Err(AuthError::StaleNonce));
    assert_eq!(store.read(&id), 0);
}
