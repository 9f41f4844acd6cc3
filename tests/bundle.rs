use ed25519_dalek::{Keypair, SecretKey, Signer};
use quorum_auth::{verify_all, AuthError, PublicKey, Signature, SignedEntry};

fn keypair(seed: u8) -> Keypair {
    let secret = SecretKey::from_bytes(&[seed; 32]).unwrap();
    let public = ed25519_dalek::PublicKey::from(&secret);
    Keypair { secret, public }
}

fn sign(signer: &Keypair, message: &[u8]) -> SignedEntry {
    SignedEntry {
        public_key: PublicKey { bytes: signer.public.to_bytes() },
        signature: Signature { bytes: signer.sign(message).to_bytes() },
    }
}

fn ascending_keypairs(n: u8) -> Vec<Keypair> {
    let mut keys: Vec<Keypair> = (1..=n).map(keypair).collect();
    keys.sort_by(|a, b| a.public.as_bytes().cmp(b.public.as_bytes()));
    keys
}

#[test]
fn full_ascending_bundle_is_accepted() {
    let message = b"payload".to_vec();
    for n in 1..=5u8 {
        let signers = ascending_keypairs(n);
        let bundle: Vec<SignedEntry> = signers.iter().map(|k| sign(k, &message)).collect();
        let verified = verify_all(&message, &bundle).unwrap();
        let expected: Vec<PublicKey> = bundle.iter().map(|e| e.public_key).collect();
        assert_eq!(verified, expected);
    }
}

#[test]
fn duplicate_signer_is_rejected() {
    let message = b"payload".to_vec();
    let signers = ascending_keypairs(2);
    let bundle = vec![sign(&signers[0], &message), sign(&signers[0], &message)];
    assert_eq!(verify_all(&message, &bundle), Err(AuthError::OutOfOrderOrDuplicate));
    let bundle = vec![
        sign(&signers[0], &message),
        sign(&signers[1], &message),
        sign(&signers[0], &message),
    ];
    assert_eq!(verify_all(&message, &bundle), Err(AuthError::OutOfOrderOrDuplicate));
}

#[test]
fn descending_bundle_is_rejected() {
    let message = b"payload".to_vec();
    let signers = ascending_keypairs(3);
    let bundle = vec![
        sign(&signers[0], &message),
        sign(&signers[2], &message),
        sign(&signers[1], &message),
    ];
    assert_eq!(verify_all(&message, &bundle), Err(AuthError::OutOfOrderOrDuplicate));
}

#[test]
fn ordering_is_checked_before_signatures() {
    let message = b"payload".to_vec();
    let signers = ascending_keypairs(2);
    let mut bad = sign(&signers[1], &message);
    bad.signature.bytes[10] ^= 0x40;
    let bundle = vec![bad, sign(&signers[0], &message)];
    assert_eq!(verify_all(&message, &bundle), Err(AuthError::OutOfOrderOrDuplicate));
}

#[test]
fn wrong_message_is_a_bad_signature() {
    let signers = ascending_keypairs(2);
    let bundle = vec![sign(&signers[0], b"one"), sign(&signers[1], b"two")];
    assert_eq!(verify_all(b"one", &bundle), Err(AuthError::BadSignature));
    assert_eq!(verify_all(b"two", &bundle), Err(AuthError::BadSignature));
}

#[test]
fn malformed_key_is_a_bad_signature() {
    let message = b"payload".to_vec();
    let signer = keypair(1);
    let mut entry = sign(&signer, &message);
    entry.public_key = PublicKey { bytes: [0xff; 32] };
    assert_eq!(verify_all(&message, &vec![entry]), Err(AuthError::BadSignature));
}

#[test]
fn empty_bundle_has_no_signers() {
    assert_eq!(verify_all(b"payload", &vec![]), Ok(vec![]));
}
