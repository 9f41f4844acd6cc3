use quorum_auth::{encode_payload, signature_payload, ContractId, SignablePayload, Val};
use sha2::{Digest, Sha256};

fn sample() -> SignablePayload {
    SignablePayload {
        function: b"ab".to_vec(),
        contract: ContractId { bytes: [7; 32] },
        network: vec![9],
        args: vec![Val::Void, Val::U64(258), Val::I128(-1), Val::Bytes(vec![5, 6])],
        nonce: 3,
    }
}

#[test]
fn payload_encoding_is_exact() {
    let mut expected: Vec<u8> = vec![2, 0, 0, 0, 0, 0, 0, 0, b'a', b'b'];
    expected.extend_from_slice(&[7; 32]);
    expected.extend_from_slice(&[1, 0, 0, 0, 0, 0, 0, 0, 9]);
    expected.extend_from_slice(&[3, 0, 0, 0, 0, 0, 0, 0]);
    expected.extend_from_slice(&[4, 0, 0, 0, 0, 0, 0, 0]);
    expected.push(0);
    expected.extend_from_slice(&[1, 2, 1, 0, 0, 0, 0, 0, 0]);
    expected.push(2);
    expected.extend_from_slice(&[0xff; 16]);
    expected.extend_from_slice(&[3, 2, 0, 0, 0, 0, 0, 0, 0, 5, 6]);
    assert_eq!(encode_payload(&sample()), expected);
}

#[test]
fn signature_payload_is_the_sha256_of_the_encoding() {
    let p = sample();
    let bytes = encode_payload(&p);
    let digest: [u8; 32] = Sha256::digest(&bytes).into();
    assert_eq!(signature_payload(&p), digest);
    assert_ne!(signature_payload(&p).to_vec(), bytes[..32].to_vec());
}

#[test]
fn payload_digest_depends_on_every_field() {
    let base = signature_payload(&sample());
    let mut p = sample();
    p.nonce = 4;
    assert_ne!(signature_payload(&p), base);
    let mut p = sample();
    p.network = vec![8];
    assert_ne!(signature_payload(&p), base);
    let mut p = sample();
    p.args.pop();
    assert_ne!(signature_payload(&p), base);
    let mut p = sample();
    p.contract = ContractId { bytes: [6; 32] };
    assert_ne!(signature_payload(&p), base);
}

#[test]
fn i128_arguments_use_twos_complement() {
    let mut p = sample();
    p.args = vec![Val::I128(i128::MIN), Val::I128(i128::MAX), Val::I128(1)];
    let bytes = encode_payload(&p);
    let tail = &bytes[bytes.len() - 51..];
    let mut expected: Vec<u8> = vec![2];
    expected.extend_from_slice(&[0; 15]);
    expected.push(0x80);
    expected.push(2);
    expected.extend_from_slice(&[0xff; 15]);
    expected.push(0x7f);
    expected.push(2);
    expected.push(1);
    expected.extend_from_slice(&[0; 15]);
    assert_eq!(tail.to_vec(), expected);
}
