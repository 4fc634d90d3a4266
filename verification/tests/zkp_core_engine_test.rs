use zkp_verifier::zkp_core_engine::{Proof, UserPublicKey, UserSecretKey, ZkpEngine, ZkpError};

#[test]
fn test_proof_verification_success() {
    let alice_sk = UserSecretKey::generate();
    let alice_pk = alice_sk.publicKey();

    let proof = ZkpEngine::generate_proof(&alice_sk, &alice_pk).expect("proof generation");
    let result = ZkpEngine::verify(&alice_pk, &proof).unwrap();

    assert!(result, "Valid proof should be verified.");
}

#[test]
fn test_proof_verification_failure() {
    let alice_sk = UserSecretKey::generate();
    let alice_pk = alice_sk.publicKey();

    let mut proof = ZkpEngine::generate_proof(&alice_sk, &alice_pk).expect("proof generation");

    if let Some(last) = proof.s_scalar.last_mut() {
        *last = last.wrapping_add(1);
    }

    let result = ZkpEngine::verify(&alice_pk, &proof).unwrap();
    assert!(!result, "Altered proof should fail verification.");
}

#[test]
fn test_proof_wire_transfer_traits() {
    let alice_sk = UserSecretKey::generate();
    let alice_pk = alice_sk.public_key();
    let original_proof = ZkpEngine::generate_proof(&alice_sk, &alice_pk).expect("proof generation");

    let wire_bytes: Vec<u8> = Vec::from(&original_proof);
    assert!(!wire_bytes.is_empty());

    let recovered_proof = Proof::try_from(wire_bytes.as_slice()).expect("Deserialization should succeed");
    assert_eq!(original_proof, recovered_proof);

    let valid = ZkpEngine::verify(&alice_pk, &recovered_proof).unwrap();
    assert!(valid);

    let corrupted_bytes = vec![0u8; 10];
    let err_result = Proof::try_from(corrupted_bytes.as_slice());
    assert!(err_result.is_err());
}

#[test]
fn test_public_key_serialization_roundtrip() {
    let sk = UserSecretKey::generate();
    let pk = sk.public_key();

    let bytes = pk.to_bytes();
    assert_eq!(bytes.len(), 33);

    let recovered_pk = UserPublicKey::from_bytes(&bytes).expect("Should recover public key");
    assert_eq!(pk, recovered_pk);
}

#[test]
fn test_secret_key_zeroization() {
    let mut sk = UserSecretKey::generate();
    assert_ne!(sk.to_bytes(), vec![0u8; 32]);
    sk.zeroize();
    assert_eq!(sk.to_bytes(), vec![0u8; 32]);
}

#[test]
fn test_replay_timestamp_tampering_fails() {
    let sk = UserSecretKey::generate();
    let pk = sk.public_key();

    let mut proof = ZkpEngine::generate_proof(&sk, &pk).expect("proof generation");
    proof.timestamp += 100;

    let result = ZkpEngine::verify(&pk, &proof).unwrap();
    assert!(!result, "Altering timestamp in proof must cause verification failure");
}

#[test]
fn test_replay_nonce_tampering_fails() {
    let sk = UserSecretKey::generate();
    let pk = sk.public_key();

    let mut proof = ZkpEngine::generate_proof(&sk, &pk).expect("proof generation");
    proof.nonce[0] = proof.nonce[0].wrapping_add(1);

    let result = ZkpEngine::verify(&pk, &proof).unwrap();
    assert!(!result, "Altering nonce in proof must cause verification failure");
}

fn hex(s: &str) -> Vec<u8> {
    (0..s.len()).step_by(2).map(|i| u8::from_str_radix(&s[i..i + 2], 16).unwrap()).collect()
}

fn serialization_message(e: ZkpError) -> String {
    match e {
        ZkpError::SerializationError(m) => m,
        other => panic!("unexpected error {:?}", other),
    }
}

#[test]
fn test_public_key_of_one_is_generator() {
    let mut one = vec![0u8; 32];
    one[31] = 1;
    let sk = UserSecretKey::from_bytes(&one).expect("1 is a scalar");
    assert_eq!(
        sk.public_key().to_bytes(),
        hex("0279be667ef9dcbbac55a06295ce870b07029bfcdb2dce28d959f2815b16f81798")
    );
    let mut two = vec![0u8; 32];
    two[31] = 2;
    let sk2 = UserSecretKey::from_bytes(&two).unwrap();
    assert_eq!(
        sk2.public_key().to_bytes(),
        hex("02c6047f9441ed7d6d3045406e95c07cd85c778e4b8cef3ca7abac09b95c709ee5")
    );
}

#[test]
fn test_secret_key_from_bytes_errors() {
    let e = UserSecretKey::from_bytes(&[1u8; 31]).err().unwrap();
    assert_eq!(serialization_message(e), "Secret key must be exactly 32 bytes");
    let order = hex("fffffffffffffffffffffffffffffffebaaedce6af48a03bbfd25e8cd0364141");
    let e = UserSecretKey::from_bytes(&order).err().unwrap();
    assert_eq!(serialization_message(e), "Invalid scalar bytes for Secp256k1");
    let mut below = order.clone();
    below[31] = 0x40;
    let sk = UserSecretKey::from_bytes(&below).expect("n - 1 is a scalar");
    assert_eq!(sk.to_bytes(), below);
}

#[test]
fn test_public_key_from_bytes_errors() {
    let e = UserPublicKey::from_bytes(&[2u8; 10]).err().unwrap();
    assert_eq!(
        serialization_message(e),
        "Invalid public key bytes: elliptic curve point encoding error"
    );
    // x = 5 is not the x coordinate of a secp256k1 point
    let mut off_curve = vec![0u8; 33];
    off_curve[0] = 2;
    off_curve[32] = 5;
    let e = UserPublicKey::from_bytes(&off_curve).err().unwrap();
    assert_eq!(serialization_message(e), "Point not on Secp256k1 curve");
    let e = UserPublicKey::from_bytes(&[0u8; 33]).err().unwrap();
    assert_eq!(
        serialization_message(e),
        "Invalid public key bytes: elliptic curve point encoding error"
    );
}

#[test]
fn test_verify_rejects_malformed_encodings() {
    let sk = UserSecretKey::generate();
    let pk = sk.public_key();
    let proof = ZkpEngine::generate_proof(&sk, &pk).unwrap();

    let mut bad_r = proof.clone();
    bad_r.r_point.truncate(20);
    let e = ZkpEngine::verify(&pk, &bad_r).err().unwrap();
    assert_eq!(serialization_message(e), "Invalid R point length/format");

    let mut bad_s = proof.clone();
    bad_s.s_scalar = vec![0xff; 32];
    let e = ZkpEngine::verify(&pk, &bad_s).err().unwrap();
    assert_eq!(serialization_message(e), "Invalid point encoding");

    let mut short_s = proof.clone();
    short_s.s_scalar.truncate(31);
    assert!(ZkpEngine::try_verify(&pk, &short_s).is_none());

    let other = UserSecretKey::generate().public_key();
    assert_eq!(ZkpEngine::verify(&other, &proof).unwrap(), false);
}

#[test]
fn test_generate_proof_with_time_keeps_timestamp() {
    let sk = UserSecretKey::generate();
    let pk = sk.public_key();
    let proof = ZkpEngine::generate_proof_with_time(&sk, &pk, 1_700_000_000).unwrap();
    assert_eq!(proof.timestamp, 1_700_000_000);
    assert_eq!(proof.r_point.len(), 33);
    assert_eq!(proof.s_scalar.len(), 32);
    assert!(ZkpEngine::verify(&pk, &proof).unwrap());
    assert_eq!(ZkpEngine::is_fresh_at(&proof, 60, 1_700_000_030), true);
    assert_eq!(ZkpEngine::is_fresh_at(&proof, 60, 1_700_000_061), false);
    assert_eq!(ZkpEngine::is_fresh_at(&proof, 60, 1_699_999_939), false);
    assert_eq!(ZkpEngine::is_fresh(&proof, 60), Some(false));
    let fresh = ZkpEngine::generate_proof(&sk, &pk).unwrap();
    assert_eq!(ZkpEngine::is_fresh(&fresh, 60), Some(true));
    let mut ancient = fresh.clone();
    ancient.timestamp = i64::MIN;
    assert_eq!(ZkpEngine::is_fresh(&ancient, 60), None);
}

#[test]
fn test_proof_wire_layout() {
    let proof = Proof { r_point: vec![1, 2], s_scalar: vec![3], timestamp: -2, nonce: [7u8; 16] };
    let bytes = proof.to_wire_bytes();
    let mut expected = vec![2, 0, 0, 0, 0, 0, 0, 0, 1, 2, 1, 0, 0, 0, 0, 0, 0, 0, 3];
    expected.extend_from_slice(&[0xfe, 0xff, 0xff, 0xff, 0xff, 0xff, 0xff, 0xff]);
    expected.extend_from_slice(&[7u8; 16]);
    assert_eq!(bytes, expected);
    let mut with_tail = bytes.clone();
    with_tail.push(9);
    assert_eq!(Proof::from_wire_bytes(&with_tail).unwrap(), proof);
    let e = Proof::from_wire_bytes(&bytes[..bytes.len() - 1]).err().unwrap();
    assert!(serialization_message(e).starts_with("Failed to deserialize Proof: "));
}

#[test]
fn test_error_messages() {
    assert_eq!(ZkpError::MathError.message(), "Mathematical inconsistency during proof generation.");
    assert_eq!(ZkpError::InvalidProof.message(), "Verification failed: Invalid proof.");
    assert_eq!(
        ZkpError::SerializationError("x".to_string()).message(),
        "Serialization failed: x"
    );
    let io = ZkpError::IoError(std::io::Error::new(std::io::ErrorKind::Other, "boom"));
    assert_eq!(io.message(), "Network/IO error: boom");
}

#[test]
fn test_proof_from_given_scalar_and_nonce() {
    let sk = UserSecretKey::generate();
    let pk = sk.public_key();
    let mut k = vec![0u8; 32];
    k[31] = 1;
    let nonce = [9u8; 16];
    let p1 = ZkpEngine::proof_from(&sk, &pk, 1_700_000_000, &k, nonce).expect("challenge is a scalar");
    let p2 = ZkpEngine::proof_from(&sk, &pk, 1_700_000_000, &k, nonce).unwrap();
    assert_eq!(p1, p2);
    assert_eq!(p1.r_point, hex("0279be667ef9dcbbac55a06295ce870b07029bfcdb2dce28d959f2815b16f81798"));
    assert_eq!(p1.timestamp, 1_700_000_000);
    assert_eq!(p1.nonce, nonce);
    assert!(ZkpEngine::verify(&pk, &p1).unwrap());

    // The same commitment with another response is refused.
    let mut k2 = vec![0u8; 32];
    k2[31] = 2;
    let other = ZkpEngine::proof_from(&sk, &pk, 1_700_000_000, &k2, nonce).unwrap();
    assert_eq!(other.r_point, hex("02c6047f9441ed7d6d3045406e95c07cd85c778e4b8cef3ca7abac09b95c709ee5"));
    let mut swapped = p1.clone();
    swapped.s_scalar = other.s_scalar.clone();
    assert_eq!(ZkpEngine::verify(&pk, &swapped).unwrap(), false);
}

#[test]
fn test_secret_key_clone_keeps_value() {
    let sk = UserSecretKey::generate();
    let copy = sk.clone();
    assert_eq!(sk.to_bytes(), copy.to_bytes());
}

#[test]
fn test_compute_challenge_is_deterministic() {
    let g = hex("0279be667ef9dcbbac55a06295ce870b07029bfcdb2dce28d959f2815b16f81798");
    let a = ZkpEngine::compute_challenge(&g, &g, 5, &[1u8; 16]);
    let b = ZkpEngine::compute_challenge(&g, &g, 5, &[1u8; 16]);
    assert_eq!(a, b);
    let c = ZkpEngine::compute_challenge(&g, &g, 6, &[1u8; 16]);
    assert_ne!(a, c);
    assert_eq!(a.unwrap().len(), 32);
}
