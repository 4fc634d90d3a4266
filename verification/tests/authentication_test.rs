use zkp_verifier::authentication::{
    answer_queued_request_at, answer_request_at, build_auth_request, build_queued_request, decide,
    malformed_packet_response, tamper_proof, Decision, RegistryLookup,
};
use zkp_verifier::replay::ReplayProtector;
use zkp_verifier::zkp_core_engine::{UserSecretKey, ZkpEngine};

fn now() -> i64 {
    chrono::Utc::now().timestamp()
}

#[test]
fn test_happy_path_verification() {
    let sk = UserSecretKey::generate();
    let pk = sk.public_key();
    let mut protector = ReplayProtector::default();
    let request = build_auth_request("alice_fintech", &sk, false).unwrap();
    let response =
        answer_request_at(&RegistryLookup::Registered(pk), &request, &mut protector, now()).unwrap();
    assert!(response.success, "Valid proof must verify successfully");
    assert_eq!(response.user_id, "alice_fintech");
    assert_eq!(response.message, "Identity verified successfully for user 'alice_fintech'.");
}

#[test]
fn test_unregistered_user_rejected() {
    let sk = UserSecretKey::generate();
    let mut protector = ReplayProtector::default();
    let request = build_auth_request("unknown_intruder", &sk, false).unwrap();
    let response =
        answer_request_at(&RegistryLookup::NotRegistered, &request, &mut protector, now()).unwrap();
    assert!(!response.success);
    assert_eq!(
        response.message,
        "Authentication failed: User 'unknown_intruder' is not registered with bank"
    );
    assert_eq!(protector.active_nonces_count(), 0);
}

#[test]
fn test_replay_attack_rejected() {
    let sk = UserSecretKey::generate();
    let pk = sk.public_key();
    let mut protector = ReplayProtector::default();
    let request = build_auth_request("alice_replay", &sk, false).unwrap();
    let t = now();
    let first = answer_request_at(&RegistryLookup::Registered(pk.clone()), &request, &mut protector, t).unwrap();
    assert!(first.success, "First submission must be accepted");
    let second = answer_request_at(&RegistryLookup::Registered(pk), &request, &mut protector, t).unwrap();
    assert!(!second.success, "Replayed proof must be rejected");
    assert_eq!(
        second.message,
        "Security rejection: Replay attack detected: Nonce has already been used for this user"
    );
}

#[test]
fn test_tampered_proof_rejected() {
    let sk = UserSecretKey::generate();
    let pk = sk.public_key();
    let mut protector = ReplayProtector::default();
    let request = build_auth_request("bob_attacker", &sk, true).unwrap();
    let response =
        answer_request_at(&RegistryLookup::Registered(pk), &request, &mut protector, now()).unwrap();
    assert!(!response.success);
    assert_eq!(response.user_id, "bob_attacker");
    assert!(response.message.starts_with("Verification failed") || response.message.starts_with("Cryptographic"));
}

#[test]
fn test_key_mismatch_and_lookup_failure() {
    let sk = UserSecretKey::generate();
    let other = UserSecretKey::generate().public_key();
    let mut protector = ReplayProtector::default();
    let request = build_auth_request("carol", &sk, false).unwrap();
    let r = answer_request_at(&RegistryLookup::Registered(other), &request, &mut protector, now()).unwrap();
    assert_eq!(r.message, "Authentication failed: Public key does not match bank records");
    let r = answer_request_at(&RegistryLookup::Failed("Database error: locked".into()), &request, &mut protector, now())
        .unwrap();
    assert_eq!(r.message, "Storage lookup error: Database error: locked");
    assert!(!r.success);
}

#[test]
fn test_expired_request_refused_with_age() {
    let sk = UserSecretKey::generate();
    let pk = sk.public_key();
    let mut protector = ReplayProtector::new(60);
    let mut request = build_auth_request("dave", &sk, false).unwrap();
    request.proof = ZkpEngine::generate_proof_with_time(&sk, &pk, 1000).unwrap();
    let r = answer_request_at(&RegistryLookup::Registered(pk), &request, &mut protector, 1100).unwrap();
    assert_eq!(
        r.message,
        "Security rejection: Proof expired: age 100s exceeds maximum allowed drift of 60s"
    );
}

#[test]
fn test_malformed_proof_answers() {
    let sk = UserSecretKey::generate();
    let pk = sk.public_key();
    let mut protector = ReplayProtector::default();
    let mut request = build_auth_request("erin", &sk, false).unwrap();
    request.proof.r_point = vec![1, 2, 3];
    let r = answer_request_at(&RegistryLookup::Registered(pk.clone()), &request, &mut protector, now()).unwrap();
    assert_eq!(
        r.message,
        "Cryptographic verification error: Serialization failed: Invalid R point length/format"
    );
    let mut short = build_auth_request("erin", &sk, false).unwrap();
    short.proof.s_scalar.truncate(10);
    assert!(answer_request_at(&RegistryLookup::Registered(pk), &short, &mut protector, now()).is_none());
}

#[test]
fn test_queued_request_messages() {
    let sk = UserSecretKey::generate();
    let pk = sk.public_key();
    let mut protector = ReplayProtector::default();
    let request = build_queued_request("bob_kafka_user", &sk, false).unwrap();
    let t = now();
    let r = answer_queued_request_at(&RegistryLookup::Registered(pk.clone()), &request, &mut protector, t).unwrap();
    assert!(r.success);
    assert_eq!(r.request_id, request.request_id);
    assert_eq!(r.message, "ZKP Identity verified successfully for 'bob_kafka_user'");
    let again = answer_queued_request_at(&RegistryLookup::Registered(pk), &request, &mut protector, t).unwrap();
    assert!(!again.success);
    let r = answer_queued_request_at(&RegistryLookup::Failed("x".into()), &request, &mut protector, t).unwrap();
    assert_eq!(r.message, "Database storage error: x");
}

#[test]
fn test_decide_and_tamper() {
    let sk = UserSecretKey::generate();
    let pk = sk.public_key();
    let mut protector = ReplayProtector::default();
    let request = build_auth_request("frank", &sk, false).unwrap();
    let d = decide(&RegistryLookup::Registered(pk), "frank", &request.public_key, &request.proof, &mut protector, now());
    assert!(matches!(d, Some(Decision::Verified)));

    let mut proof = request.proof.clone();
    let before = proof.s_scalar.clone();
    tamper_proof(&mut proof);
    assert_eq!(proof.s_scalar[..31], before[..31]);
    assert_eq!(proof.s_scalar[31], before[31].wrapping_add(1));
    let mut empty = proof.clone();
    empty.s_scalar.clear();
    tamper_proof(&mut empty);
    assert!(empty.s_scalar.is_empty());
}

fn scalar_key(v: u8) -> UserSecretKey {
    let mut b = vec![0u8; 32];
    b[31] = v;
    UserSecretKey::from_bytes(&b).unwrap()
}

#[test]
fn test_key_of_other_scalar_is_mismatch() {
    let registered = scalar_key(1).public_key();
    let sk_b = scalar_key(2);
    let pk_b = sk_b.public_key();
    let request = zkp_verifier::protocol::AuthRequest {
        user_id: "alice".to_string(),
        public_key: pk_b.to_bytes(),
        proof: ZkpEngine::generate_proof_with_time(&sk_b, &pk_b, 1000).unwrap(),
    };
    let mut protector = ReplayProtector::new(60);
    let resp = answer_request_at(&RegistryLookup::Registered(registered), &request, &mut protector, 1000).unwrap();
    assert_eq!(resp.user_id, "alice");
    assert!(!resp.success);
    assert_eq!(resp.message, "Authentication failed: Public key does not match bank records");
    assert_eq!(protector.active_nonces_count(), 0);
}

#[test]
fn test_malformed_packet_response_text() {
    let e = zkp_verifier::zkp_core_engine::ZkpError::SerializationError("Decoding failed: x".to_string());
    let r = malformed_packet_response(&e);
    assert_eq!(r.user_id, "unknown");
    assert!(!r.success);
    assert_eq!(r.message, "Malformed packet: Serialization failed: Decoding failed: x");
    let io = zkp_verifier::zkp_core_engine::ZkpError::IoError(std::io::Error::new(std::io::ErrorKind::Other, "reset"));
    assert_eq!(malformed_packet_response(&io).message, "Malformed packet: Network/IO error: reset");
}

#[test]
fn test_queued_request_id_is_uuid_v4() {
    let sk = UserSecretKey::generate();
    let r = build_queued_request("q", &sk, false).unwrap();
    let id: Vec<char> = r.request_id.chars().collect();
    assert_eq!(id.len(), 36);
    for (i, c) in id.iter().enumerate() {
        if [8, 13, 18, 23].contains(&i) {
            assert_eq!(*c, '-');
        } else {
            assert!(c.is_ascii_hexdigit() && !c.is_ascii_uppercase());
        }
    }
    assert_eq!(id[14], '4');
    assert!(['8', '9', 'a', 'b'].contains(&id[19]));
}
