use zkp_verifier::replay::{ReplayError, ReplayProtector, DEFAULT_MAX_DRIFT_SECS};
use zkp_verifier::zkp_core_engine::{Proof, UserSecretKey, ZkpEngine};

fn now() -> i64 {
    chrono::Utc::now().timestamp()
}

#[test]
fn test_replay_protector_fresh_proof_passes() {
    let mut protector = ReplayProtector::new(60);
    let sk = UserSecretKey::generate();
    let pk = sk.public_key();

    let proof = ZkpEngine::generate_proof(&sk, &pk).unwrap();
    let result = protector.check_and_record("alice", &proof).expect("time arithmetic fits");
    assert!(result.is_ok());
    assert_eq!(protector.active_nonces_count(), 1);
}

#[test]
fn test_replay_protector_detects_duplicate_nonce() {
    let mut protector = ReplayProtector::new(60);
    let sk = UserSecretKey::generate();
    let pk = sk.public_key();

    let proof = ZkpEngine::generate_proof(&sk, &pk).unwrap();

    assert!(protector.check_and_record("alice", &proof).unwrap().is_ok());

    let result = protector.check_and_record("alice", &proof).unwrap();
    assert_eq!(result, Err(ReplayError::ReplayDetected));
}

#[test]
fn test_replay_protector_rejects_expired_proof() {
    let mut protector = ReplayProtector::new(60);
    let sk = UserSecretKey::generate();
    let pk = sk.public_key();

    let old_timestamp = chrono::Utc::now().timestamp() - 120;
    let old_proof = ZkpEngine::generate_proof_with_time(&sk, &pk, old_timestamp).unwrap();

    let result = protector.check_and_record("bob", &old_proof).unwrap();
    assert!(matches!(result, Err(ReplayError::ProofExpired { .. })));
}

#[test]
fn test_replay_protector_rejects_future_skew_proof() {
    let mut protector = ReplayProtector::new(60);
    let sk = UserSecretKey::generate();
    let pk = sk.public_key();

    let future_timestamp = chrono::Utc::now().timestamp() + 120;
    let future_proof = ZkpEngine::generate_proof_with_time(&sk, &pk, future_timestamp).unwrap();

    let result = protector.check_and_record("charlie", &future_proof).unwrap();
    assert!(matches!(result, Err(ReplayError::ClockSkewFuture { .. })));
}

fn proof_at(timestamp: i64, nonce_byte: u8) -> Proof {
    Proof { r_point: vec![], s_scalar: vec![], timestamp, nonce: [nonce_byte; 16] }
}

#[test]
fn test_replay_exact_errors_at_given_time() {
    let mut p = ReplayProtector::new(60);
    assert_eq!(
        p.check_and_record_at("a", &proof_at(1000, 1), 1061),
        Err(ReplayError::ProofExpired { age_secs: 61, max_allowed: 60 })
    );
    assert_eq!(
        p.check_and_record_at("a", &proof_at(1000, 1), 939),
        Err(ReplayError::ClockSkewFuture { drift_secs: 61 })
    );
    assert_eq!(p.active_nonces_count(), 0);
    assert_eq!(p.check_and_record_at("a", &proof_at(1000, 1), 1060), Ok(()));
    assert_eq!(p.check_and_record_at("a", &proof_at(1000, 1), 940), Err(ReplayError::ReplayDetected));
}

#[test]
fn test_replay_same_nonce_other_user_accepted() {
    let mut p = ReplayProtector::new(60);
    assert_eq!(p.check_and_record_at("alice", &proof_at(500, 3), 500), Ok(()));
    assert_eq!(p.check_and_record_at("bob", &proof_at(500, 3), 500), Ok(()));
    assert_eq!(p.check_and_record_at("alice", &proof_at(500, 4), 500), Ok(()));
    assert_eq!(p.active_nonces_count(), 3);
    assert_eq!(p.check_and_record_at("bob", &proof_at(500, 3), 510), Err(ReplayError::ReplayDetected));
}

#[test]
fn test_replay_old_uses_are_forgotten() {
    let mut p = ReplayProtector::new(60);
    assert_eq!(p.check_and_record_at("alice", &proof_at(100, 1), 100), Ok(()));
    assert_eq!(p.check_and_record_at("alice", &proof_at(150, 2), 150), Ok(()));
    assert_eq!(p.active_nonces_count(), 2);
    // at 200 the window starts at 140: the first use is forgotten
    assert_eq!(p.check_and_record_at("alice", &proof_at(200, 3), 200), Ok(()));
    assert_eq!(p.active_nonces_count(), 2);
    // and the old proof itself is refused as expired
    assert!(matches!(
        p.check_and_record_at("alice", &proof_at(100, 1), 200),
        Err(ReplayError::ProofExpired { age_secs: 100, max_allowed: 60 })
    ));
}

#[test]
fn test_replay_clock_overflow_is_reported() {
    let mut p = ReplayProtector::new(60);
    assert!(!p.step_fits_at(i64::MIN, 10));
    assert!(p.step_fits_at(0, now()));
    assert_eq!(p.check_and_record("alice", &proof_at(i64::MIN, 1)), None);
    assert_eq!(p.active_nonces_count(), 0);
}

#[test]
fn test_replay_default_and_messages() {
    let mut p = ReplayProtector::default();
    assert_eq!(DEFAULT_MAX_DRIFT_SECS, 60);
    assert_eq!(p.check_and_record_at("a", &proof_at(0, 0), 61), Err(ReplayError::ProofExpired { age_secs: 61, max_allowed: 60 }));
    assert_eq!(
        ReplayError::ProofExpired { age_secs: 120, max_allowed: 60 }.message(),
        "Proof expired: age 120s exceeds maximum allowed drift of 60s"
    );
    assert_eq!(
        ReplayError::ClockSkewFuture { drift_secs: -7 }.message(),
        "Future timestamp detected: clock skew of -7s exceeds maximum allowed"
    );
    assert_eq!(
        ReplayError::ReplayDetected.message(),
        "Replay attack detected: Nonce has already been used for this user"
    );
    assert_eq!(
        ReplayError::ClockSkewFuture { drift_secs: i64::MIN }.message(),
        "Future timestamp detected: clock skew of -9223372036854775808s exceeds maximum allowed"
    );
}
