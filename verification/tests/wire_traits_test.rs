use zkp_verifier::protocol::{AuthRequest, AuthResponse, KafkaAuthRequest, KafkaAuthResponse};
use zkp_verifier::zkp_core_engine::{Proof, UserSecretKey, ZkpEngine};

#[test]
fn test_proof_wire_from_and_try_from() {
    let sk = UserSecretKey::generate();
    let pk = sk.public_key();
    let original_proof = ZkpEngine::generate_proof(&sk, &pk).unwrap();

    // From trait
    let wire_bytes: Vec<u8> = Vec::from(&original_proof);
    assert!(!wire_bytes.is_empty());

    // TryFrom &[u8]
    let decoded_proof = Proof::try_from(wire_bytes.as_slice()).expect("Should decode slice");
    assert_eq!(original_proof, decoded_proof);

    // TryFrom Vec<u8>
    let decoded_proof_vec = Proof::try_from(wire_bytes.clone()).expect("Should decode Vec");
    assert_eq!(original_proof, decoded_proof_vec);

    // Corrupted bytes
    assert!(Proof::try_from(&wire_bytes[..5]).is_err());
}

#[test]
fn test_auth_request_wire_traits() {
    let sk = UserSecretKey::generate();
    let pk = sk.public_key();
    let proof = ZkpEngine::generate_proof(&sk, &pk).unwrap();

    let original_req = AuthRequest {
        user_id: "alice_fintech".to_string(),
        public_key: pk.to_bytes(),
        proof,
    };

    // From trait
    let wire_bytes: Vec<u8> = Vec::from(&original_req);
    assert!(!wire_bytes.is_empty());

    // TryFrom &[u8]
    let decoded_req = AuthRequest::try_from(wire_bytes.as_slice()).expect("Should decode slice");
    assert_eq!(original_req, decoded_req);

    // TryFrom Vec<u8>
    let decoded_req_vec = AuthRequest::try_from(wire_bytes).expect("Should decode Vec");
    assert_eq!(original_req, decoded_req_vec);
}

#[test]
fn test_auth_response_wire_traits() {
    let original_res = AuthResponse {
        user_id: "alice_fintech".to_string(),
        success: true,
        message: "Identity verified successfully".to_string(),
    };

    let wire_bytes: Vec<u8> = Vec::from(&original_res);
    let decoded_res = AuthResponse::try_from(wire_bytes.as_slice()).expect("Should decode");
    assert_eq!(original_res, decoded_res);
}

#[test]
fn test_kafka_events_bincode() {
    let sk = UserSecretKey::generate();
    let pk = sk.public_key();
    let proof = ZkpEngine::generate_proof(&sk, &pk).unwrap();

    let kafka_req = KafkaAuthRequest::new("charlie_kafka", pk.to_bytes(), proof);
    assert_eq!(kafka_req.request_id.len(), 36);
    assert_eq!(kafka_req.user_id, "charlie_kafka");
    let bytes = kafka_req.to_bincode_bytes().expect("bincode serialization");
    let recovered = KafkaAuthRequest::from_bincode_bytes(&bytes).expect("bincode deserialization");
    assert_eq!(kafka_req, recovered);
    assert!(KafkaAuthRequest::from_bincode_bytes(&bytes[..bytes.len() - 1]).is_err());

    let other = KafkaAuthRequest::new("charlie_kafka", pk.to_bytes(), kafka_req.proof.clone());
    assert_ne!(kafka_req.request_id, other.request_id);

    let kafka_resp = KafkaAuthResponse::new(&kafka_req.request_id, "charlie_kafka", true, "Verified");
    assert_eq!(kafka_resp.request_id, kafka_req.request_id);
    assert_eq!(kafka_resp.message, "Verified");
    assert!(kafka_resp.success);
    assert!(kafka_resp.timestamp > 1_600_000_000_000);
}

#[test]
fn test_response_wire_rejects_bad_bool() {
    let res = AuthResponse { user_id: "a".into(), success: true, message: "b".into() };
    let mut bytes = res.to_wire_bytes();
    assert_eq!(bytes[9], 1);
    bytes[9] = 2;
    assert!(AuthResponse::from_wire_bytes(&bytes).is_err());
}

#[test]
fn test_owned_conversions_match_methods() {
    let res = AuthResponse { user_id: "u".to_string(), success: false, message: "m".to_string() };
    let by_ref: Vec<u8> = Vec::from(&res);
    assert_eq!(by_ref, res.to_wire_bytes());
    let owned: Vec<u8> = Vec::from(res.clone());
    assert_eq!(owned, by_ref);
    assert_eq!(AuthResponse::try_from(owned).unwrap(), res);
    assert!(AuthRequest::try_from(vec![1u8, 2, 3]).is_err());
}
