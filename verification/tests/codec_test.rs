use bytes::BytesMut;
use zkp_verifier::codec::{ZkpMessageCodec, MAX_FRAME_SIZE};
use zkp_verifier::protocol::{AuthRequest, AuthResponse};
use zkp_verifier::zkp_core_engine::{UserSecretKey, ZkpEngine, ZkpError};

#[test]
fn test_codec_encode_decode_roundtrip() {
    let mut codec = ZkpMessageCodec::<AuthRequest, AuthResponse>::new();
    let mut buffer = BytesMut::new();

    let sk = UserSecretKey::generate();
    let pk = sk.public_key();
    let proof = ZkpEngine::generate_proof(&sk, &pk).unwrap();

    let original_req = AuthRequest {
        user_id: "alice".into(),
        public_key: pk.to_bytes(),
        proof,
    };

    codec.encode(original_req.clone(), &mut buffer).expect("Encoding should succeed");
    assert!(buffer.len() > 4);

    let mut decode_codec = ZkpMessageCodec::<AuthResponse, AuthRequest>::new();
    let decoded_req: AuthRequest = decode_codec.decode(&mut buffer)
        .expect("Decoding should succeed")
        .expect("Should return a complete item");

    assert_eq!(original_req, decoded_req);
    assert!(buffer.is_empty(), "Buffer should be fully consumed");
}

#[test]
fn test_codec_handles_partial_data() {
    let mut codec = ZkpMessageCodec::<AuthResponse, AuthResponse>::new();
    let mut buffer = BytesMut::new();

    let resp = AuthResponse {
        user_id: "bob".into(),
        success: true,
        message: "Welcome back".into(),
    };

    codec.encode(resp.clone(), &mut buffer).unwrap();
    let full_len = buffer.len();

    let fragment1 = buffer.split_to(full_len / 2);
    let fragment2 = buffer;

    let mut feeder_buffer = BytesMut::new();
    feeder_buffer.extend_from_slice(&fragment1);

    let result = codec.decode(&mut feeder_buffer).unwrap();
    assert!(result.is_none());

    feeder_buffer.extend_from_slice(&fragment2);
    let decoded = codec.decode(&mut feeder_buffer).unwrap();
    assert!(decoded.is_some());
    assert_eq!(resp, decoded.unwrap());
}

#[test]
fn test_codec_max_frame_size_defense() {
    let mut tiny_codec = ZkpMessageCodec::<AuthResponse, AuthResponse>::with_max_frame_size(20);
    let mut buffer = BytesMut::new();

    let oversized_resp = AuthResponse {
        user_id: "long_name_that_exceeds_frame_limit_defense".into(),
        success: true,
        message: "This payload is intentionally way too large".into(),
    };

    let err = tiny_codec.encode(oversized_resp, &mut buffer);
    assert!(err.is_err(), "Should reject payloads exceeding max_frame_size");
}

fn message(e: ZkpError) -> String {
    match e {
        ZkpError::SerializationError(m) => m,
        other => panic!("unexpected {:?}", other),
    }
}

#[test]
fn test_codec_frame_layout_and_limits() {
    assert_eq!(MAX_FRAME_SIZE, 64 * 1024);
    let mut codec = ZkpMessageCodec::<AuthResponse, AuthResponse>::default();
    let mut buffer = BytesMut::new();
    let resp = AuthResponse { user_id: "u".into(), success: false, message: "m".into() };
    codec.encode(resp.clone(), &mut buffer).unwrap();
    // payload: 8 + 1 (user) + 1 (bool) + 8 + 1 (message) = 19 bytes
    assert_eq!(&buffer[..4], &[0, 0, 0, 19]);
    assert_eq!(buffer.len(), 23);
    assert_eq!(&buffer[4..], resp.to_wire_bytes().as_slice());

    let mut tiny = ZkpMessageCodec::<AuthResponse, AuthResponse>::with_max_frame_size(5);
    let mut out = BytesMut::new();
    let e = tiny.encode(resp.clone(), &mut out).err().unwrap();
    assert_eq!(message(e), "Message payload exceeds maximum frame size: 19 > 5");
    assert!(out.is_empty());

    let e = tiny.decode(&mut buffer).err().unwrap();
    assert_eq!(message(e), "Frame length exceeds allowed limit: 19 > 5");
    assert_eq!(buffer.len(), 23);
}

#[test]
fn test_codec_undecodable_frame_is_consumed() {
    let mut codec = ZkpMessageCodec::<AuthResponse, AuthResponse>::new();
    let mut buffer = BytesMut::new();
    buffer.extend_from_slice(&[0, 0, 0, 3, 1, 2, 3, 0xaa]);
    let e = codec.decode(&mut buffer).err().unwrap();
    assert!(message(e).starts_with("Decoding failed: "));
    assert_eq!(&buffer[..], &[0xaa]);

    let mut short = BytesMut::new();
    short.extend_from_slice(&[0, 0]);
    assert!(codec.decode(&mut short).unwrap().is_none());
    assert_eq!(short.len(), 2);
}
