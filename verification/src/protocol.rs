//! The messages exchanged between the user, the bank verifier and the
//! Kafka verification pipeline.

use vstd::prelude::*;

use crate::codec::{frame, lemma_frame_roundtrip, scan_frame, FrameScan, WireMessage};
use crate::text::concat;
use crate::wire::{
    queued_request_fits, request_fits, response_fits,
    bincode_deserialize_queued_request, bincode_deserialize_request, bincode_deserialize_response,
    bincode_serialize_queued_request, bincode_serialize_request, bincode_serialize_response,
    lemma_read_wire_queued_request, lemma_read_wire_request, lemma_read_wire_response,
    read_queued_request, read_request, read_response, wire_queued_request, wire_request, wire_response,
    QueuedRequestFields, RequestFields, ResponseFields,
};
use crate::zkp_core_engine::{is_decoding_error, proof_fields, Proof, ZkpError};

verus! {

/// Authentication request sent by the user to the bank verifier.
#[derive(Debug, Clone, PartialEq, Eq)]
pub struct AuthRequest {
    pub user_id: String,
    /// Compressed SEC1 public key (33 bytes).
    pub public_key: Vec<u8>,
    pub proof: Proof,
}

/// Authentication response sent by the bank verifier to the user.
#[derive(Debug, Clone, PartialEq, Eq)]
pub struct AuthResponse {
    pub user_id: String,
    pub success: bool,
    pub message: String,
}

/// Verification request published on the request topic.
#[derive(Debug, Clone, PartialEq, Eq)]
pub struct KafkaAuthRequest {
    pub request_id: String,
    pub user_id: String,
    pub public_key: Vec<u8>,
    pub proof: Proof,
    /// Unix time in milliseconds at which the request was made.
    pub timestamp: i64,
}

/// Verification result published on the response topic.
#[derive(Debug, Clone, PartialEq, Eq)]
pub struct KafkaAuthResponse {
    pub request_id: String,
    pub user_id: String,
    pub success: bool,
    pub message: String,
    /// Unix time in milliseconds at which the result was made.
    pub timestamp: i64,
}

pub open spec fn request_fields(r: AuthRequest) -> RequestFields {
    (r.user_id@, r.public_key@, proof_fields(r.proof))
}

pub open spec fn response_fields(r: AuthResponse) -> ResponseFields {
    (r.user_id@, r.success, r.message@)
}

pub open spec fn queued_request_fields(r: KafkaAuthRequest) -> QueuedRequestFields {
    (r.request_id@, r.user_id@, r.public_key@, proof_fields(r.proof), r.timestamp)
}

/// `prefix` followed by `rest`, with the fact that `prefix` starts it.
fn prefixed(prefix: &str, rest: &str) -> (t: String)
    ensures
        t@ == prefix@ + rest@,
        t@.len() >= prefix@.len(),
        t@.subrange(0, prefix@.len() as int) == prefix@,
{
    let t = concat(prefix, rest);
    assert(t@.subrange(0, prefix@.len() as int) =~= prefix@);
    t
}

impl WireMessage for AuthRequest {
    open spec fn wire_form(&self) -> Seq<u8> {
        wire_request(request_fields(*self))
    }

    open spec fn wire_readable(bytes: Seq<u8>) -> bool {
        read_request(bytes, 0) is Some
    }

    open spec fn wire_reads(bytes: Seq<u8>, m: Self) -> bool {
        read_request(bytes, 0) matches Some((f, _)) && request_fields(m) == f
    }

    fn to_wire_payload(&self) -> (b: Vec<u8>) {
        let p = &self.proof;
        bincode_serialize_request(&self.user_id, &self.public_key, &p.r_point, &p.s_scalar, p.timestamp, &p.nonce)
    }

    fn from_wire_payload(bytes: &[u8]) -> (r: Result<Self, String>) {
        match bincode_deserialize_request(bytes) {
            Ok(t) => {
                let (user_id, public_key, (r_point, s_scalar, timestamp, nonce)) = t;
                Ok(AuthRequest { user_id, public_key, proof: Proof { r_point, s_scalar, timestamp, nonce } })
            },
            Err(e) => Err(e),
        }
    }
}

impl WireMessage for AuthResponse {
    open spec fn wire_form(&self) -> Seq<u8> {
        wire_response(response_fields(*self))
    }

    open spec fn wire_readable(bytes: Seq<u8>) -> bool {
        read_response(bytes, 0) is Some
    }

    open spec fn wire_reads(bytes: Seq<u8>, m: Self) -> bool {
        read_response(bytes, 0) matches Some((f, _)) && response_fields(m) == f
    }

    fn to_wire_payload(&self) -> (b: Vec<u8>) {
        bincode_serialize_response(&self.user_id, self.success, &self.message)
    }

    fn from_wire_payload(bytes: &[u8]) -> (r: Result<Self, String>) {
        match bincode_deserialize_response(bytes) {
            Ok(t) => {
                let (user_id, success, message) = t;
                Ok(AuthResponse { user_id, success, message })
            },
            Err(e) => Err(e),
        }
    }
}

impl AuthRequest {
    /// The binary wire form of the request.
    pub fn to_wire_bytes(&self) -> (bytes: Vec<u8>)
        ensures
            bytes@ == wire_request(request_fields(*self)),
    {
        self.to_wire_payload()
    }

    /// The request whose wire form starts `bytes`.
    pub fn from_wire_bytes(bytes: &[u8]) -> (res: Result<AuthRequest, ZkpError>)
        ensures
            read_request(bytes@, 0) matches Some((f, _)) ==> (res matches Ok(r) && request_fields(r) == f),
            read_request(bytes@, 0) is None ==> is_decoding_error(res, "Failed to deserialize AuthRequest: "@),
    {
        match Self::from_wire_payload(bytes) {
            Ok(r) => Ok(r),
            Err(e) => Err(ZkpError::SerializationError(prefixed("Failed to deserialize AuthRequest: ", e.as_str()))),
        }
    }
}

impl AuthResponse {
    /// The binary wire form of the response.
    pub fn to_wire_bytes(&self) -> (bytes: Vec<u8>)
        ensures
            bytes@ == wire_response(response_fields(*self)),
    {
        self.to_wire_payload()
    }

    /// The response whose wire form starts `bytes`.
    pub fn from_wire_bytes(bytes: &[u8]) -> (res: Result<AuthResponse, ZkpError>)
        ensures
            read_response(bytes@, 0) matches Some((f, _)) ==> (res matches Ok(r) && response_fields(r) == f),
            read_response(bytes@, 0) is None ==> is_decoding_error(res, "Failed to deserialize AuthResponse: "@),
    {
        match Self::from_wire_payload(bytes) {
            Ok(r) => Ok(r),
            Err(e) => Err(ZkpError::SerializationError(prefixed("Failed to deserialize AuthResponse: ", e.as_str()))),
        }
    }
}

impl From<&AuthRequest> for Vec<u8> {
    /// The binary wire form of the message.
    fn from(m: &AuthRequest) -> (bytes: Vec<u8>)
        ensures
            bytes@ == wire_request(request_fields(*m)),
    {
        m.to_wire_bytes()
    }
}

impl vstd::std_specs::convert::FromSpecImpl<&AuthRequest> for Vec<u8> {
    open spec fn obeys_from_spec() -> bool {
        false
    }

    open spec fn from_spec(v: &AuthRequest) -> Vec<u8> {
        vstd::pervasive::arbitrary()
    }
}

impl From<AuthRequest> for Vec<u8> {
    /// The binary wire form of the message.
    fn from(m: AuthRequest) -> (bytes: Vec<u8>)
        ensures
            bytes@ == wire_request(request_fields(m)),
    {
        m.to_wire_bytes()
    }
}

impl vstd::std_specs::convert::FromSpecImpl<AuthRequest> for Vec<u8> {
    open spec fn obeys_from_spec() -> bool {
        false
    }

    open spec fn from_spec(v: AuthRequest) -> Vec<u8> {
        vstd::pervasive::arbitrary()
    }
}

impl<'a> TryFrom<&'a [u8]> for AuthRequest {
    type Error = ZkpError;

    /// The message whose wire form starts `bytes`.
    fn try_from(bytes: &'a [u8]) -> (res: Result<AuthRequest, ZkpError>)
        ensures
            read_request(bytes@, 0) matches Some((f, _)) ==> (res matches Ok(r) && request_fields(r) == f),
            read_request(bytes@, 0) is None ==> is_decoding_error(res, "Failed to deserialize AuthRequest: "@),
    {
        AuthRequest::from_wire_bytes(bytes)
    }
}

impl<'a> vstd::std_specs::convert::TryFromSpecImpl<&'a [u8]> for AuthRequest {
    open spec fn obeys_try_from_spec() -> bool {
        false
    }

    open spec fn try_from_spec(v: &'a [u8]) -> Result<AuthRequest, ZkpError> {
        vstd::pervasive::arbitrary()
    }
}

impl TryFrom<Vec<u8>> for AuthRequest {
    type Error = ZkpError;

    /// The message whose wire form starts `bytes`.
    fn try_from(bytes: Vec<u8>) -> (res: Result<AuthRequest, ZkpError>)
        ensures
            read_request(bytes@, 0) matches Some((f, _)) ==> (res matches Ok(r) && request_fields(r) == f),
            read_request(bytes@, 0) is None ==> is_decoding_error(res, "Failed to deserialize AuthRequest: "@),
    {
        AuthRequest::from_wire_bytes(bytes.as_slice())
    }
}

impl vstd::std_specs::convert::TryFromSpecImpl<Vec<u8>> for AuthRequest {
    open spec fn obeys_try_from_spec() -> bool {
        false
    }

    open spec fn try_from_spec(v: Vec<u8>) -> Result<AuthRequest, ZkpError> {
        vstd::pervasive::arbitrary()
    }
}

impl From<&AuthResponse> for Vec<u8> {
    /// The binary wire form of the message.
    fn from(m: &AuthResponse) -> (bytes: Vec<u8>)
        ensures
            bytes@ == wire_response(response_fields(*m)),
    {
        m.to_wire_bytes()
    }
}

impl vstd::std_specs::convert::FromSpecImpl<&AuthResponse> for Vec<u8> {
    open spec fn obeys_from_spec() -> bool {
        false
    }

    open spec fn from_spec(v: &AuthResponse) -> Vec<u8> {
        vstd::pervasive::arbitrary()
    }
}

impl From<AuthResponse> for Vec<u8> {
    /// The binary wire form of the message.
    fn from(m: AuthResponse) -> (bytes: Vec<u8>)
        ensures
            bytes@ == wire_response(response_fields(m)),
    {
        m.to_wire_bytes()
    }
}

impl vstd::std_specs::convert::FromSpecImpl<AuthResponse> for Vec<u8> {
    open spec fn obeys_from_spec() -> bool {
        false
    }

    open spec fn from_spec(v: AuthResponse) -> Vec<u8> {
        vstd::pervasive::arbitrary()
    }
}

impl<'a> TryFrom<&'a [u8]> for AuthResponse {
    type Error = ZkpError;

    /// The message whose wire form starts `bytes`.
    fn try_from(bytes: &'a [u8]) -> (res: Result<AuthResponse, ZkpError>)
        ensures
            read_response(bytes@, 0) matches Some((f, _)) ==> (res matches Ok(r) && response_fields(r) == f),
            read_response(bytes@, 0) is None ==> is_decoding_error(res, "Failed to deserialize AuthResponse: "@),
    {
        AuthResponse::from_wire_bytes(bytes)
    }
}

impl<'a> vstd::std_specs::convert::TryFromSpecImpl<&'a [u8]> for AuthResponse {
    open spec fn obeys_try_from_spec() -> bool {
        false
    }

    open spec fn try_from_spec(v: &'a [u8]) -> Result<AuthResponse, ZkpError> {
        vstd::pervasive::arbitrary()
    }
}

impl TryFrom<Vec<u8>> for AuthResponse {
    type Error = ZkpError;

    /// The message whose wire form starts `bytes`.
    fn try_from(bytes: Vec<u8>) -> (res: Result<AuthResponse, ZkpError>)
        ensures
            read_response(bytes@, 0) matches Some((f, _)) ==> (res matches Ok(r) && response_fields(r) == f),
            read_response(bytes@, 0) is None ==> is_decoding_error(res, "Failed to deserialize AuthResponse: "@),
    {
        AuthResponse::from_wire_bytes(bytes.as_slice())
    }
}

impl vstd::std_specs::convert::TryFromSpecImpl<Vec<u8>> for AuthResponse {
    open spec fn obeys_try_from_spec() -> bool {
        false
    }

    open spec fn try_from_spec(v: Vec<u8>) -> Result<AuthResponse, ZkpError> {
        vstd::pervasive::arbitrary()
    }
}

impl KafkaAuthRequest {
    /// A request with a fresh random request id, stamped with the current
    /// time in milliseconds.
    pub fn new(user_id: &str, public_key: Vec<u8>, proof: Proof) -> (r: Self)
        ensures
            r.user_id@ == user_id@,
            r.public_key@ == public_key@,
            r.proof == proof,
            crate::clock::is_uuid_v4_text(r.request_id@),
    {
        KafkaAuthRequest {
            request_id: crate::clock::new_request_id(),
            user_id: String::from_str(user_id),
            public_key,
            proof,
            timestamp: crate::clock::unix_time_now_millis(),
        }
    }

    /// The binary wire form of the request; it is always produced.
    pub fn to_bincode_bytes(&self) -> (res: Result<Vec<u8>, ZkpError>)
        ensures
            res matches Ok(b) && b@ == wire_queued_request(queued_request_fields(*self)),
    {
        let p = &self.proof;
        Ok(
            bincode_serialize_queued_request(
                &self.request_id,
                &self.user_id,
                &self.public_key,
                &p.r_point,
                &p.s_scalar,
                p.timestamp,
                &p.nonce,
                self.timestamp,
            ),
        )
    }

    /// The request whose binary wire form starts `bytes`.
    pub fn from_bincode_bytes(bytes: &[u8]) -> (res: Result<Self, ZkpError>)
        ensures
            read_queued_request(bytes@, 0) matches Some((f, _)) ==> (res matches Ok(r) && queued_request_fields(r)
                == f),
            read_queued_request(bytes@, 0) is None ==> is_decoding_error(res, "Bincode deserialization error: "@),
    {
        match bincode_deserialize_queued_request(bytes) {
            Ok(t) => {
                let (request_id, user_id, public_key, (r_point, s_scalar, proof_timestamp, nonce), timestamp) = t;
                Ok(
                    KafkaAuthRequest {
                        request_id,
                        user_id,
                        public_key,
                        proof: Proof { r_point, s_scalar, timestamp: proof_timestamp, nonce },
                        timestamp,
                    },
                )
            },
            Err(e) => Err(ZkpError::SerializationError(prefixed("Bincode deserialization error: ", e.as_str()))),
        }
    }
}

impl KafkaAuthResponse {
    /// A result stamped with the current time in milliseconds.
    pub fn new(request_id: &str, user_id: &str, success: bool, message: &str) -> (r: Self)
        ensures
            r.request_id@ == request_id@,
            r.user_id@ == user_id@,
            r.success == success,
            r.message@ == message@,
    {
        KafkaAuthResponse {
            request_id: String::from_str(request_id),
            user_id: String::from_str(user_id),
            success,
            message: String::from_str(message),
            timestamp: crate::clock::unix_time_now_millis(),
        }
    }
}

/// Reading the wire form of a request gives the request back.
pub proof fn lemma_request_wire_roundtrip(r: AuthRequest)
    requires
        request_fits(request_fields(r)),
    ensures
        read_request(wire_request(request_fields(r)), 0) matches Some((f, _)) && f == request_fields(r),
{
    let f = request_fields(r);
    let e = Seq::<u8>::empty();
    assert(e + wire_request(f) + e =~= wire_request(f));
    lemma_read_wire_request(e, f, e);
}

/// Reading the wire form of a response gives the response back.
pub proof fn lemma_response_wire_roundtrip(r: AuthResponse)
    requires
        response_fits(response_fields(r)),
    ensures
        read_response(wire_response(response_fields(r)), 0) matches Some((f, _)) && f == response_fields(r),
{
    let f = response_fields(r);
    let e = Seq::<u8>::empty();
    assert(e + wire_response(f) + e =~= wire_response(f));
    lemma_read_wire_response(e, f, e);
}

/// Reading the wire form of a queued request gives the request back.
pub proof fn lemma_queued_request_wire_roundtrip(r: KafkaAuthRequest)
    requires
        queued_request_fits(queued_request_fields(r)),
    ensures
        read_queued_request(wire_queued_request(queued_request_fields(r)), 0) matches Some((f, _)) && f
            == queued_request_fields(r),
{
    let f = queued_request_fields(r);
    let e = Seq::<u8>::empty();
    assert(e + wire_queued_request(f) + e =~= wire_queued_request(f));
    lemma_read_wire_queued_request(e, f, e);
}

/// A request framed by `encode` is taken out again by `decode`: the frame is
/// complete, its payload reads as a request with the same fields, and the
/// bytes after the frame stay in the buffer.
pub proof fn lemma_request_frame_roundtrip(r: AuthRequest, rest: Seq<u8>, max: nat)
    requires
        request_fits(request_fields(r)),
        r.wire_form().len() <= max,
        max <= u32::MAX,
    ensures
        scan_frame(frame(r.wire_form()) + rest, max) == FrameScan::Complete(r.wire_form()),
        (frame(r.wire_form()) + rest).subrange(4 + r.wire_form().len() as int, (frame(r.wire_form()) + rest).len() as int)
            == rest,
        AuthRequest::wire_readable(r.wire_form()),
        forall|m: AuthRequest| #[trigger] AuthRequest::wire_reads(r.wire_form(), m) ==> request_fields(m) == request_fields(r),
{
    lemma_frame_roundtrip(r.wire_form(), rest, max);
    lemma_request_wire_roundtrip(r);
}

/// A response framed by `encode` is taken out again by `decode`.
pub proof fn lemma_response_frame_roundtrip(r: AuthResponse, rest: Seq<u8>, max: nat)
    requires
        response_fits(response_fields(r)),
        r.wire_form().len() <= max,
        max <= u32::MAX,
    ensures
        scan_frame(frame(r.wire_form()) + rest, max) == FrameScan::Complete(r.wire_form()),
        (frame(r.wire_form()) + rest).subrange(4 + r.wire_form().len() as int, (frame(r.wire_form()) + rest).len() as int)
            == rest,
        AuthResponse::wire_readable(r.wire_form()),
        forall|m: AuthResponse| #[trigger] AuthResponse::wire_reads(r.wire_form(), m) ==> response_fields(m) == response_fields(r),
{
    lemma_frame_roundtrip(r.wire_form(), rest, max);
    lemma_response_wire_roundtrip(r);
}

} // verus!
