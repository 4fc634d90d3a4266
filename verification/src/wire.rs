//! The binary layout of the messages: bincode's fixed-width little-endian
//! encoding, where a byte string or a text is its length as eight bytes
//! followed by its bytes, an `i64` is eight bytes, a 16-byte array is its
//! bytes and a `bool` is one byte `0` or `1`; the fields follow each other.

use vstd::prelude::*;

use crate::encoding::{le64_at, lemma_u64_le_value, u64_le};
use vstd::utf8::{decode_utf8, encode_utf8, valid_utf8};

verus! {

/// The fields of a proof: commitment, response, timestamp, nonce.
pub type ProofFields = (Seq<u8>, Seq<u8>, i64, Seq<u8>);

/// The fields of an authentication request: user, public key, proof.
pub type RequestFields = (Seq<char>, Seq<u8>, ProofFields);

/// The fields of an authentication response: user, outcome, message.
pub type ResponseFields = (Seq<char>, bool, Seq<char>);

/// The fields of a queued request: request id, user, public key, proof,
/// timestamp.
pub type QueuedRequestFields = (Seq<char>, Seq<char>, Seq<u8>, ProofFields, i64);

pub open spec fn wire_bytes(b: Seq<u8>) -> Seq<u8> {
    u64_le(b.len() as u64) + b
}

pub open spec fn wire_text(s: Seq<char>) -> Seq<u8> {
    wire_bytes(encode_utf8(s))
}

pub open spec fn wire_i64(x: i64) -> Seq<u8> {
    u64_le(x as u64)
}

pub open spec fn wire_bool(b: bool) -> Seq<u8> {
    seq![if b { 1u8 } else { 0u8 }]
}

#[verifier::opaque]
pub open spec fn wire_proof(f: ProofFields) -> Seq<u8> {
    wire_bytes(f.0) + wire_bytes(f.1) + wire_i64(f.2) + f.3
}

#[verifier::opaque]
pub open spec fn wire_request(f: RequestFields) -> Seq<u8> {
    wire_text(f.0) + wire_bytes(f.1) + wire_proof(f.2)
}

#[verifier::opaque]
pub open spec fn wire_response(f: ResponseFields) -> Seq<u8> {
    wire_text(f.0) + wire_bool(f.1) + wire_text(f.2)
}

#[verifier::opaque]
pub open spec fn wire_queued_request(f: QueuedRequestFields) -> Seq<u8> {
    wire_text(f.0) + wire_text(f.1) + wire_bytes(f.2) + wire_proof(f.3) + wire_i64(f.4)
}

/// A length-prefixed byte string at `pos`, and the position after it.
#[verifier::opaque]
pub open spec fn read_bytes(b: Seq<u8>, pos: int) -> Option<(Seq<u8>, int)> {
    if 0 <= pos && pos + 8 <= b.len() && pos + 8 + le64_at(b, pos) <= b.len() {
        Some((b.subrange(pos + 8, pos + 8 + le64_at(b, pos)), pos + 8 + le64_at(b, pos)))
    } else {
        None
    }
}

/// A length-prefixed UTF-8 text at `pos`.
#[verifier::opaque]
pub open spec fn read_text(b: Seq<u8>, pos: int) -> Option<(Seq<char>, int)> {
    match read_bytes(b, pos) {
        Some((v, next)) => if valid_utf8(v) {
            Some((decode_utf8(v), next))
        } else {
            None
        },
        None => None,
    }
}

#[verifier::opaque]
pub open spec fn read_i64(b: Seq<u8>, pos: int) -> Option<(i64, int)> {
    if 0 <= pos && pos + 8 <= b.len() {
        Some(((le64_at(b, pos) as u64) as i64, pos + 8))
    } else {
        None
    }
}

#[verifier::opaque]
pub open spec fn read_array16(b: Seq<u8>, pos: int) -> Option<(Seq<u8>, int)> {
    if 0 <= pos && pos + 16 <= b.len() {
        Some((b.subrange(pos, pos + 16), pos + 16))
    } else {
        None
    }
}

#[verifier::opaque]
pub open spec fn read_bool(b: Seq<u8>, pos: int) -> Option<(bool, int)> {
    if 0 <= pos && pos + 1 <= b.len() && (b[pos] == 0 || b[pos] == 1) {
        Some((b[pos] == 1, pos + 1))
    } else {
        None
    }
}

#[verifier::opaque]
pub open spec fn read_proof(b: Seq<u8>, pos: int) -> Option<(ProofFields, int)> {
    match read_bytes(b, pos) {
        None => None,
        Some((r, p1)) => match read_bytes(b, p1) {
            None => None,
            Some((s, p2)) => match read_i64(b, p2) {
                None => None,
                Some((t, p3)) => match read_array16(b, p3) {
                    None => None,
                    Some((n, p4)) => Some(((r, s, t, n), p4)),
                },
            },
        },
    }
}

pub open spec fn read_request(b: Seq<u8>, pos: int) -> Option<(RequestFields, int)> {
    match read_text(b, pos) {
        None => None,
        Some((u, p1)) => match read_bytes(b, p1) {
            None => None,
            Some((k, p2)) => match read_proof(b, p2) {
                None => None,
                Some((f, p3)) => Some(((u, k, f), p3)),
            },
        },
    }
}

pub open spec fn read_response(b: Seq<u8>, pos: int) -> Option<(ResponseFields, int)> {
    match read_text(b, pos) {
        None => None,
        Some((u, p1)) => match read_bool(b, p1) {
            None => None,
            Some((ok, p2)) => match read_text(b, p2) {
                None => None,
                Some((m, p3)) => Some(((u, ok, m), p3)),
            },
        },
    }
}

pub open spec fn read_queued_request(b: Seq<u8>, pos: int) -> Option<(QueuedRequestFields, int)> {
    match read_text(b, pos) {
        None => None,
        Some((id, p1)) => match read_text(b, p1) {
            None => None,
            Some((u, p2)) => match read_bytes(b, p2) {
                None => None,
                Some((k, p3)) => match read_proof(b, p3) {
                    None => None,
                    Some((f, p4)) => match read_i64(b, p4) {
                        None => None,
                        Some((t, p5)) => Some(((id, u, k, f, t), p5)),
                    },
                },
            },
        },
    }
}

/// Reading a length-prefixed byte string gives it back.
pub proof fn lemma_read_wire_bytes(pre: Seq<u8>, v: Seq<u8>, rest: Seq<u8>)
    requires
        v.len() <= u64::MAX,
    ensures
        read_bytes(pre + wire_bytes(v) + rest, pre.len() as int) == Some(
            (v, pre.len() + wire_bytes(v).len() as int),
        ),
        wire_bytes(v).len() == 8 + v.len(),
{
    reveal(read_bytes);
    let b = pre + wire_bytes(v) + rest;
    let n = v.len() as u64;
    lemma_u64_le_value(n);
    let p = pre.len() as int;
    assert forall|i: int| 0 <= i < 8 implies b[p + i] == u64_le(n)[i] by {
        assert(b[p + i] == wire_bytes(v)[i]);
    }
    assert(le64_at(b, p) == le64_at(u64_le(n), 0));
    assert(b.subrange(p + 8, p + 8 + v.len()) =~= v);
}

/// Reading a text gives it back.
pub proof fn lemma_read_wire_text(pre: Seq<u8>, s: Seq<char>, rest: Seq<u8>)
    requires
        encode_utf8(s).len() <= u64::MAX,
    ensures
        read_text(pre + wire_text(s) + rest, pre.len() as int) == Some(
            (s, pre.len() + wire_text(s).len() as int),
        ),
{
    reveal(read_text);
    lemma_read_wire_bytes(pre, encode_utf8(s), rest);
    vstd::utf8::encode_utf8_valid_utf8(s);
    vstd::utf8::encode_utf8_decode_utf8(s);
}

/// Reading an `i64` gives it back.
pub proof fn lemma_read_wire_i64(pre: Seq<u8>, x: i64, rest: Seq<u8>)
    ensures
        read_i64(pre + wire_i64(x) + rest, pre.len() as int) == Some((x, pre.len() as int + 8)),
{
    reveal(read_i64);
    let b = pre + wire_i64(x) + rest;
    let u = x as u64;
    lemma_u64_le_value(u);
    let p = pre.len() as int;
    assert forall|i: int| 0 <= i < 8 implies b[p + i] == u64_le(u)[i] by {
        assert(b[p + i] == wire_i64(x)[i]);
    }
    assert(le64_at(b, p) == le64_at(u64_le(u), 0));
    assert((u as i64) == x) by (bit_vector)
        requires
            u == x as u64,
    ;
}

/// Reading 16 raw bytes gives them back.
pub proof fn lemma_read_wire_array16(pre: Seq<u8>, a: Seq<u8>, rest: Seq<u8>)
    requires
        a.len() == 16,
    ensures
        read_array16(pre + a + rest, pre.len() as int) == Some((a, pre.len() as int + 16)),
{
    reveal(read_array16);
    assert((pre + a + rest).subrange(pre.len() as int, pre.len() as int + 16) =~= a);
}

/// Reading a `bool` gives it back.
pub proof fn lemma_read_wire_bool(pre: Seq<u8>, x: bool, rest: Seq<u8>)
    ensures
        read_bool(pre + wire_bool(x) + rest, pre.len() as int) == Some((x, pre.len() as int + 1)),
{
    reveal(read_bool);
    assert((pre + wire_bool(x) + rest)[pre.len() as int] == wire_bool(x)[0]);
}

/// The fields of a proof can be laid out: the byte strings fit an `u64` length.
pub open spec fn proof_fits(f: ProofFields) -> bool {
    f.0.len() <= u64::MAX && f.1.len() <= u64::MAX && f.3.len() == 16
}

/// Reading a proof gives its fields back.
pub proof fn lemma_read_wire_proof(pre: Seq<u8>, f: ProofFields, rest: Seq<u8>)
    requires
        proof_fits(f),
    ensures
        read_proof(pre + wire_proof(f) + rest, pre.len() as int) == Some((f, pre.len() + wire_proof(f).len() as int)),
{
    reveal(read_proof);
    reveal(wire_proof);
    let b = pre + wire_proof(f) + rest;
    let w0 = wire_bytes(f.0);
    let w1 = wire_bytes(f.1);
    let w2 = wire_i64(f.2);
    let p0 = pre.len() as int;
    let p1 = p0 + w0.len();
    let p2 = p1 + w1.len();
    let p3 = p2 + 8;
    assert(read_bytes(b, p0) == Some((f.0, p1))) by {
        assert(b =~= pre + w0 + (w1 + w2 + f.3 + rest));
        lemma_read_wire_bytes(pre, f.0, w1 + w2 + f.3 + rest);
    }
    assert(read_bytes(b, p1) == Some((f.1, p2))) by {
        assert(b =~= (pre + w0) + w1 + (w2 + f.3 + rest));
        lemma_read_wire_bytes(pre + w0, f.1, w2 + f.3 + rest);
    }
    assert(read_i64(b, p2) == Some((f.2, p3))) by {
        assert(b =~= (pre + w0 + w1) + w2 + (f.3 + rest));
        lemma_read_wire_i64(pre + w0 + w1, f.2, f.3 + rest);
    }
    assert(read_array16(b, p3) == Some((f.3, p3 + 16))) by {
        assert(b =~= (pre + w0 + w1 + w2) + f.3 + rest);
        lemma_read_wire_array16(pre + w0 + w1 + w2, f.3, rest);
    }
    assert(wire_proof(f).len() == w0.len() + w1.len() + 8 + 16);
}

/// `bincode::serialize` of the proof fields, laid out as above. Serialising
/// into a vector does not fail for these types.
#[verifier::external_body]
pub(crate) fn bincode_serialize_proof(r_point: &Vec<u8>, s_scalar: &Vec<u8>, timestamp: i64, nonce: &[u8; 16]) -> (b: Vec<u8>)
    ensures
        b@ == wire_proof((r_point@, s_scalar@, timestamp, nonce@)),
{
    bincode::serialize(&(r_point, s_scalar, timestamp, nonce)).expect("serialising into a vector")
}

/// `bincode::deserialize` of the proof fields: `Ok` exactly where the layout
/// above can be read from the start of `bytes` (bytes after it are ignored);
/// the error's text is bincode's.
#[verifier::external_body]
pub(crate) fn bincode_deserialize_proof(bytes: &[u8]) -> (res: Result<(Vec<u8>, Vec<u8>, i64, [u8; 16]), String>)
    ensures
        (res is Ok) == (read_proof(bytes@, 0) is Some),
        res matches Ok(t) ==> (read_proof(bytes@, 0) matches Some((f, _)) && f == (t.0@, t.1@, t.2, t.3@)),
{
    match bincode::deserialize::<(Vec<u8>, Vec<u8>, i64, [u8; 16])>(bytes) {
        Ok(t) => Ok(t),
        Err(e) => Err(e.to_string()),
    }
}

/// The fields of a request can be laid out.
pub open spec fn request_fits(f: RequestFields) -> bool {
    encode_utf8(f.0).len() <= u64::MAX && f.1.len() <= u64::MAX && proof_fits(f.2)
}

/// The fields of a response can be laid out.
pub open spec fn response_fits(f: ResponseFields) -> bool {
    encode_utf8(f.0).len() <= u64::MAX && encode_utf8(f.2).len() <= u64::MAX
}

/// The fields of a queued request can be laid out.
pub open spec fn queued_request_fits(f: QueuedRequestFields) -> bool {
    encode_utf8(f.0).len() <= u64::MAX && encode_utf8(f.1).len() <= u64::MAX && f.2.len() <= u64::MAX
        && proof_fits(f.3)
}

/// Reading a request gives its fields back.
#[verifier::rlimit(50)]
pub proof fn lemma_read_wire_request(pre: Seq<u8>, f: RequestFields, rest: Seq<u8>)
    requires
        request_fits(f),
    ensures
        read_request(pre + wire_request(f) + rest, pre.len() as int) == Some(
            (f, pre.len() + wire_request(f).len() as int),
        ),
{
    reveal(wire_request);
    let b = pre + wire_request(f) + rest;
    let w0 = wire_text(f.0);
    let w1 = wire_bytes(f.1);
    let w2 = wire_proof(f.2);
    let p0 = pre.len() as int;
    let p1 = p0 + w0.len();
    let p2 = p1 + w1.len();
    assert(read_text(b, p0) == Some((f.0, p1))) by {
        assert(b =~= pre + w0 + (w1 + w2 + rest));
        lemma_read_wire_text(pre, f.0, w1 + w2 + rest);
    }
    assert(read_bytes(b, p1) == Some((f.1, p2))) by {
        assert(b =~= (pre + w0) + w1 + (w2 + rest));
        lemma_read_wire_bytes(pre + w0, f.1, w2 + rest);
    }
    assert(read_proof(b, p2) == Some((f.2, p2 + w2.len()))) by {
        assert(b =~= (pre + w0 + w1) + w2 + rest);
        lemma_read_wire_proof(pre + w0 + w1, f.2, rest);
    }
}

/// Reading a response gives its fields back.
#[verifier::rlimit(50)]
pub proof fn lemma_read_wire_response(pre: Seq<u8>, f: ResponseFields, rest: Seq<u8>)
    requires
        response_fits(f),
    ensures
        read_response(pre + wire_response(f) + rest, pre.len() as int) == Some(
            (f, pre.len() + wire_response(f).len() as int),
        ),
{
    reveal(wire_response);
    let b = pre + wire_response(f) + rest;
    let w0 = wire_text(f.0);
    let w1 = wire_bool(f.1);
    let w2 = wire_text(f.2);
    let p0 = pre.len() as int;
    let p1 = p0 + w0.len();
    let p2 = p1 + 1;
    assert(read_text(b, p0) == Some((f.0, p1))) by {
        assert(b =~= pre + w0 + (w1 + w2 + rest));
        lemma_read_wire_text(pre, f.0, w1 + w2 + rest);
    }
    assert(read_bool(b, p1) == Some((f.1, p2))) by {
        assert(b =~= (pre + w0) + w1 + (w2 + rest));
        lemma_read_wire_bool(pre + w0, f.1, w2 + rest);
    }
    assert(read_text(b, p2) == Some((f.2, p2 + w2.len()))) by {
        assert(b =~= (pre + w0 + w1) + w2 + rest);
        lemma_read_wire_text(pre + w0 + w1, f.2, rest);
    }
}

/// Reading a queued request gives its fields back.
#[verifier::rlimit(80)]
pub proof fn lemma_read_wire_queued_request(pre: Seq<u8>, f: QueuedRequestFields, rest: Seq<u8>)
    requires
        queued_request_fits(f),
    ensures
        read_queued_request(pre + wire_queued_request(f) + rest, pre.len() as int) == Some(
            (f, pre.len() + wire_queued_request(f).len() as int),
        ),
{
    reveal(wire_queued_request);
    let b = pre + wire_queued_request(f) + rest;
    let w0 = wire_text(f.0);
    let w1 = wire_text(f.1);
    let w2 = wire_bytes(f.2);
    let w3 = wire_proof(f.3);
    let w4 = wire_i64(f.4);
    let p0 = pre.len() as int;
    let p1 = p0 + w0.len();
    let p2 = p1 + w1.len();
    let p3 = p2 + w2.len();
    let p4 = p3 + w3.len();
    assert(read_text(b, p0) == Some((f.0, p1))) by {
        assert(b =~= pre + w0 + (w1 + w2 + w3 + w4 + rest));
        lemma_read_wire_text(pre, f.0, w1 + w2 + w3 + w4 + rest);
    }
    assert(read_text(b, p1) == Some((f.1, p2))) by {
        assert(b =~= (pre + w0) + w1 + (w2 + w3 + w4 + rest));
        lemma_read_wire_text(pre + w0, f.1, w2 + w3 + w4 + rest);
    }
    assert(read_bytes(b, p2) == Some((f.2, p3))) by {
        assert(b =~= (pre + w0 + w1) + w2 + (w3 + w4 + rest));
        lemma_read_wire_bytes(pre + w0 + w1, f.2, w3 + w4 + rest);
    }
    assert(read_proof(b, p3) == Some((f.3, p4))) by {
        assert(b =~= (pre + w0 + w1 + w2) + w3 + (w4 + rest));
        lemma_read_wire_proof(pre + w0 + w1 + w2, f.3, w4 + rest);
    }
    assert(read_i64(b, p4) == Some((f.4, p4 + 8))) by {
        assert(b =~= (pre + w0 + w1 + w2 + w3) + w4 + rest);
        lemma_read_wire_i64(pre + w0 + w1 + w2 + w3, f.4, rest);
    }
}

/// `bincode::serialize` of the request fields (user, public key, proof).
#[verifier::external_body]
pub(crate) fn bincode_serialize_request(
    user_id: &String,
    public_key: &Vec<u8>,
    r_point: &Vec<u8>,
    s_scalar: &Vec<u8>,
    timestamp: i64,
    nonce: &[u8; 16],
) -> (b: Vec<u8>)
    ensures
        b@ == wire_request((user_id@, public_key@, (r_point@, s_scalar@, timestamp, nonce@))),
{
    bincode::serialize(&(user_id, public_key, (r_point, s_scalar, timestamp, nonce))).expect(
        "serialising into a vector",
    )
}

/// `bincode::deserialize` of the request fields: `Ok` exactly where the
/// layout can be read from the start of `bytes`; the error's text is bincode's.
#[verifier::external_body]
pub(crate) fn bincode_deserialize_request(bytes: &[u8]) -> (res: Result<(String, Vec<u8>, (Vec<u8>, Vec<u8>, i64, [u8; 16])), String>)
    ensures
        (res is Ok) == (read_request(bytes@, 0) is Some),
        res matches Ok(t) ==> (read_request(bytes@, 0) matches Some((f, _)) && f == (
            t.0@,
            t.1@,
            (t.2.0@, t.2.1@, t.2.2, t.2.3@),
        )),
{
    match bincode::deserialize::<(String, Vec<u8>, (Vec<u8>, Vec<u8>, i64, [u8; 16]))>(bytes) {
        Ok(t) => Ok(t),
        Err(e) => Err(e.to_string()),
    }
}

/// `bincode::serialize` of the response fields (user, outcome, message).
#[verifier::external_body]
pub(crate) fn bincode_serialize_response(user_id: &String, success: bool, message: &String) -> (b: Vec<u8>)
    ensures
        b@ == wire_response((user_id@, success, message@)),
{
    bincode::serialize(&(user_id, success, message)).expect("serialising into a vector")
}

/// `bincode::deserialize` of the response fields: `Ok` exactly where the
/// layout can be read from the start of `bytes`; the error's text is bincode's.
#[verifier::external_body]
pub(crate) fn bincode_deserialize_response(bytes: &[u8]) -> (res: Result<(String, bool, String), String>)
    ensures
        (res is Ok) == (read_response(bytes@, 0) is Some),
        res matches Ok(t) ==> (read_response(bytes@, 0) matches Some((f, _)) && f == (t.0@, t.1, t.2@)),
{
    match bincode::deserialize::<(String, bool, String)>(bytes) {
        Ok(t) => Ok(t),
        Err(e) => Err(e.to_string()),
    }
}

/// `bincode::serialize` of the queued request fields (request id, user,
/// public key, proof, timestamp).
#[verifier::external_body]
pub(crate) fn bincode_serialize_queued_request(
    request_id: &String,
    user_id: &String,
    public_key: &Vec<u8>,
    r_point: &Vec<u8>,
    s_scalar: &Vec<u8>,
    proof_timestamp: i64,
    nonce: &[u8; 16],
    timestamp: i64,
) -> (b: Vec<u8>)
    ensures
        b@ == wire_queued_request(
            (request_id@, user_id@, public_key@, (r_point@, s_scalar@, proof_timestamp, nonce@), timestamp),
        ),
{
    bincode::serialize(
        &(request_id, user_id, public_key, (r_point, s_scalar, proof_timestamp, nonce), timestamp),
    ).expect("serialising into a vector")
}

/// `bincode::deserialize` of the queued request fields: `Ok` exactly where
/// the layout can be read from the start of `bytes`; the error's text is
/// bincode's.
#[verifier::external_body]
pub(crate) fn bincode_deserialize_queued_request(bytes: &[u8]) -> (res: Result<
    (String, String, Vec<u8>, (Vec<u8>, Vec<u8>, i64, [u8; 16]), i64),
    String,
>)
    ensures
        (res is Ok) == (read_queued_request(bytes@, 0) is Some),
        res matches Ok(t) ==> (read_queued_request(bytes@, 0) matches Some((f, _)) && f == (
            t.0@,
            t.1@,
            t.2@,
            (t.3.0@, t.3.1@, t.3.2, t.3.3@),
            t.4,
        )),
{
    match bincode::deserialize::<(String, String, Vec<u8>, (Vec<u8>, Vec<u8>, i64, [u8; 16]), i64)>(bytes) {
        Ok(t) => Ok(t),
        Err(e) => Err(e.to_string()),
    }
}

} // verus!
