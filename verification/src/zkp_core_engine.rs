//! Non-interactive Schnorr identification (Fiat-Shamir) on secp256k1, with
//! the commitment bound to a timestamp and a random nonce.

use vstd::prelude::*;

use crate::curve::{
    be_value, generator_mul, generator_times, identity_point, is_point, is_scalar, point_add,
    point_mul, point_sum, point_times, points_equal, random_nonce, random_scalar, scalar_add,
    scalar_is_canonical, scalar_mul, scalar_of, sec1_decode, sec1_decoding, sec1_well_formed,
    sha256, sha256_of, zeroize_bytes,
};
use crate::encoding::{append_bytes, bytes_to_vec, i64_be, i64_to_be_bytes};
use crate::text::{concat, text};
use crate::wire::{
    bincode_deserialize_proof, bincode_serialize_proof, lemma_read_wire_proof, read_proof, wire_proof,
    ProofFields,
};

verus! {

#[verifier::external_type_specification]
#[verifier::external_body]
pub struct ExIoError(std::io::Error);

/// Errors of proof generation, verification and (de)serialisation.
#[derive(Debug)]
pub enum ZkpError {
    MathError,
    SerializationError(String),
    InvalidProof,
    IoError(std::io::Error),
}

impl ZkpError {
    /// The human-readable description of the error.
    pub fn message(&self) -> (msg: String)
        ensures
            self is MathError ==> msg@ == "Mathematical inconsistency during proof generation."@,
            self matches ZkpError::SerializationError(m) ==> msg@ == "Serialization failed: "@ + m@,
            self is InvalidProof ==> msg@ == "Verification failed: Invalid proof."@,
            self matches ZkpError::IoError(e) ==> exists|t: String|
                vstd::string::to_string_from_display_ensures::<std::io::Error>(e, t)
                    && msg@ == "Network/IO error: "@ + t@,
    {
        match self {
            ZkpError::MathError => text("Mathematical inconsistency during proof generation."),
            ZkpError::SerializationError(m) => concat("Serialization failed: ", m.as_str()),
            ZkpError::InvalidProof => text("Verification failed: Invalid proof."),
            ZkpError::IoError(e) => {
                let t = e.to_string();
                concat("Network/IO error: ", t.as_str())
            },
        }
    }
}

/// A serialisation error carrying `msg`.
pub open spec fn is_serialization_error<T>(r: Result<T, ZkpError>, msg: Seq<char>) -> bool {
    r matches Err(ZkpError::SerializationError(m)) && m@ == msg
}

/// A Schnorr proof as it travels on the wire.
#[derive(Debug, Clone, PartialEq, Eq)]
pub struct Proof {
    /// Commitment `R`, compressed SEC1 encoding (33 bytes).
    pub r_point: Vec<u8>,
    /// Response `s`, big-endian scalar (32 bytes).
    pub s_scalar: Vec<u8>,
    /// Unix time in seconds at which the proof was made.
    pub timestamp: i64,
    /// Random 128-bit nonce against replay.
    pub nonce: [u8; 16],
}

/// The fields of a proof as the wire layout describes them.
pub open spec fn proof_fields(p: Proof) -> ProofFields {
    (p.r_point@, p.s_scalar@, p.timestamp, p.nonce@)
}

/// The error of a failed wire read: `prefix` followed by the decoder's text.
pub open spec fn is_decoding_error<T>(r: Result<T, ZkpError>, prefix: Seq<char>) -> bool {
    r matches Err(ZkpError::SerializationError(m)) && m@.len() >= prefix.len() && m@.subrange(0, prefix.len() as int)
        == prefix
}

impl Proof {
    /// The binary wire form of the proof.
    pub fn to_wire_bytes(&self) -> (bytes: Vec<u8>)
        ensures
            bytes@ == wire_proof(proof_fields(*self)),
    {
        bincode_serialize_proof(&self.r_point, &self.s_scalar, self.timestamp, &self.nonce)
    }

    /// The proof whose wire form starts `bytes`.
    pub fn from_wire_bytes(bytes: &[u8]) -> (res: Result<Proof, ZkpError>)
        ensures
            read_proof(bytes@, 0) matches Some((f, _)) ==> (res matches Ok(p) && proof_fields(p) == f),
            read_proof(bytes@, 0) is None ==> is_decoding_error(res, "Failed to deserialize Proof: "@),
    {
        match bincode_deserialize_proof(bytes) {
            Ok(t) => Ok(Proof { r_point: t.0, s_scalar: t.1, timestamp: t.2, nonce: t.3 }),
            Err(e) => {
                let m = concat("Failed to deserialize Proof: ", e.as_str());
                assert(m@.subrange(0, "Failed to deserialize Proof: "@.len() as int) =~= "Failed to deserialize Proof: "@);
                Err(ZkpError::SerializationError(m))
            },
        }
    }
}

impl From<&Proof> for Vec<u8> {
    /// The binary wire form of the proof.
    fn from(proof: &Proof) -> (bytes: Vec<u8>)
        ensures
            bytes@ == wire_proof(proof_fields(*proof)),
    {
        proof.to_wire_bytes()
    }
}

impl vstd::std_specs::convert::FromSpecImpl<&Proof> for Vec<u8> {
    open spec fn obeys_from_spec() -> bool {
        false
    }

    open spec fn from_spec(v: &Proof) -> Vec<u8> {
        vstd::pervasive::arbitrary()
    }
}

impl From<Proof> for Vec<u8> {
    /// The binary wire form of the proof.
    fn from(proof: Proof) -> (bytes: Vec<u8>)
        ensures
            bytes@ == wire_proof(proof_fields(proof)),
    {
        proof.to_wire_bytes()
    }
}

impl vstd::std_specs::convert::FromSpecImpl<Proof> for Vec<u8> {
    open spec fn obeys_from_spec() -> bool {
        false
    }

    open spec fn from_spec(v: Proof) -> Vec<u8> {
        vstd::pervasive::arbitrary()
    }
}

impl<'a> TryFrom<&'a [u8]> for Proof {
    type Error = ZkpError;

    /// The proof whose wire form starts `bytes`.
    fn try_from(bytes: &'a [u8]) -> (res: Result<Proof, ZkpError>)
        ensures
            read_proof(bytes@, 0) matches Some((f, _)) ==> (res matches Ok(p) && proof_fields(p) == f),
            read_proof(bytes@, 0) is None ==> is_decoding_error(res, "Failed to deserialize Proof: "@),
    {
        Proof::from_wire_bytes(bytes)
    }
}

impl<'a> vstd::std_specs::convert::TryFromSpecImpl<&'a [u8]> for Proof {
    open spec fn obeys_try_from_spec() -> bool {
        false
    }

    open spec fn try_from_spec(v: &'a [u8]) -> Result<Proof, ZkpError> {
        vstd::pervasive::arbitrary()
    }
}

impl TryFrom<Vec<u8>> for Proof {
    type Error = ZkpError;

    /// The proof whose wire form starts `bytes`.
    fn try_from(bytes: Vec<u8>) -> (res: Result<Proof, ZkpError>)
        ensures
            read_proof(bytes@, 0) matches Some((f, _)) ==> (res matches Ok(p) && proof_fields(p) == f),
            read_proof(bytes@, 0) is None ==> is_decoding_error(res, "Failed to deserialize Proof: "@),
    {
        Proof::from_wire_bytes(bytes.as_slice())
    }
}

impl vstd::std_specs::convert::TryFromSpecImpl<Vec<u8>> for Proof {
    open spec fn obeys_try_from_spec() -> bool {
        false
    }

    open spec fn try_from_spec(v: Vec<u8>) -> Result<Proof, ZkpError> {
        vstd::pervasive::arbitrary()
    }
}

/// Reading the wire form of a proof gives the proof back.
pub proof fn lemma_proof_wire_roundtrip(p: Proof)
    ensures
        read_proof(wire_proof(proof_fields(p)), 0) == Some(
            (proof_fields(p), wire_proof(proof_fields(p)).len() as int),
        ),
{
    let f = proof_fields(p);
    let w = wire_proof(f);
    let e = Seq::<u8>::empty();
    assert(e + w + e =~= w);
    assert(f.3.len() == 16);
    assert(p.r_point.len() <= usize::MAX && p.s_scalar.len() <= usize::MAX);
    lemma_read_wire_proof(e, f, e);
}

/// The engine: proof generation and verification.
pub struct ZkpEngine;

/// A secret key: a scalar of secp256k1.
#[derive(Debug)]
pub struct UserSecretKey {
    scalar: [u8; 32],
}

/// A public key: a point of secp256k1.
#[derive(Debug, PartialEq, Eq)]
pub struct UserPublicKey {
    point: Vec<u8>,
}

impl View for UserSecretKey {
    type V = Seq<u8>;

    /// The big-endian encoding of the secret scalar.
    closed spec fn view(&self) -> Seq<u8> {
        self.scalar@
    }
}

impl View for UserPublicKey {
    type V = Seq<u8>;

    /// The compressed SEC1 encoding of the public point.
    closed spec fn view(&self) -> Seq<u8> {
        self.point@
    }
}

/// Copies 32 bytes into an array.
fn to_array32(v: &[u8]) -> (a: [u8; 32])
    requires
        v@.len() == 32,
    ensures
        a@ == v@,
{
    let mut a = [0u8; 32];
    let mut i: usize = 0;
    while i < 32
        invariant
            v@.len() == 32,
            i <= 32,
            forall|j: int| 0 <= j < i ==> a@[j] == v@[j],
        decreases 32 - i,
    {
        a[i] = v[i];
        i = i + 1;
    }
    assert(a@ =~= v@);
    a
}

impl UserSecretKey {
    #[verifier::type_invariant]
    spec fn is_canonical(self) -> bool {
        is_scalar(self.scalar@)
    }

    /// A fresh secret key drawn uniformly from the scalars.
    pub fn generate() -> (sk: Self)
        ensures
            is_scalar(sk@),
    {
        let k = random_scalar();
        UserSecretKey { scalar: to_array32(k.as_slice()) }
    }

    /// The public key `G * sk`.
    pub fn public_key(&self) -> (pk: UserPublicKey)
        ensures
            is_scalar(self@),
            pk@ == generator_times(self@),
            forall|b: Seq<u8>| is_scalar(b) && #[trigger] generator_times(b) == pk@ ==> b == self@,
    {
        proof {
            use_type_invariant(self);
        }
        UserPublicKey { point: generator_mul(&self.scalar) }
    }

    /// The public key `G * sk` (the older spelling).
    #[allow(non_snake_case)]
    pub fn publicKey(&self) -> (pk: UserPublicKey)
        ensures
            is_scalar(self@),
            pk@ == generator_times(self@),
            forall|b: Seq<u8>| is_scalar(b) && #[trigger] generator_times(b) == pk@ ==> b == self@,
    {
        self.public_key()
    }

    /// The 32-byte big-endian encoding of the secret scalar.
    pub fn to_bytes(&self) -> (bytes: Vec<u8>)
        ensures
            bytes@ == self@,
            is_scalar(bytes@),
    {
        proof {
            use_type_invariant(self);
        }
        bytes_to_vec(&self.scalar)
    }

    /// The key that a 32-byte big-endian encoding denotes.
    pub fn from_bytes(bytes: &[u8]) -> (res: Result<Self, ZkpError>)
        ensures
            bytes@.len() != 32 ==> is_serialization_error(res, "Secret key must be exactly 32 bytes"@),
            bytes@.len() == 32 && !is_scalar(bytes@) ==> is_serialization_error(
                res,
                "Invalid scalar bytes for Secp256k1"@,
            ),
            is_scalar(bytes@) ==> (res matches Ok(sk) && sk@ == bytes@),
    {
        if bytes.len() != 32 {
            return Err(ZkpError::SerializationError(text("Secret key must be exactly 32 bytes")));
        }
        if !scalar_is_canonical(bytes) {
            return Err(ZkpError::SerializationError(text("Invalid scalar bytes for Secp256k1")));
        }
        Ok(UserSecretKey { scalar: to_array32(bytes) })
    }

    /// Overwrites the secret with zero.
    pub fn zeroize(&mut self)
        ensures
            final(self)@ == Seq::new(32, |i: int| 0u8),
    {
        let ghost zero = Seq::new(32, |i: int| 0u8);
        proof {
            assert(be_value(zero) == 0) by {
                lemma_be_value_zeros(zero);
            }
        }
        zeroize_bytes(&mut self.scalar);
    }
}

impl Clone for UserSecretKey {
    fn clone(&self) -> (sk: Self)
        ensures
            sk@ == self@,
    {
        proof {
            use_type_invariant(self);
        }
        UserSecretKey { scalar: self.scalar }
    }
}

impl Drop for UserSecretKey {
    /// Wipes the secret when the key goes out of scope.
    fn drop(&mut self)
        opens_invariants none
        no_unwind
    {
        let ghost zero = Seq::new(32, |i: int| 0u8);
        proof {
            assert(be_value(zero) == 0) by {
                lemma_be_value_zeros(zero);
            }
        }
        zeroize_bytes(&mut self.scalar);
    }
}

/// An all-zero byte string denotes zero.
proof fn lemma_be_value_zeros(z: Seq<u8>)
    requires
        forall|i: int| 0 <= i < z.len() ==> z[i] == 0,
    ensures
        be_value(z) == 0,
    decreases z.len(),
{
    if z.len() > 0 {
        lemma_be_value_zeros(z.drop_last());
    }
}

impl Clone for UserPublicKey {
    fn clone(&self) -> (pk: Self)
        ensures
            pk@ == self@,
    {
        proof {
            use_type_invariant(self);
        }
        UserPublicKey { point: bytes_to_vec(self.point.as_slice()) }
    }
}

impl UserPublicKey {
    #[verifier::type_invariant]
    spec fn is_curve_point(self) -> bool {
        is_point(self.point@)
    }

    /// The compressed SEC1 encoding (33 bytes).
    pub fn to_bytes(&self) -> (bytes: Vec<u8>)
        ensures
            bytes@ == self@,
            is_point(self@),
    {
        proof {
            use_type_invariant(self);
        }
        bytes_to_vec(self.point.as_slice())
    }

    /// The key that an SEC1 encoding denotes.
    pub fn from_bytes(bytes: &[u8]) -> (res: Result<Self, ZkpError>)
        ensures
            !sec1_well_formed(bytes@) ==> is_serialization_error(
                res,
                "Invalid public key bytes: elliptic curve point encoding error"@,
            ),
            sec1_well_formed(bytes@) && sec1_decoding(bytes@) is None ==> is_serialization_error(
                res,
                "Point not on Secp256k1 curve"@,
            ),
            sec1_decoding(bytes@) matches Some(p) ==> (res matches Ok(pk) && pk@ == p),
    {
        proof {
            reveal_strlit("Invalid public key bytes: ");
            reveal_strlit("elliptic curve point encoding error");
            reveal_strlit("Invalid public key bytes: elliptic curve point encoding error");
            assert("Invalid public key bytes: "@ + "elliptic curve point encoding error"@
                =~= "Invalid public key bytes: elliptic curve point encoding error"@);
        }
        match sec1_decode(bytes) {
            Err(e) => Err(ZkpError::SerializationError(concat("Invalid public key bytes: ", e.as_str()))),
            Ok(None) => Err(ZkpError::SerializationError(text("Point not on Secp256k1 curve"))),
            Ok(Some(p)) => Ok(UserPublicKey { point: p }),
        }
    }
}

/// Decoding the encoding of a public key other than the identity gives the
/// same key back: for such a key, `from_bytes(&pk.to_bytes())` is `Ok` with
/// `pk`'s view.
pub proof fn lemma_public_key_roundtrip(y: Seq<u8>)
    requires
        is_point(y),
        y != identity_point(),
    ensures
        sec1_decoding(y) == Some(y),
{
}

/// The message that the challenge hashes: `R || Y || timestamp (big-endian) || nonce`.
pub open spec fn challenge_preimage(r: Seq<u8>, y: Seq<u8>, timestamp: i64, nonce: Seq<u8>) -> Seq<u8> {
    r + y + i64_be(timestamp) + nonce
}

/// The layout of the hashed message: its length, and the nonce bytes at its
/// end.
proof fn lemma_preimage_tail(r: Seq<u8>, y: Seq<u8>, t: i64, n: Seq<u8>)
    requires
        n.len() == 16,
    ensures
        challenge_preimage(r, y, t, n).len() == r.len() + y.len() + 8 + 16,
        forall|i: int|
            0 <= i < 16 ==> #[trigger] challenge_preimage(r, y, t, n)[r.len() + y.len() + 8 + i] == n[i],
{
    let head = r + y + i64_be(t);
    assert(i64_be(t).len() == 8);
    assert(challenge_preimage(r, y, t, n) == head + n);
    assert forall|i: int| 0 <= i < 16 implies #[trigger] challenge_preimage(r, y, t, n)[r.len() + y.len() + 8 + i]
        == n[i] by {
        assert((head + n)[head.len() + i] == n[i]);
    }
}

/// The challenge binds the whole nonce: the hashed message ends with the 16
/// nonce bytes, after the commitment, the key and the 8 timestamp bytes, so
/// two nonces that differ in any byte give different messages to hash.
pub proof fn lemma_challenge_binds_nonce(r: Seq<u8>, y: Seq<u8>, t: i64, n1: Seq<u8>, n2: Seq<u8>)
    requires
        n1.len() == 16,
        n2.len() == 16,
    ensures
        challenge_preimage(r, y, t, n1).len() == r.len() + y.len() + 8 + 16,
        forall|i: int|
            0 <= i < 16 ==> #[trigger] challenge_preimage(r, y, t, n1)[r.len() + y.len() + 8 + i] == n1[i],
        n1 != n2 ==> challenge_preimage(r, y, t, n1) != challenge_preimage(r, y, t, n2),
{
    lemma_preimage_tail(r, y, t, n1);
    lemma_preimage_tail(r, y, t, n2);
    let off = r.len() + y.len() + 8;
    if challenge_preimage(r, y, t, n1) == challenge_preimage(r, y, t, n2) {
        assert forall|j: int| 0 <= j < 16 implies n1[j] == n2[j] by {
            assert(challenge_preimage(r, y, t, n1)[off + j] == n1[j]);
            assert(challenge_preimage(r, y, t, n2)[off + j] == n2[j]);
        }
        assert(n1 =~= n2);
    }
}

/// The SHA-256 digest that becomes the challenge scalar.
pub open spec fn challenge_digest(r: Seq<u8>, y: Seq<u8>, timestamp: i64, nonce: Seq<u8>) -> Seq<u8> {
    sha256_of(challenge_preimage(r, y, timestamp, nonce))
}

/// What verification of `proof` against the public key `y` comes to.
pub enum Verdict {
    /// The commitment is not SEC1-framed.
    MalformedCommitment,
    /// The response is not 32 bytes long, or the challenge digest is no
    /// scalar: the computation cannot go on.
    Aborts,
    /// The commitment is off the curve or the response is no scalar.
    InvalidEncoding,
    /// The verification equation `G s == R + Y e` holds or not.
    Decided(bool),
}

pub open spec fn verdict(y: Seq<u8>, proof: Proof) -> Verdict {
    let s = proof.s_scalar@;
    if !sec1_well_formed(proof.r_point@) {
        Verdict::MalformedCommitment
    } else if s.len() != 32 {
        Verdict::Aborts
    } else {
        match sec1_decoding(proof.r_point@) {
            None => Verdict::InvalidEncoding,
            Some(r) => if !is_scalar(s) {
                Verdict::InvalidEncoding
            } else {
                let e = challenge_digest(r, y, proof.timestamp, proof.nonce@);
                if !is_scalar(e) {
                    Verdict::Aborts
                } else {
                    Verdict::Decided(generator_times(s) == point_sum(r, point_times(y, e)))
                }
            },
        }
    }
}

/// The Schnorr response for commitment scalar `k`, secret `x` and challenge
/// `e`: `k + e x mod n`.
pub open spec fn response(k: Seq<u8>, x: Seq<u8>, e: Seq<u8>) -> Seq<u8> {
    scalar_of(be_value(k) + be_value(scalar_of(be_value(e) * be_value(x))))
}

/// The commitment of `proof` is the point `G k` for the scalar `k`, and its
/// challenge for key `y` is a canonical scalar.
pub open spec fn committed_with(y: Seq<u8>, proof: Proof, k: Seq<u8>) -> bool {
    &&& is_scalar(k)
    &&& proof.r_point@ == generator_times(k)
    &&& is_point(proof.r_point@)
    &&& is_scalar(challenge_digest(proof.r_point@, y, proof.timestamp, proof.nonce@))
}

/// `proof` was made by the prover with secret `x` for public key `y`:
/// `R = G k` for a scalar `k` and `s = k + e x mod n` with `e` the challenge.
pub open spec fn honestly_generated(x: Seq<u8>, y: Seq<u8>, proof: Proof) -> bool {
    exists|k: Seq<u8>|
        #![trigger committed_with(y, proof, k)]
        committed_with(y, proof, k) && proof.s_scalar@ == response(
            k,
            x,
            challenge_digest(proof.r_point@, y, proof.timestamp, proof.nonce@),
        )
}

/// The commitment scalar of an honestly generated proof.
pub open spec fn commitment_scalar(x: Seq<u8>, y: Seq<u8>, proof: Proof) -> Seq<u8> {
    choose|k: Seq<u8>|
        #![trigger committed_with(y, proof, k)]
        committed_with(y, proof, k) && proof.s_scalar@ == response(
            k,
            x,
            challenge_digest(proof.r_point@, y, proof.timestamp, proof.nonce@),
        )
}

/// What the prover makes with secret `x` for key `y`, timestamp `t`,
/// commitment scalar `k` and nonce `n`: the proof `(G k, k + e x, t, n)`,
/// or `MathError` where the challenge digest `e` is no scalar.
pub open spec fn proof_outcome(
    x: Seq<u8>,
    y: Seq<u8>,
    t: i64,
    k: Seq<u8>,
    n: Seq<u8>,
    res: Result<Proof, ZkpError>,
) -> bool {
    let r = generator_times(k);
    let e = challenge_digest(r, y, t, n);
    if is_scalar(e) {
        res matches Ok(p) && p.r_point@ == r && is_point(r) && p.s_scalar@ == response(k, x, e) && p.timestamp
            == t && p.nonce@ == n
    } else {
        res matches Err(err) && err is MathError
    }
}

/// What an honestly generated proof with a non-identity commitment brings
/// along: a commitment that decodes to itself, a canonical response and a
/// canonical challenge.
proof fn lemma_honest_proof(x: Seq<u8>, y: Seq<u8>, proof: Proof)
    requires
        honestly_generated(x, y, proof),
        proof.r_point@ != identity_point(),
    ensures
        committed_with(y, proof, commitment_scalar(x, y, proof)),
        sec1_decoding(proof.r_point@) == Some(proof.r_point@),
        is_scalar(proof.s_scalar@),
        proof.s_scalar@ == response(
            commitment_scalar(x, y, proof),
            x,
            challenge_digest(proof.r_point@, y, proof.timestamp, proof.nonce@),
        ),
{
    let k = commitment_scalar(x, y, proof);
    let d = challenge_digest(proof.r_point@, y, proof.timestamp, proof.nonce@);
    crate::curve::lemma_scalar_of(be_value(k) + be_value(scalar_of(be_value(d) * be_value(x))));
}

/// Where the commitment does not decode to itself, the response is no
/// canonical scalar or the challenge is none, no honestly generated proof
/// with a non-identity commitment is at hand: verification stops before the
/// equation only on proofs that were not made honestly.
proof fn lemma_equation_unreached(y: Seq<u8>, proof: Proof)
    requires
        !(sec1_decoding(proof.r_point@) == Some(proof.r_point@) && is_scalar(proof.s_scalar@) && is_scalar(
            challenge_digest(proof.r_point@, y, proof.timestamp, proof.nonce@),
        )),
    ensures
        forall|x: Seq<u8>|
            is_scalar(x) && y == #[trigger] generator_times(x) && honestly_generated(x, y, proof) && proof.r_point@
                != identity_point() ==> false,
{
    assert forall|x: Seq<u8>|
        is_scalar(x) && y == #[trigger] generator_times(x) && honestly_generated(x, y, proof) && proof.r_point@
            != identity_point() implies false by {
        lemma_honest_proof(x, y, proof);
        crate::curve::lemma_scalar_of(
            be_value(commitment_scalar(x, y, proof)) + be_value(
                scalar_of(be_value(challenge_digest(proof.r_point@, y, proof.timestamp, proof.nonce@)) * be_value(x)),
            ),
        );
    }
}

/// Verification runs to its end, with `Ok` or `Err`, on every proof whose
/// response is 32 bytes long or whose commitment is not SEC1-framed, save
/// where the challenge digest of the decoded commitment is no scalar.
pub proof fn lemma_verify_runs(y: Seq<u8>, proof: Proof)
    requires
        proof.s_scalar@.len() == 32 || !sec1_well_formed(proof.r_point@),
    ensures
        verdict(y, proof) is Aborts ==> (sec1_decoding(proof.r_point@) matches Some(r) && !is_scalar(
            challenge_digest(r, y, proof.timestamp, proof.nonce@),
        )),
{
}

impl ZkpEngine {
    /// The challenge scalar for commitment `r`, public key `y`, timestamp and
    /// nonce: the SHA-256 digest of `r || y || timestamp (big-endian) ||
    /// nonce` read as a big-endian integer, or `None` where that is not below
    /// the group order. It depends on its arguments alone.
    pub fn compute_challenge(r: &[u8], y: &[u8], timestamp: i64, nonce: &[u8; 16]) -> (e: Option<Vec<u8>>)
        ensures
            e matches Some(d) ==> d@ == challenge_digest(r@, y@, timestamp, nonce@) && is_scalar(d@),
            e is None ==> !is_scalar(challenge_digest(r@, y@, timestamp, nonce@)),
    {
        let mut msg: Vec<u8> = Vec::new();
        append_bytes(&mut msg, r);
        append_bytes(&mut msg, y);
        let ts = i64_to_be_bytes(timestamp);
        append_bytes(&mut msg, ts.as_slice());
        append_bytes(&mut msg, nonce);
        assert(msg@ =~= challenge_preimage(r@, y@, timestamp, nonce@));
        let digest = sha256(msg.as_slice());
        if scalar_is_canonical(digest.as_slice()) {
            Some(digest)
        } else {
            None
        }
    }

    /// The proof made with commitment scalar `k` and nonce `nonce` at
    /// `timestamp`: `R = G k`, `s = k + e x mod n`. It fails with `MathError`
    /// exactly where the challenge digest is not below the group order.
    pub fn proof_from(
        secret: &UserSecretKey,
        public_key: &UserPublicKey,
        timestamp: i64,
        k: &[u8],
        nonce: [u8; 16],
    ) -> (res: Result<Proof, ZkpError>)
        requires
            is_scalar(k@),
        ensures
            proof_outcome(secret@, public_key@, timestamp, k@, nonce@, res),
            res matches Ok(p) ==> committed_with(public_key@, p, k@) && honestly_generated(secret@, public_key@, p),
    {
        proof {
            use_type_invariant(secret);
            use_type_invariant(public_key);
        }
        let r_point = generator_mul(k);
        let e = match Self::compute_challenge(r_point.as_slice(), public_key.point.as_slice(), timestamp, &nonce) {
            Some(e) => e,
            None => return Err(ZkpError::MathError),
        };
        let ex = scalar_mul(e.as_slice(), &secret.scalar);
        proof {
            crate::curve::lemma_scalar_of(be_value(e@) * be_value(secret.scalar@));
        }
        let s_scalar = scalar_add(k, ex.as_slice());
        let p = Proof { r_point, s_scalar, timestamp, nonce };
        assert(committed_with(public_key@, p, k@));
        Ok(p)
    }

    /// A proof for the current Unix time.
    pub fn generate_proof(secret: &UserSecretKey, public_key: &UserPublicKey) -> (res: Result<Proof, ZkpError>)
        ensures
            exists|t: i64, k: Seq<u8>, n: Seq<u8>|
                crate::clock::is_seconds_reading(t as int) && is_scalar(k) && n.len() == 16 && #[trigger] proof_outcome(secret@, public_key@, t, k, n, res),
            res matches Ok(p) ==> honestly_generated(secret@, public_key@, p),
    {
        let now = crate::clock::unix_time_now();
        Self::generate_proof_with_time(secret, public_key, now)
    }

    /// A proof bound to `timestamp`, made with a fresh random commitment
    /// scalar and nonce (see `proof_from`).
    pub fn generate_proof_with_time(secret: &UserSecretKey, public_key: &UserPublicKey, timestamp: i64) -> (res:
        Result<Proof, ZkpError>)
        ensures
            exists|k: Seq<u8>, n: Seq<u8>|
                is_scalar(k) && n.len() == 16 && #[trigger] proof_outcome(secret@, public_key@, timestamp, k, n, res),
            res matches Ok(p) ==> p.timestamp == timestamp && honestly_generated(secret@, public_key@, p),
    {
        let nonce = random_nonce();
        let k = random_scalar();
        Self::proof_from(secret, public_key, timestamp, k.as_slice(), nonce)
    }

    /// Whether the proof's timestamp lies within `max_drift_secs` of `now`.
    pub fn is_fresh_at(proof: &Proof, max_drift_secs: i64, now: i64) -> (fresh: bool)
        requires
            crate::clock::fits_i64_distance(now, proof.timestamp),
        ensures
            fresh == crate::clock::within(now, proof.timestamp, max_drift_secs),
    {
        let diff = now - proof.timestamp;
        let dist = if diff < 0 { -diff } else { diff };
        dist <= max_drift_secs
    }

    /// Whether the proof's timestamp lies within `max_drift_secs` of the
    /// current Unix time; `None` where their distance does not fit in an `i64`.
    pub fn is_fresh(proof: &Proof, max_drift_secs: i64) -> (fresh: Option<bool>)
        ensures
            fresh matches Some(f) ==> exists|now: i64|
                crate::clock::is_seconds_reading(now as int) && crate::clock::fits_i64_distance(now, proof.timestamp) && f == #[trigger] crate::clock::within(
                    now,
                    proof.timestamp,
                    max_drift_secs,
                ),
            fresh is None ==> exists|now: i64|
                crate::clock::is_seconds_reading(now as int) && !#[trigger] crate::clock::fits_i64_distance(
                    now,
                    proof.timestamp,
                ),
    {
        let now = crate::clock::unix_time_now();
        if crate::clock::difference_fits(now, proof.timestamp) {
            Some(Self::is_fresh_at(proof, max_drift_secs, now))
        } else {
            None
        }
    }

    /// Verification where it can run to its end: `None` exactly where the
    /// response is not 32 bytes long (for a well-framed commitment) or the
    /// challenge digest is no scalar.
    ///
    /// For a key `Y = G x` and a commitment `R = G k` (not the identity) with
    /// a canonical challenge `e`, a canonical response `s` verifies exactly
    /// when `s = k + e x mod n`: an honest proof verifies and any other
    /// response is refused.
    #[verifier::rlimit(60)]
    #[verifier::spinoff_prover]
    pub fn try_verify(public_key: &UserPublicKey, proof: &Proof) -> (res: Option<Result<bool, ZkpError>>)
        ensures
            match verdict(public_key@, *proof) {
                Verdict::MalformedCommitment => res matches Some(r) && is_serialization_error(
                    r,
                    "Invalid R point length/format"@,
                ),
                Verdict::Aborts => res is None,
                Verdict::InvalidEncoding => res matches Some(r) && is_serialization_error(
                    r,
                    "Invalid point encoding"@,
                ),
                Verdict::Decided(b) => res == Some(Ok::<bool, ZkpError>(b)),
            },
            forall|x: Seq<u8>, k: Seq<u8>|
                #![trigger generator_times(x), committed_with(public_key@, *proof, k)]
                is_scalar(x) && public_key@ == generator_times(x) && committed_with(public_key@, *proof, k)
                    && proof.r_point@ != identity_point() && is_scalar(proof.s_scalar@) ==> res == Some(
                    Ok::<bool, ZkpError>(
                        proof.s_scalar@ == response(
                            k,
                            x,
                            challenge_digest(proof.r_point@, public_key@, proof.timestamp, proof.nonce@),
                        ),
                    ),
                ),
            forall|x: Seq<u8>|
                is_scalar(x) && public_key@ == #[trigger] generator_times(x) && honestly_generated(
                    x,
                    public_key@,
                    *proof,
                ) && proof.r_point@ != identity_point() ==> res == Some(Ok::<bool, ZkpError>(true)),
    {
        proof {
            use_type_invariant(public_key);
        }
        let r = match sec1_decode(proof.r_point.as_slice()) {
            Err(_) => {
                proof {
                    lemma_equation_unreached(public_key@, *proof);
                }
                return Some(Err(ZkpError::SerializationError(text("Invalid R point length/format"))));
            },
            Ok(r) => r,
        };
        if proof.s_scalar.len() != 32 {
            proof {
                lemma_equation_unreached(public_key@, *proof);
            }
            return None;
        }
        let s_ok = scalar_is_canonical(proof.s_scalar.as_slice());
        let r = match r {
            Some(r) => r,
            None => {
                proof {
                    lemma_equation_unreached(public_key@, *proof);
                }
                return Some(Err(ZkpError::SerializationError(text("Invalid point encoding"))));
            },
        };
        if !s_ok {
            proof {
                lemma_equation_unreached(public_key@, *proof);
            }
            return Some(Err(ZkpError::SerializationError(text("Invalid point encoding"))));
        }
        let e = match Self::compute_challenge(r.as_slice(), public_key.point.as_slice(), proof.timestamp, &proof.nonce) {
            Some(e) => e,
            None => {
                proof {
                    lemma_equation_unreached(public_key@, *proof);
                }
                return None;
            },
        };
        let lhs = generator_mul(proof.s_scalar.as_slice());
        let ye = point_mul(public_key.point.as_slice(), e.as_slice());
        let rhs = point_add(r.as_slice(), ye.as_slice());
        let eq = points_equal(lhs.as_slice(), rhs.as_slice());
        proof {
            assert forall|x: Seq<u8>, k: Seq<u8>|
                #![trigger generator_times(x), committed_with(public_key@, *proof, k)]
                is_scalar(x) && public_key@ == generator_times(x) && committed_with(public_key@, *proof, k)
                    && proof.r_point@ != identity_point() && is_scalar(proof.s_scalar@) implies eq == (
                proof.s_scalar@ == response(
                    k,
                    x,
                    challenge_digest(proof.r_point@, public_key@, proof.timestamp, proof.nonce@),
                )) by {
                lemma_committed_verifies(x, k, *proof, public_key@, r@, e@, ye@, rhs@, lhs@);
            }
            assert forall|x: Seq<u8>|
                is_scalar(x) && public_key@ == #[trigger] generator_times(x) && honestly_generated(
                    x,
                    public_key@,
                    *proof,
                ) && proof.r_point@ != identity_point() implies eq by {
                lemma_honest_proof(x, public_key@, *proof);
                let k = commitment_scalar(x, public_key@, *proof);
                lemma_committed_verifies(x, k, *proof, public_key@, r@, e@, ye@, rhs@, lhs@);
            }
        }
        Some(Ok(eq))
    }

    /// Schnorr verification: `G s == R + Y e` with `e` recomputed from the
    /// commitment, the public key, the timestamp and the nonce. Errors where
    /// the commitment or the response is not a valid encoding.
    pub fn verify(public_key: &UserPublicKey, proof: &Proof) -> (res: Result<bool, ZkpError>)
        requires
            !(verdict(public_key@, *proof) is Aborts),
        ensures
            verdict(public_key@, *proof) is MalformedCommitment ==> is_serialization_error(
                res,
                "Invalid R point length/format"@,
            ),
            verdict(public_key@, *proof) is InvalidEncoding ==> is_serialization_error(
                res,
                "Invalid point encoding"@,
            ),
            verdict(public_key@, *proof) matches Verdict::Decided(b) ==> res == Ok::<bool, ZkpError>(b),
            forall|x: Seq<u8>, k: Seq<u8>|
                #![trigger generator_times(x), committed_with(public_key@, *proof, k)]
                is_scalar(x) && public_key@ == generator_times(x) && committed_with(public_key@, *proof, k)
                    && proof.r_point@ != identity_point() && is_scalar(proof.s_scalar@) ==> res == Ok::<
                    bool,
                    ZkpError,
                >(
                    proof.s_scalar@ == response(
                        k,
                        x,
                        challenge_digest(proof.r_point@, public_key@, proof.timestamp, proof.nonce@),
                    ),
                ),
            forall|x: Seq<u8>|
                is_scalar(x) && public_key@ == #[trigger] generator_times(x) && honestly_generated(
                    x,
                    public_key@,
                    *proof,
                ) && proof.r_point@ != identity_point() ==> res == Ok::<bool, ZkpError>(true),
    {
        let r = Self::try_verify(public_key, proof);
        r.unwrap()
    }
}

/// The verification equation for a committed proof: with `Y = G x`,
/// `R = G k`, `Y e` and `R + Y e` as the point operations give them and
/// `G s` as the generator's product, `G s == R + Y e` exactly where
/// `s = k + e x mod n`.
proof fn lemma_committed_verifies(
    x: Seq<u8>,
    k: Seq<u8>,
    proof: Proof,
    y: Seq<u8>,
    r: Seq<u8>,
    e: Seq<u8>,
    ye: Seq<u8>,
    rhs: Seq<u8>,
    lhs: Seq<u8>,
)
    requires
        is_scalar(x),
        y == generator_times(x),
        committed_with(y, proof, k),
        r == proof.r_point@,
        e == challenge_digest(r, y, proof.timestamp, proof.nonce@),
        is_scalar(e),
        is_scalar(proof.s_scalar@),
        forall|a: Seq<u8>|
            is_scalar(a) && y == #[trigger] generator_times(a) ==> ye == generator_times(
                scalar_of(be_value(a) * be_value(e)),
            ),
        forall|a: Seq<u8>, b: Seq<u8>|
            #![trigger generator_times(a), generator_times(b)]
            is_scalar(a) && is_scalar(b) && r == generator_times(a) && ye == generator_times(b) ==> rhs
                == generator_times(scalar_of(be_value(a) + be_value(b))),
        lhs == generator_times(proof.s_scalar@),
        forall|b: Seq<u8>| is_scalar(b) && #[trigger] generator_times(b) == lhs ==> b == proof.s_scalar@,
    ensures
        (lhs == rhs) == (proof.s_scalar@ == response(k, x, e)),
{
    let z = scalar_of(be_value(x) * be_value(e));
    crate::curve::lemma_scalar_of(be_value(x) * be_value(e));
    assert(ye == generator_times(z));
    assert(rhs == generator_times(scalar_of(be_value(k) + be_value(z))));
    assert(be_value(x) * be_value(e) == be_value(e) * be_value(x)) by (nonlinear_arith);
    assert(scalar_of(be_value(k) + be_value(z)) == response(k, x, e));
    crate::curve::lemma_scalar_of(be_value(k) + be_value(z));
    if lhs == rhs {
        assert(generator_times(response(k, x, e)) == lhs);
    }
}

} // verus!
