//! Scalar and point arithmetic of secp256k1, SHA-256, and the randomness
//! that the protocol draws.
//!
//! Scalars are carried as their 32-byte big-endian encoding and points as
//! their 33-byte compressed SEC1 encoding (the identity as 33 zero bytes),
//! exactly the byte strings that `k256` produces with `to_bytes`.

use vstd::prelude::*;

use k256::elliptic_curve::group::GroupEncoding;
use k256::elliptic_curve::sec1::FromEncodedPoint;

verus! {

/// The order `n` of the secp256k1 group.
pub open spec fn group_order() -> nat {
    0xFFFFFFFFFFFFFFFFFFFFFFFFFFFFFFFEBAAEDCE6AF48A03BBFD25E8CD0364141nat
}

/// The natural number that a big-endian byte string denotes.
pub open spec fn be_value(bytes: Seq<u8>) -> nat
    decreases bytes.len(),
{
    if bytes.len() == 0 {
        0
    } else {
        be_value(bytes.drop_last()) * 256 + bytes.last() as nat
    }
}

/// The `len`-byte big-endian encoding of `v` modulo `256^len`.
pub open spec fn be_encode(v: nat, len: nat) -> Seq<u8>
    decreases len,
{
    if len == 0 {
        Seq::empty()
    } else {
        be_encode(v / 256, (len - 1) as nat).push((v % 256) as u8)
    }
}

/// A canonical scalar encoding: 32 bytes whose value is below the group order.
pub open spec fn is_scalar(bytes: Seq<u8>) -> bool {
    bytes.len() == 32 && be_value(bytes) < group_order()
}

/// The canonical encoding of the scalar `v mod n`.
pub open spec fn scalar_of(v: nat) -> Seq<u8> {
    be_encode(v % group_order(), 32)
}

/// The encoding of the point at infinity that `to_bytes` produces.
pub open spec fn identity_point() -> Seq<u8> {
    Seq::new(33, |i: int| 0u8)
}

/// The SEC1 decoding of `bytes` as k256 performs it
/// (`EncodedPoint::from_bytes` followed by `ProjectivePoint::from_encoded_point`),
/// given back as the compressed encoding of the decoded point.
pub uninterp spec fn sec1_decoding(bytes: Seq<u8>) -> Option<Seq<u8>>;

/// The compressed encoding of `G * k` for the secp256k1 generator `G`.
pub uninterp spec fn generator_times(k: Seq<u8>) -> Seq<u8>;

/// The compressed encoding of `P * k`.
pub uninterp spec fn point_times(p: Seq<u8>, k: Seq<u8>) -> Seq<u8>;

/// The compressed encoding of `P + Q`.
pub uninterp spec fn point_sum(p: Seq<u8>, q: Seq<u8>) -> Seq<u8>;

/// The SHA-256 digest of `data`.
pub uninterp spec fn sha256_of(data: Seq<u8>) -> Seq<u8>;

/// The encoding of some point of the curve: what `to_bytes` gives back.
pub open spec fn is_point(bytes: Seq<u8>) -> bool {
    bytes.len() == 33 && (bytes == identity_point() || sec1_decoding(bytes) == Some(bytes))
}

/// Big-endian encodings of equal length and equal value are equal.
pub proof fn lemma_be_value_injective(a: Seq<u8>, b: Seq<u8>)
    requires
        a.len() == b.len(),
        be_value(a) == be_value(b),
    ensures
        a == b,
    decreases a.len(),
{
    if a.len() > 0 {
        let a0 = a.drop_last();
        let b0 = b.drop_last();
        assert(be_value(a) == be_value(a0) * 256 + a.last() as nat);
        assert(be_value(b) == be_value(b0) * 256 + b.last() as nat);
        assert(be_value(a0) == be_value(b0) && a.last() == b.last()) by (nonlinear_arith)
            requires
                be_value(a0) * 256 + a.last() as nat == be_value(b0) * 256 + b.last() as nat,
                a.last() < 256,
                b.last() < 256,
        ;
        lemma_be_value_injective(a0, b0);
        assert(a =~= a0.push(a.last()));
        assert(b =~= b0.push(b.last()));
    }
}

/// `be_encode` has the requested length.
pub proof fn lemma_be_encode_len(v: nat, len: nat)
    ensures
        be_encode(v, len).len() == len,
    decreases len,
{
    if len > 0 {
        lemma_be_encode_len(v / 256, (len - 1) as nat);
    }
}

/// The value of a byte string is below `256^len`.
pub proof fn lemma_be_value_bound(b: Seq<u8>)
    ensures
        be_value(b) < vstd::arithmetic::power::pow(256, b.len()),
    decreases b.len(),
{
    reveal(vstd::arithmetic::power::pow);
    if b.len() > 0 {
        lemma_be_value_bound(b.drop_last());
        let p = vstd::arithmetic::power::pow(256, (b.len() - 1) as nat);
        assert(be_value(b.drop_last()) * 256 + (b.last() as nat) < p * 256) by (nonlinear_arith)
            requires
                be_value(b.drop_last()) < p,
                b.last() < 256,
        ;
    }
}

/// Decoding an encoding gives the value back, modulo `256^len`.
pub proof fn lemma_be_encode_value(v: nat, len: nat)
    ensures
        be_value(be_encode(v, len)) as int == (v as int) % vstd::arithmetic::power::pow(256, len),
    decreases len,
{
    reveal(vstd::arithmetic::power::pow);
    if len == 0 {
        assert(be_encode(v, len) =~= Seq::<u8>::empty());
    } else {
        lemma_be_encode_value(v / 256, (len - 1) as nat);
        let p = vstd::arithmetic::power::pow(256, (len - 1) as nat);
        vstd::arithmetic::power::lemma_pow_positive(256, (len - 1) as nat);
        let e = be_encode(v, len);
        assert(e.drop_last() =~= be_encode(v / 256, (len - 1) as nat));
        assert(e.last() == (v % 256) as u8);
        vstd::arithmetic::div_mod::lemma_breakdown(v as int, 256, p);
        assert(256 * p == p * 256) by (nonlinear_arith);
        assert(((v / 256) as int % p) * 256 == 256 * ((v as int / 256) % p)) by (nonlinear_arith);
    }
}

/// `256^32` exceeds the group order.
proof fn lemma_pow256_32()
    ensures
        vstd::arithmetic::power::pow(256, 32) > group_order(),
{
    reveal_with_fuel(vstd::arithmetic::power::pow, 33);
    assert(vstd::arithmetic::power::pow(256, 32)
        == 0x10000000000000000000000000000000000000000000000000000000000000000nat);
}

/// `scalar_of` is a canonical scalar whose value is `v mod n`.
pub proof fn lemma_scalar_of(v: nat)
    ensures
        is_scalar(scalar_of(v)),
        be_value(scalar_of(v)) == v % group_order(),
{
    lemma_be_encode_len(v % group_order(), 32);
    lemma_be_encode_value(v % group_order(), 32);
    lemma_pow256_32();
    let p = vstd::arithmetic::power::pow(256, 32);
    vstd::arithmetic::div_mod::lemma_small_mod((v % group_order()) as nat, p as nat);
}

/// `k256::Scalar::from_repr`: whether a 32-byte string is the big-endian
/// encoding of an integer below the group order.
#[verifier::external_body]
pub(crate) fn scalar_is_canonical(bytes: &[u8]) -> (ok: bool)
    requires
        bytes@.len() == 32,
    ensures
        ok == is_scalar(bytes@),
{
    let repr = k256::FieldBytes::clone_from_slice(bytes);
    bool::from(<k256::Scalar as k256::elliptic_curve::PrimeField>::from_repr(repr).is_some())
}

/// `k256::Scalar` addition: `a + b mod n`.
#[verifier::external_body]
pub(crate) fn scalar_add(a: &[u8], b: &[u8]) -> (sum: Vec<u8>)
    requires
        is_scalar(a@),
        is_scalar(b@),
    ensures
        sum@ == scalar_of(be_value(a@) + be_value(b@)),
{
    let x: k256::Scalar = Option::from(<k256::Scalar as k256::elliptic_curve::PrimeField>::from_repr(
        k256::FieldBytes::clone_from_slice(a),
    )).unwrap();
    let y: k256::Scalar = Option::from(<k256::Scalar as k256::elliptic_curve::PrimeField>::from_repr(
        k256::FieldBytes::clone_from_slice(b),
    )).unwrap();
    (x + y).to_bytes().to_vec()
}

/// `k256::Scalar` multiplication: `a * b mod n`.
#[verifier::external_body]
pub(crate) fn scalar_mul(a: &[u8], b: &[u8]) -> (product: Vec<u8>)
    requires
        is_scalar(a@),
        is_scalar(b@),
    ensures
        product@ == scalar_of(be_value(a@) * be_value(b@)),
{
    let x: k256::Scalar = Option::from(<k256::Scalar as k256::elliptic_curve::PrimeField>::from_repr(
        k256::FieldBytes::clone_from_slice(a),
    )).unwrap();
    let y: k256::Scalar = Option::from(<k256::Scalar as k256::elliptic_curve::PrimeField>::from_repr(
        k256::FieldBytes::clone_from_slice(b),
    )).unwrap();
    (x * y).to_bytes().to_vec()
}

/// `k256::Scalar::random` with the operating system's generator: a uniformly
/// drawn scalar. Nothing is said of which one; it panics where the operating
/// system cannot supply randomness.
#[verifier::external_body]
pub(crate) fn random_scalar() -> (k: Vec<u8>)
    ensures
        is_scalar(k@),
{
    <k256::Scalar as k256::elliptic_curve::Field>::random(&mut rand_core::OsRng).to_bytes().to_vec()
}

/// `rand_core::OsRng::fill_bytes` on 16 bytes. Nothing is said of the bytes;
/// it panics where the operating system cannot supply randomness.
#[verifier::external_body]
pub(crate) fn random_nonce() -> (nonce: [u8; 16])
{
    let mut nonce = [0u8; 16];
    rand_core::RngCore::fill_bytes(&mut rand_core::OsRng, &mut nonce);
    nonce
}

/// The SEC1 framing that `EncodedPoint::from_bytes` accepts: a tag byte and
/// the length that goes with it (identity `0x00` alone; compressed `0x02`,
/// `0x03` and compact `0x05` with 32 more bytes; uncompressed `0x04` with 64).
pub open spec fn sec1_well_formed(b: Seq<u8>) -> bool {
    &&& b.len() >= 1
    &&& {
        ||| b[0] == 0 && b.len() == 1
        ||| (b[0] == 2 || b[0] == 3 || b[0] == 5) && b.len() == 33
        ||| b[0] == 4 && b.len() == 65
    }
}

/// `EncodedPoint::from_bytes` followed by `ProjectivePoint::from_encoded_point`:
/// `Err` with the text of `sec1::Error::PointEncoding` where the tag or the
/// length is not SEC1 (the only error of `from_bytes`), `Ok(None)` where the
/// coordinates are not on the curve, and otherwise the decoded point
/// re-encoded with `to_bytes`.
#[verifier::external_body]
pub(crate) fn sec1_decode(bytes: &[u8]) -> (res: Result<Option<Vec<u8>>, String>)
    ensures
        res is Err <==> !sec1_well_formed(bytes@),
        res matches Err(m) ==> m@ == "elliptic curve point encoding error"@,
        res is Err ==> sec1_decoding(bytes@) is None,
        res matches Ok(Some(p)) ==> sec1_decoding(bytes@) == Some(p@) && is_point(p@),
        res matches Ok(None) ==> sec1_decoding(bytes@) is None,
{
    let encoded = match k256::EncodedPoint::from_bytes(bytes) {
        Ok(e) => e,
        Err(e) => return Err(e.to_string()),
    };
    match Option::<k256::ProjectivePoint>::from(k256::ProjectivePoint::from_encoded_point(&encoded)) {
        Some(p) => Ok(Some(p.to_bytes().to_vec())),
        None => Ok(None),
    }
}

/// `ProjectivePoint::GENERATOR * k`. The group has prime order `n`, so the
/// product is the identity only for `k = 0`, no other canonical scalar has
/// the same product, and it is a group homomorphism from the scalars: stated
/// where the products are added or multiplied.
#[verifier::external_body]
pub(crate) fn generator_mul(k: &[u8]) -> (point: Vec<u8>)
    requires
        is_scalar(k@),
    ensures
        point@ == generator_times(k@),
        is_point(point@),
        (point@ == identity_point()) == (be_value(k@) == 0),
        forall|b: Seq<u8>| is_scalar(b) && #[trigger] generator_times(b) == point@ ==> b == k@,
{
    let x: k256::Scalar = Option::from(<k256::Scalar as k256::elliptic_curve::PrimeField>::from_repr(
        k256::FieldBytes::clone_from_slice(k),
    )).unwrap();
    (k256::ProjectivePoint::GENERATOR * x).to_bytes().to_vec()
}

/// `ProjectivePoint * Scalar`. For `P = G * x`, `P * k = G * (x k mod n)`.
#[verifier::external_body]
pub(crate) fn point_mul(p: &[u8], k: &[u8]) -> (product: Vec<u8>)
    requires
        is_point(p@),
        is_scalar(k@),
    ensures
        product@ == point_times(p@, k@),
        is_point(product@),
        forall|x: Seq<u8>|
            is_scalar(x) && p@ == #[trigger] generator_times(x) ==> product@ == generator_times(
                scalar_of(be_value(x) * be_value(k@)),
            ),
{
    let pt: k256::ProjectivePoint = Option::from(k256::ProjectivePoint::from_bytes(
        &k256::CompressedPoint::clone_from_slice(p),
    )).unwrap();
    let x: k256::Scalar = Option::from(<k256::Scalar as k256::elliptic_curve::PrimeField>::from_repr(
        k256::FieldBytes::clone_from_slice(k),
    )).unwrap();
    (pt * x).to_bytes().to_vec()
}

/// `ProjectivePoint + ProjectivePoint`. For `P = G * a` and `Q = G * b`,
/// `P + Q = G * (a + b mod n)`.
#[verifier::external_body]
pub(crate) fn point_add(p: &[u8], q: &[u8]) -> (sum: Vec<u8>)
    requires
        is_point(p@),
        is_point(q@),
    ensures
        sum@ == point_sum(p@, q@),
        is_point(sum@),
        forall|a: Seq<u8>, b: Seq<u8>|
            #![trigger generator_times(a), generator_times(b)]
            is_scalar(a) && is_scalar(b) && p@ == generator_times(a) && q@ == generator_times(b)
                ==> sum@ == generator_times(scalar_of(be_value(a) + be_value(b))),
{
    let a: k256::ProjectivePoint = Option::from(k256::ProjectivePoint::from_bytes(
        &k256::CompressedPoint::clone_from_slice(p),
    )).unwrap();
    let b: k256::ProjectivePoint = Option::from(k256::ProjectivePoint::from_bytes(
        &k256::CompressedPoint::clone_from_slice(q),
    )).unwrap();
    (a + b).to_bytes().to_vec()
}

/// `ProjectivePoint == ProjectivePoint` on two decoded encodings: the
/// compressed encoding determines the point.
#[verifier::external_body]
pub(crate) fn points_equal(p: &[u8], q: &[u8]) -> (eq: bool)
    requires
        is_point(p@),
        is_point(q@),
    ensures
        eq == (p@ == q@),
{
    let a: k256::ProjectivePoint = Option::from(k256::ProjectivePoint::from_bytes(
        &k256::CompressedPoint::clone_from_slice(p),
    )).unwrap();
    let b: k256::ProjectivePoint = Option::from(k256::ProjectivePoint::from_bytes(
        &k256::CompressedPoint::clone_from_slice(q),
    )).unwrap();
    a == b
}

/// `sha2::Sha256::digest`: the 32-byte SHA-256 digest of `data`.
#[verifier::external_body]
pub(crate) fn sha256(data: &[u8]) -> (digest: Vec<u8>)
    ensures
        digest@ == sha256_of(data@),
        digest@.len() == 32,
{
    <sha2::Sha256 as sha2::Digest>::digest(data).to_vec()
}

/// `zeroize::Zeroize` on a 32-byte array: every byte is overwritten with zero.
#[verifier::external_body]
pub(crate) fn zeroize_bytes(bytes: &mut [u8; 32])
    ensures
        final(bytes)@ == Seq::new(32, |i: int| 0u8),
    opens_invariants none
    no_unwind
{
    zeroize::Zeroize::zeroize(bytes);
}

} // verus!
