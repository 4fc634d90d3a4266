//! Byte-string helpers shared by the encoders.

use vstd::prelude::*;

verus! {

/// The eight big-endian bytes of a 64-bit word.
pub open spec fn u64_be(u: u64) -> Seq<u8> {
    seq![
        (u / 0x100000000000000) as u8,
        ((u / 0x1000000000000) % 256) as u8,
        ((u / 0x10000000000) % 256) as u8,
        ((u / 0x100000000) % 256) as u8,
        ((u / 0x1000000) % 256) as u8,
        ((u / 0x10000) % 256) as u8,
        ((u / 0x100) % 256) as u8,
        (u % 256) as u8,
    ]
}

/// The eight little-endian bytes of a 64-bit word.
pub open spec fn u64_le(u: u64) -> Seq<u8> {
    seq![
        (u % 256) as u8,
        ((u / 0x100) % 256) as u8,
        ((u / 0x10000) % 256) as u8,
        ((u / 0x1000000) % 256) as u8,
        ((u / 0x100000000) % 256) as u8,
        ((u / 0x10000000000) % 256) as u8,
        ((u / 0x1000000000000) % 256) as u8,
        (u / 0x100000000000000) as u8,
    ]
}

/// The big-endian two's complement bytes of a signed 64-bit integer, as
/// `i64::to_be_bytes` gives them.
pub open spec fn i64_be(x: i64) -> Seq<u8> {
    u64_be(x as u64)
}

/// The four big-endian bytes of a 32-bit word.
pub open spec fn u32_be(u: u32) -> Seq<u8> {
    seq![
        (u / 0x1000000) as u8,
        ((u / 0x10000) % 256) as u8,
        ((u / 0x100) % 256) as u8,
        (u % 256) as u8,
    ]
}

/// The value of four big-endian bytes.
pub open spec fn be32_value(b: Seq<u8>) -> nat {
    b[0] as nat * 0x1000000 + b[1] as nat * 0x10000 + b[2] as nat * 0x100 + b[3] as nat
}

/// `u64::to_be_bytes`.
pub fn u64_to_be_bytes(u: u64) -> (out: Vec<u8>)
    ensures
        out@ == u64_be(u),
{
    let mut out: Vec<u8> = Vec::new();
    out.push((u / 0x100000000000000) as u8);
    out.push(((u / 0x1000000000000) % 256) as u8);
    out.push(((u / 0x10000000000) % 256) as u8);
    out.push(((u / 0x100000000) % 256) as u8);
    out.push(((u / 0x1000000) % 256) as u8);
    out.push(((u / 0x10000) % 256) as u8);
    out.push(((u / 0x100) % 256) as u8);
    out.push((u % 256) as u8);
    assert(out@ =~= u64_be(u));
    out
}

/// `i64::to_be_bytes`.
pub fn i64_to_be_bytes(x: i64) -> (out: Vec<u8>)
    ensures
        out@ == i64_be(x),
{
    u64_to_be_bytes(x as u64)
}

/// Appends the bytes of `tail` to `v`.
pub fn append_bytes(v: &mut Vec<u8>, tail: &[u8])
    ensures
        final(v)@ == old(v)@ + tail@,
{
    let n = tail.len();
    let mut i: usize = 0;
    while i < n
        invariant
            n == tail@.len(),
            i <= n,
            v@ == old(v)@ + tail@.subrange(0, i as int),
        decreases n - i,
    {
        v.push(tail[i]);
        i = i + 1;
        assert(tail@.subrange(0, i as int) =~= tail@.subrange(0, i - 1).push(tail@[i - 1]));
    }
    assert(tail@.subrange(0, n as int) =~= tail@);
}

/// Copies a slice into a fresh vector.
pub fn bytes_to_vec(s: &[u8]) -> (out: Vec<u8>)
    ensures
        out@ == s@,
{
    let mut out: Vec<u8> = Vec::new();
    append_bytes(&mut out, s);
    assert(out@ =~= s@);
    out
}

} // verus!

verus! {

/// The value of the eight little-endian bytes of `b` starting at `pos`.
pub open spec fn le64_at(b: Seq<u8>, pos: int) -> nat {
    b[pos] as nat + b[pos + 1] as nat * 0x100 + b[pos + 2] as nat * 0x10000 + b[pos + 3] as nat * 0x1000000
        + b[pos + 4] as nat * 0x100000000 + b[pos + 5] as nat * 0x10000000000 + b[pos + 6] as nat
        * 0x1000000000000 + b[pos + 7] as nat * 0x100000000000000
}

/// Little-endian bytes give their word back.
pub proof fn lemma_u64_le_value(u: u64)
    ensures
        le64_at(u64_le(u), 0) == u,
{
    let b = u64_le(u);
    assert((u % 256) as u64 + ((u / 0x100) % 256) as u64 * 0x100 + ((u / 0x10000) % 256) as u64 * 0x10000
        + ((u / 0x1000000) % 256) as u64 * 0x1000000 + ((u / 0x100000000) % 256) as u64 * 0x100000000
        + ((u / 0x10000000000) % 256) as u64 * 0x10000000000 + ((u / 0x1000000000000) % 256) as u64
        * 0x1000000000000 + (u / 0x100000000000000) as u64 * 0x100000000000000 == u) by (bit_vector);
}

} // verus!
