//! Length-delimited framing of typed messages over a byte stream.
//!
//! Frame layout: a 4-byte big-endian payload length, then the payload (the
//! message's binary wire form).

use vstd::prelude::*;

use bytes::{Buf, BufMut};
use core::marker::PhantomData;

use crate::encoding::{be32_value, u32_be};
use crate::text::{append_unsigned, decimal_digits, text};
use crate::zkp_core_engine::ZkpError;

verus! {

/// Maximum payload size permitted (64 KB), against oversized frames.
pub const MAX_FRAME_SIZE: usize = 65536;

#[verifier::external_type_specification]
#[verifier::external_body]
pub struct ExBytesMut(bytes::BytesMut);

/// The bytes that a buffer holds.
pub uninterp spec fn buffer_contents(b: bytes::BytesMut) -> Seq<u8>;

/// `BytesMut::len`.
#[verifier::external_body]
fn buffer_len(b: &bytes::BytesMut) -> (n: usize)
    ensures
        n == buffer_contents(*b).len(),
{
    b.len()
}

/// `BytesMut::reserve`: makes room, the contents stay. It panics where the
/// capacity would exceed `isize::MAX`.
#[verifier::external_body]
fn buffer_reserve(b: &mut bytes::BytesMut, additional: usize)
    requires
        buffer_contents(*old(b)).len() + additional <= isize::MAX,
    ensures
        buffer_contents(*final(b)) == buffer_contents(*old(b)),
{
    b.reserve(additional)
}

/// `BufMut::put_u32` on a `BytesMut`: appends the four big-endian bytes.
#[verifier::external_body]
fn buffer_put_u32(b: &mut bytes::BytesMut, n: u32)
    requires
        buffer_contents(*old(b)).len() + 4 <= isize::MAX,
    ensures
        buffer_contents(*final(b)) == buffer_contents(*old(b)) + u32_be(n),
{
    b.put_u32(n)
}

/// `BufMut::put_slice` on a `BytesMut`: appends the bytes.
#[verifier::external_body]
fn buffer_put_slice(b: &mut bytes::BytesMut, s: &[u8])
    requires
        buffer_contents(*old(b)).len() + s@.len() <= isize::MAX,
    ensures
        buffer_contents(*final(b)) == buffer_contents(*old(b)) + s@,
{
    b.put_slice(s)
}

/// The first `n` bytes of a buffer (`&b[..n]`), copied.
#[verifier::external_body]
fn buffer_prefix(b: &bytes::BytesMut, n: usize) -> (p: Vec<u8>)
    requires
        n <= buffer_contents(*b).len(),
    ensures
        p@ == buffer_contents(*b).subrange(0, n as int),
{
    b[..n].to_vec()
}

/// `Buf::advance` on a `BytesMut`: drops the first `n` bytes.
#[verifier::external_body]
fn buffer_advance(b: &mut bytes::BytesMut, n: usize)
    requires
        n <= buffer_contents(*old(b)).len(),
    ensures
        buffer_contents(*final(b)) == buffer_contents(*old(b)).subrange(n as int, buffer_contents(*old(b)).len() as int),
{
    b.advance(n)
}

/// `BytesMut::split_to`: takes the first `n` bytes out.
#[verifier::external_body]
fn buffer_split_to(b: &mut bytes::BytesMut, n: usize) -> (head: bytes::BytesMut)
    requires
        n <= buffer_contents(*old(b)).len(),
    ensures
        buffer_contents(head) == buffer_contents(*old(b)).subrange(0, n as int),
        buffer_contents(*final(b)) == buffer_contents(*old(b)).subrange(n as int, buffer_contents(*old(b)).len() as int),
{
    b.split_to(n)
}

/// The bytes of a buffer as a slice.
#[verifier::external_body]
fn buffer_as_slice(b: &bytes::BytesMut) -> (s: &[u8])
    ensures
        s@ == buffer_contents(*b),
{
    &b[..]
}

/// A message with a binary wire form.
pub trait WireMessage: Sized {
    /// The wire form of the message.
    spec fn wire_form(&self) -> Seq<u8>;

    /// Whether a message can be read from the start of `bytes`.
    spec fn wire_readable(bytes: Seq<u8>) -> bool;

    /// Whether `m` is the message read from the start of `bytes`.
    spec fn wire_reads(bytes: Seq<u8>, m: Self) -> bool;

    fn to_wire_payload(&self) -> (b: Vec<u8>)
        ensures
            b@ == self.wire_form(),
    ;

    /// The message read from `bytes`, or the decoder's error text.
    fn from_wire_payload(bytes: &[u8]) -> (r: Result<Self, String>)
        ensures
            (r is Ok) == Self::wire_readable(bytes@),
            r matches Ok(m) ==> Self::wire_reads(bytes@, m),
    ;
}

/// A frame: the 4-byte big-endian length, then the payload.
pub open spec fn frame(payload: Seq<u8>) -> Seq<u8> {
    u32_be(payload.len() as u32) + payload
}

/// What the first bytes of a buffer hold, for a maximum payload size.
pub enum FrameScan {
    /// Fewer bytes than a frame needs: wait for more.
    Incomplete,
    /// The announced payload length exceeds the maximum.
    TooLong(nat),
    /// A whole frame: its payload.
    Complete(Seq<u8>),
}

/// How the bytes of a buffer start.
pub open spec fn scan_frame(contents: Seq<u8>, max: nat) -> FrameScan {
    if contents.len() < 4 {
        FrameScan::Incomplete
    } else {
        let n = be32_value(contents.subrange(0, 4));
        if n > max {
            FrameScan::TooLong(n)
        } else if contents.len() < 4 + n {
            FrameScan::Incomplete
        } else {
            FrameScan::Complete(contents.subrange(4, 4 + n as int))
        }
    }
}

/// Length-delimited binary codec for typed messages: encodes `ItemOut`,
/// decodes `ItemIn`.
#[derive(Debug)]
pub struct ZkpMessageCodec<ItemOut, ItemIn> {
    max_frame_size: usize,
    _phantom: PhantomData<(ItemOut, ItemIn)>,
}

impl<ItemOut, ItemIn> ZkpMessageCodec<ItemOut, ItemIn> {
    /// The largest payload that the codec encodes or accepts.
    pub closed spec fn max_frame(&self) -> usize {
        self.max_frame_size
    }

    /// A codec with the default 64 KB limit.
    pub fn new() -> (c: Self)
        ensures
            c.max_frame() == MAX_FRAME_SIZE,
    {
        ZkpMessageCodec { max_frame_size: MAX_FRAME_SIZE, _phantom: PhantomData }
    }

    /// A codec with the given limit.
    pub fn with_max_frame_size(max_frame_size: usize) -> (c: Self)
        ensures
            c.max_frame() == max_frame_size,
    {
        ZkpMessageCodec { max_frame_size, _phantom: PhantomData }
    }
}

impl<ItemOut, ItemIn> Clone for ZkpMessageCodec<ItemOut, ItemIn> {
    fn clone(&self) -> (c: Self)
        ensures
            c.max_frame() == self.max_frame(),
    {
        ZkpMessageCodec { max_frame_size: self.max_frame_size, _phantom: PhantomData }
    }
}

impl<ItemOut, ItemIn> Default for ZkpMessageCodec<ItemOut, ItemIn> {
    fn default() -> (c: Self)
        ensures
            c.max_frame() == MAX_FRAME_SIZE,
    {
        Self::new()
    }
}

/// `label`, then `a`, `" > "` and `b` in decimal.
fn limit_message(label: &str, a: usize, b: usize) -> (m: String)
    ensures
        m@ == label@ + decimal_digits(a as nat) + " > "@ + decimal_digits(b as nat),
{
    let mut m = text(label);
    append_unsigned(&mut m, a as u64);
    m.append(" > ");
    append_unsigned(&mut m, b as u64);
    m
}

impl<ItemOut: WireMessage, ItemIn: WireMessage> ZkpMessageCodec<ItemOut, ItemIn> {
    /// Whether `encode` can append the frame of `item` to `dst` within the
    /// largest buffer the machine allows (its `requires`).
    pub fn can_encode(&self, item: &ItemOut, dst: &bytes::BytesMut) -> (ok: bool)
        ensures
            ok == (buffer_contents(*dst).len() + 4 + item.wire_form().len() <= isize::MAX),
    {
        let n = item.to_wire_payload().len();
        let have = buffer_len(dst);
        let limit: usize = isize::MAX as usize;
        have <= limit && 4 <= limit - have && n <= limit - have - 4
    }

    /// Whether `decode` can take a frame out of `src` within the largest
    /// buffer the machine allows (its `requires`).
    pub fn can_decode(&self, src: &bytes::BytesMut) -> (ok: bool)
        ensures
            ok == (buffer_contents(*src).len() >= 4 && be32_value(buffer_contents(*src).subrange(0, 4))
                <= self.max_frame() ==> 4 + be32_value(buffer_contents(*src).subrange(0, 4)) <= isize::MAX),
    {
        let len = buffer_len(src);
        if len < 4 {
            return true;
        }
        let head = buffer_prefix(src, 4);
        let frame_len = ((head[0] as u32) * 0x1000000 + (head[1] as u32) * 0x10000 + (head[2] as u32) * 0x100
            + (head[3] as u32)) as usize;
        assert(frame_len == be32_value(buffer_contents(*src).subrange(0, 4)));
        let limit: usize = isize::MAX as usize;
        frame_len > self.max_frame_size || frame_len <= limit - 4
    }

    /// Appends the frame of `item` to `dst`, or refuses a payload longer than
    /// the limit, leaving `dst` as it was.
    pub fn encode(&mut self, item: ItemOut, dst: &mut bytes::BytesMut) -> (res: Result<(), ZkpError>)
        requires
            buffer_contents(*old(dst)).len() + 4 + item.wire_form().len() <= isize::MAX,
        ensures
            final(self).max_frame() == old(self).max_frame(),
            item.wire_form().len() > old(self).max_frame() ==> (res matches Err(ZkpError::SerializationError(m)) && m@
                == "Message payload exceeds maximum frame size: "@ + decimal_digits(item.wire_form().len())
                + " > "@ + decimal_digits(old(self).max_frame() as nat)) && buffer_contents(*final(dst))
                == buffer_contents(*old(dst)),
            item.wire_form().len() <= old(self).max_frame() ==> res is Ok && buffer_contents(*final(dst))
                == buffer_contents(*old(dst)) + u32_be(item.wire_form().len() as u32) + item.wire_form(),
    {
        let payload = item.to_wire_payload();
        if payload.len() > self.max_frame_size {
            return Err(
                ZkpError::SerializationError(
                    limit_message("Message payload exceeds maximum frame size: ", payload.len(), self.max_frame_size),
                ),
            );
        }
        buffer_reserve(dst, 4 + payload.len());
        buffer_put_u32(dst, payload.len() as u32);
        buffer_put_slice(dst, payload.as_slice());
        Ok(())
    }

    /// Takes the next frame out of `src` and reads its message: `Ok(None)`
    /// while the frame is incomplete, an error where its announced length
    /// exceeds the limit (nothing consumed) or its payload is no message (the
    /// frame consumed).
    pub fn decode(&mut self, src: &mut bytes::BytesMut) -> (res: Result<Option<ItemIn>, ZkpError>)
        requires
            buffer_contents(*old(src)).len() >= 4 && be32_value(buffer_contents(*old(src)).subrange(0, 4))
                <= old(self).max_frame() ==> 4 + be32_value(buffer_contents(*old(src)).subrange(0, 4)) <= isize::MAX,
        ensures
            final(self).max_frame() == old(self).max_frame(),
            match scan_frame(buffer_contents(*old(src)), old(self).max_frame() as nat) {
                FrameScan::Incomplete => res matches Ok(None) && buffer_contents(*final(src)) == buffer_contents(
                    *old(src),
                ),
                FrameScan::TooLong(n) => (res matches Err(ZkpError::SerializationError(m)) && m@
                    == "Frame length exceeds allowed limit: "@ + decimal_digits(n) + " > "@ + decimal_digits(
                    old(self).max_frame() as nat,
                )) && buffer_contents(*final(src)) == buffer_contents(*old(src)),
                FrameScan::Complete(payload) => {
                    &&& buffer_contents(*final(src)) == buffer_contents(*old(src)).subrange(
                        4 + payload.len() as int,
                        buffer_contents(*old(src)).len() as int,
                    )
                    &&& ItemIn::wire_readable(payload) ==> (res matches Ok(Some(m)) && ItemIn::wire_reads(payload, m))
                    &&& !ItemIn::wire_readable(payload) ==> (res matches Err(ZkpError::SerializationError(m))
                        && m@.len() >= "Decoding failed: "@.len() && m@.subrange(0, "Decoding failed: "@.len() as int)
                        == "Decoding failed: "@)
                },
            },
    {
        let len = buffer_len(src);
        if len < 4 {
            return Ok(None);
        }
        let head = buffer_prefix(src, 4);
        let frame_len = ((head[0] as u32) * 0x1000000 + (head[1] as u32) * 0x10000 + (head[2] as u32) * 0x100
            + (head[3] as u32)) as usize;
        assert(frame_len == be32_value(buffer_contents(*old(src)).subrange(0, 4)));
        if frame_len > self.max_frame_size {
            return Err(
                ZkpError::SerializationError(
                    limit_message("Frame length exceeds allowed limit: ", frame_len, self.max_frame_size),
                ),
            );
        }
        if len < 4 + frame_len {
            buffer_reserve(src, 4 + frame_len - len);
            return Ok(None);
        }
        buffer_advance(src, 4);
        let payload = buffer_split_to(src, frame_len);
        assert(buffer_contents(payload) =~= buffer_contents(*old(src)).subrange(4, 4 + frame_len));
        assert(buffer_contents(*src) =~= buffer_contents(*old(src)).subrange(4 + frame_len, len as int));
        match ItemIn::from_wire_payload(buffer_as_slice(&payload)) {
            Ok(item) => Ok(Some(item)),
            Err(e) => {
                let m = text("Decoding failed: ");
                let mut m = m;
                m.append(e.as_str());
                assert(m@.subrange(0, "Decoding failed: "@.len() as int) =~= "Decoding failed: "@);
                Err(ZkpError::SerializationError(m))
            },
        }
    }
}

/// Four big-endian bytes give their word back.
proof fn lemma_u32_be_value(u: u32)
    ensures
        be32_value(u32_be(u)) == u,
{
    assert((u / 0x1000000) as u8 as u32 * 0x1000000 + ((u / 0x10000) % 256) as u8 as u32 * 0x10000 + ((u / 0x100)
        % 256) as u8 as u32 * 0x100 + (u % 256) as u8 as u32 == u) by (bit_vector);
}

/// A frame read back from the front of a buffer gives its payload, and
/// leaves what follows it: what `encode` appends, `decode` takes out again.
pub proof fn lemma_frame_roundtrip(payload: Seq<u8>, rest: Seq<u8>, max: nat)
    requires
        payload.len() <= max,
        payload.len() <= u32::MAX,
    ensures
        scan_frame(frame(payload) + rest, max) == FrameScan::Complete(payload),
        (frame(payload) + rest).subrange(4 + payload.len() as int, (frame(payload) + rest).len() as int) == rest,
{
    let b = frame(payload) + rest;
    lemma_u32_be_value(payload.len() as u32);
    assert(b.subrange(0, 4) =~= u32_be(payload.len() as u32));
    assert(b.subrange(4, 4 + payload.len() as int) =~= payload);
    assert(b.subrange(4 + payload.len() as int, b.len() as int) =~= rest);
}

} // verus!
