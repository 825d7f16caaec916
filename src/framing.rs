//! Length-prefixed framing of MCTP packets in USB bulk transfers.
//!
//! A frame is a 4-byte big-endian length header followed by that many
//! payload bytes. One transfer may hold several frames back to back.
use crate::error::Error;
use vstd::prelude::*;
use vstd::slice::slice_subrange;
use vstd::slice::slice_to_vec;

verus! {

/// Size of the length header.
pub const HDR_LEN: usize = 4;

/// Largest payload length that the header can represent.
pub const MAX_PAYLOAD_LEN: u64 = 0xffff_ffff;

/// The big-endian bytes of `n`.
pub open spec fn be32(n: u32) -> Seq<u8> {
    seq![((n >> 24u32) & 0xff) as u8, ((n >> 16u32) & 0xff) as u8, ((n >> 8u32) & 0xff) as u8, (n & 0xff) as u8]
}

/// The value of a big-endian header held in the first four bytes of `b`.
pub open spec fn header_value(b: Seq<u8>) -> u32
    recommends
        b.len() >= 4,
{
    ((b[0] as u32) << 24u32) | ((b[1] as u32) << 16u32) | ((b[2] as u32) << 8u32) | (b[3] as u32)
}

/// The encoding of a payload: its length header, then the payload.
pub open spec fn encoded(p: Seq<u8>) -> Seq<u8>
    recommends
        p.len() <= MAX_PAYLOAD_LEN,
{
    be32(p.len() as u32) + p
}

/// Whether `b` starts with a whole frame: a header, and at least as many
/// bytes after it as the header declares.
pub open spec fn holds_frame(b: Seq<u8>) -> bool {
    b.len() >= HDR_LEN && header_value(b) as nat <= b.len() - HDR_LEN
}

/// Decoding `b`: the first frame's payload and the bytes after it, or
/// `None` when `b` does not start with a whole frame.
pub open spec fn decoded(b: Seq<u8>) -> Option<(Seq<u8>, Seq<u8>)> {
    if holds_frame(b) {
        let end = HDR_LEN + header_value(b) as int;
        Some((b.subrange(HDR_LEN as int, end), b.subrange(end, b.len() as int)))
    } else {
        None
    }
}

/// Encodes `payload` as one frame. Fails with `Overflow` exactly when its
/// length does not fit the header.
pub fn encode(payload: &[u8]) -> (r: Result<Vec<u8>, Error>)
    ensures
        r is Ok <==> payload@.len() <= MAX_PAYLOAD_LEN,
        r matches Ok(v) ==> v@ == encoded(payload@),
        r matches Err(e) ==> e == Error::Overflow,
{
    let len = payload.len();
    if len as u64 > MAX_PAYLOAD_LEN {
        return Err(Error::Overflow);
    }
    let n = len as u32;
    let mut v: Vec<u8> = vec![
        ((n >> 24u32) & 0xff) as u8,
        ((n >> 16u32) & 0xff) as u8,
        ((n >> 8u32) & 0xff) as u8,
        (n & 0xff) as u8,
    ];
    let mut body = slice_to_vec(payload);
    v.append(&mut body);
    assert(v@ =~= encoded(payload@));
    Ok(v)
}

/// Decodes the first frame of `buf`: its payload and the unconsumed rest.
/// Fails with `Framing` when `buf` is shorter than the header plus the
/// length it declares. Never consumes more than one frame.
pub fn decode(buf: &[u8]) -> (r: Result<(&[u8], &[u8]), Error>)
    ensures
        r is Ok <==> holds_frame(buf@),
        r matches Ok((f, rem)) ==> decoded(buf@) == Some((f@, rem@)),
        r matches Err(e) ==> e == Error::Framing,
{
    let total = buf.len();
    if total < HDR_LEN {
        return Err(Error::Framing);
    }
    let len = ((buf[0] as u32) << 24u32) | ((buf[1] as u32) << 16u32) | ((buf[2] as u32) << 8u32)
        | (buf[3] as u32);
    if len as usize > total - HDR_LEN {
        return Err(Error::Framing);
    }
    let end = HDR_LEN + len as usize;
    let frame = slice_subrange(buf, HDR_LEN, end);
    let rem = slice_subrange(buf, end, total);
    Ok((frame, rem))
}

proof fn lemma_be32_value(n: u32)
    ensures
        header_value(be32(n)) == n,
{
    let b = be32(n);
    assert(b[0] == ((n >> 24u32) & 0xff) as u8);
    assert(b[1] == ((n >> 16u32) & 0xff) as u8);
    assert(b[2] == ((n >> 8u32) & 0xff) as u8);
    assert(b[3] == (n & 0xff) as u8);
    assert(((((n >> 24u32) & 0xff) as u8 as u32) << 24u32) | ((((n >> 16u32) & 0xff) as u8 as u32)
        << 16u32) | ((((n >> 8u32) & 0xff) as u8 as u32) << 8u32) | ((n & 0xff) as u8 as u32) == n)
        by (bit_vector);
}

/// Decoding the encoding of a payload gives back the payload and nothing
/// after it.
pub proof fn lemma_round_trip(p: Seq<u8>)
    requires
        p.len() <= MAX_PAYLOAD_LEN,
    ensures
        decoded(encoded(p)) == Some((p, Seq::<u8>::empty())),
{
    lemma_first_of_two(p, Seq::empty());
    assert(encoded(p) + Seq::<u8>::empty() =~= encoded(p));
}

/// Decoding `encoded(a) ‖ rest` gives `a`, with `rest` left over.
pub proof fn lemma_first_of_two(a: Seq<u8>, rest: Seq<u8>)
    requires
        a.len() <= MAX_PAYLOAD_LEN,
    ensures
        decoded(encoded(a) + rest) == Some((a, rest)),
{
    let b = encoded(a) + rest;
    lemma_be32_value(a.len() as u32);
    assert(b.subrange(0, 4) =~= be32(a.len() as u32));
    assert(header_value(b) == header_value(be32(a.len() as u32)));
    let end = HDR_LEN + a.len();
    assert(b.subrange(HDR_LEN as int, end as int) =~= a);
    assert(b.subrange(end as int, b.len() as int) =~= rest);
}

} // verus!
