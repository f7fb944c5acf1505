//! Big-endian integer encodings and the length-prefixed message frame.
//!
//! The wire protocol sends one message per frame: a 4-byte big-endian
//! length followed by the payload bytes.  Both directions of the frame
//! codec are verified, and a round trip is proved to give the payload
//! back unchanged.

use vstd::prelude::*;

verus! {

/// The eight bytes of `x`, most significant first.
pub open spec fn u64_be_bytes(x: u64) -> Seq<u8> {
    seq![
        ((x >> 56) & 0xff) as u8,
        ((x >> 48) & 0xff) as u8,
        ((x >> 40) & 0xff) as u8,
        ((x >> 32) & 0xff) as u8,
        ((x >> 24) & 0xff) as u8,
        ((x >> 16) & 0xff) as u8,
        ((x >> 8) & 0xff) as u8,
        (x & 0xff) as u8,
    ]
}

/// The four bytes of `x`, most significant first.
pub open spec fn u32_be_bytes(x: u32) -> Seq<u8> {
    seq![
        ((x >> 24) & 0xff) as u8,
        ((x >> 16) & 0xff) as u8,
        ((x >> 8) & 0xff) as u8,
        (x & 0xff) as u8,
    ]
}

/// The value read back from four big-endian bytes.
pub open spec fn u32_from_be_bytes(s: Seq<u8>) -> u32
    recommends
        s.len() == 4,
{
    (((s[0] as u32) << 24) | ((s[1] as u32) << 16) | ((s[2] as u32) << 8) | (s[3] as u32)) as u32
}

pub fn u64_to_be(x: u64) -> (r: Vec<u8>)
    ensures
        r@ == u64_be_bytes(x),
{
    let mut r: Vec<u8> = Vec::new();
    r.push(((x >> 56) & 0xff) as u8);
    r.push(((x >> 48) & 0xff) as u8);
    r.push(((x >> 40) & 0xff) as u8);
    r.push(((x >> 32) & 0xff) as u8);
    r.push(((x >> 24) & 0xff) as u8);
    r.push(((x >> 16) & 0xff) as u8);
    r.push(((x >> 8) & 0xff) as u8);
    r.push((x & 0xff) as u8);
    proof {
        assert(r@ =~= u64_be_bytes(x));
    }
    r
}

pub fn u32_to_be(x: u32) -> (r: Vec<u8>)
    ensures
        r@ == u32_be_bytes(x),
{
    let mut r: Vec<u8> = Vec::new();
    r.push(((x >> 24) & 0xff) as u8);
    r.push(((x >> 16) & 0xff) as u8);
    r.push(((x >> 8) & 0xff) as u8);
    r.push((x & 0xff) as u8);
    proof {
        assert(r@ =~= u32_be_bytes(x));
    }
    r
}

pub fn u32_from_be(bytes: &Vec<u8>) -> (r: u32)
    requires
        bytes@.len() == 4,
    ensures
        r == u32_from_be_bytes(bytes@),
{
    ((bytes[0] as u32) << 24) | ((bytes[1] as u32) << 16) | ((bytes[2] as u32) << 8)
        | (bytes[3] as u32)
}

/// Appends `src`'s bytes to `dst`.
pub fn extend_bytes(dst: &mut Vec<u8>, src: &[u8])
    ensures
        final(dst)@ == old(dst)@ + src@,
{
    let ghost pre = dst@;
    let mut i: usize = 0;
    while i < src.len()
        invariant
            i <= src@.len(),
            dst@ == pre + src@.subrange(0, i as int),
        decreases src@.len() - i,
    {
        dst.push(src[i]);
        i = i + 1;
        proof {
            assert(dst@ =~= pre + src@.subrange(0, i as int));
        }
    }
    proof {
        assert(dst@ =~= pre + src@);
    }
}

/// A copy of a byte vector.
pub fn copy_bytes(src: &Vec<u8>) -> (r: Vec<u8>)
    ensures
        r@ == src@,
{
    let mut r: Vec<u8> = Vec::new();
    extend_bytes(&mut r, src.as_slice());
    proof {
        assert(r@ =~= src@);
    }
    r
}

/// Reading four big-endian bytes gives back the integer they encode.
pub proof fn lemma_u32_be_round_trip(x: u32)
    ensures
        u32_from_be_bytes(u32_be_bytes(x)) == x,
{
    assert(u32_from_be_bytes(u32_be_bytes(x)) == x) by (bit_vector);
}

/// One frame on the wire: the payload's length as four big-endian bytes,
/// then the payload itself.
pub open spec fn framed(payload: Seq<u8>) -> Seq<u8> {
    u32_be_bytes(payload.len() as u32) + payload
}

pub fn frame_message(payload: &Vec<u8>) -> (r: Vec<u8>)
    requires
        payload@.len() <= u32::MAX,
    ensures
        r@ == framed(payload@),
        r@.len() == payload@.len() + 4,
{
    let mut r = u32_to_be(payload.len() as u32);
    let mut i: usize = 0;
    while i < payload.len()
        invariant
            r@ == u32_be_bytes(payload@.len() as u32) + payload@.subrange(0, i as int),
            i <= payload@.len(),
        decreases payload@.len() - i,
    {
        r.push(payload[i]);
        i = i + 1;
        proof {
            assert(r@ =~= u32_be_bytes(payload@.len() as u32) + payload@.subrange(0, i as int));
        }
    }
    proof {
        assert(payload@.subrange(0, payload@.len() as int) =~= payload@);
        assert(r@ =~= framed(payload@));
    }
    r
}

/// The length a just-read frame header announces for the payload.
pub fn frame_length(header: &Vec<u8>) -> (r: u32)
    requires
        header@.len() == 4,
    ensures
        r == u32_from_be_bytes(header@),
{
    u32_from_be(header)
}

/// Framing then reading the header back announces exactly the payload's
/// length, so a reader that takes that many bytes recovers the payload.
pub proof fn lemma_frame_round_trip(payload: Seq<u8>)
    requires
        payload.len() <= u32::MAX,
    ensures
        framed(payload).len() == payload.len() + 4,
        u32_from_be_bytes(framed(payload).subrange(0, 4)) == payload.len(),
        framed(payload).subrange(4, framed(payload).len() as int) == payload,
{
    let f = framed(payload);
    assert(f.subrange(0, 4) =~= u32_be_bytes(payload.len() as u32));
    lemma_u32_be_round_trip(payload.len() as u32);
    assert(f.subrange(4, f.len() as int) =~= payload);
}

} // verus!
