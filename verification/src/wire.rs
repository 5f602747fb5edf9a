//! Fixed-width big-endian integer codec: the primitive layer every other
//! codec is built on.

use vstd::prelude::*;

verus! {

/// The 16-bit value encoded big-endian by the two bytes `b0 b1`.
pub open spec fn be16_val(b0: u8, b1: u8) -> u16 {
    ((b0 as u16) << 8) | (b1 as u16)
}

/// The 32-bit value encoded big-endian by the four bytes `b0 b1 b2 b3`.
pub open spec fn be32_val(b0: u8, b1: u8, b2: u8, b3: u8) -> u32 {
    ((b0 as u32) << 24) | ((b1 as u32) << 16) | ((b2 as u32) << 8) | (b3 as u32)
}

/// The two-byte big-endian encoding of `n`, most-significant byte first.
pub open spec fn be16_bytes(n: u16) -> Seq<u8> {
    seq![((n >> 8) & 0xff) as u8, (n & 0xff) as u8]
}

/// The four-byte big-endian encoding of `n`, most-significant byte first.
pub open spec fn be32_bytes(n: u32) -> Seq<u8> {
    seq![
        ((n >> 24) & 0xff) as u8,
        ((n >> 16) & 0xff) as u8,
        ((n >> 8) & 0xff) as u8,
        (n & 0xff) as u8,
    ]
}

/// Decoding the two-byte encoding of any 16-bit `n` gives back `n`.
pub proof fn lemma_be16_round_trip(n: u16)
    ensures
        be16_val(be16_bytes(n)[0], be16_bytes(n)[1]) == n,
{
    assert(((((n >> 8) & 0xff) as u8 as u16) << 8 | ((n & 0xff) as u8 as u16)) == n)
        by (bit_vector);
}

/// Decoding the four-byte encoding of any 32-bit `n` gives back `n`.
pub proof fn lemma_be32_round_trip(n: u32)
    ensures
        be32_val(be32_bytes(n)[0], be32_bytes(n)[1], be32_bytes(n)[2], be32_bytes(n)[3]) == n,
{
    assert(((((n >> 24) & 0xff) as u8 as u32) << 24 | (((n >> 16) & 0xff) as u8 as u32) << 16
        | (((n >> 8) & 0xff) as u8 as u32) << 8 | ((n & 0xff) as u8 as u32)) == n)
        by (bit_vector);
}

/// Parse the first two bytes of the slice as a big-endian 16-bit integer.
/// Any bytes past the first two are ignored.
pub fn big_endian_bytes_to_u16(bytes: &[u8]) -> (n: u16)
    requires
        bytes@.len() >= 2,
    ensures
        n == be16_val(bytes@[0], bytes@[1]),
{
    ((bytes[0] as u16) << 8) | (bytes[1] as u16)
}

/// Parse the first four bytes of the slice as a big-endian 32-bit integer.
/// Any bytes past the first four are ignored.
pub fn big_endian_bytes_to_u32(bytes: &[u8]) -> (n: u32)
    requires
        bytes@.len() >= 4,
    ensures
        n == be32_val(bytes@[0], bytes@[1], bytes@[2], bytes@[3]),
{
    ((bytes[0] as u32) << 24) | ((bytes[1] as u32) << 16) | ((bytes[2] as u32) << 8)
        | (bytes[3] as u32)
}

/// Encode `n` as two bytes, most-significant byte first.
pub fn u16_to_big_endian_bytes(n: u16) -> (r: [u8; 2])
    ensures
        r@ == be16_bytes(n),
{
    let r = [((n >> 8) & 0xff) as u8, (n & 0xff) as u8];
    proof {
        assert(r@ =~= be16_bytes(n));
    }
    r
}

/// Encode `n` as four bytes, most-significant byte first.
pub fn u32_to_big_endian_bytes(n: u32) -> (r: [u8; 4])
    ensures
        r@ == be32_bytes(n),
{
    let r = [
        ((n >> 24) & 0xff) as u8,
        ((n >> 16) & 0xff) as u8,
        ((n >> 8) & 0xff) as u8,
        (n & 0xff) as u8,
    ];
    proof {
        assert(r@ =~= be32_bytes(n));
    }
    r
}

/// Append the two-byte big-endian encoding of `n` to `out`.
pub fn put_u16(out: &mut Vec<u8>, n: u16)
    ensures
        final(out)@ == old(out)@ + be16_bytes(n),
{
    out.push(((n >> 8) & 0xff) as u8);
    out.push((n & 0xff) as u8);
    proof {
        assert(out@ =~= old(out)@ + be16_bytes(n));
    }
}

/// Append the four-byte big-endian encoding of `n` to `out`.
pub fn put_u32(out: &mut Vec<u8>, n: u32)
    ensures
        final(out)@ == old(out)@ + be32_bytes(n),
{
    out.push(((n >> 24) & 0xff) as u8);
    out.push(((n >> 16) & 0xff) as u8);
    out.push(((n >> 8) & 0xff) as u8);
    out.push((n & 0xff) as u8);
    proof {
        assert(out@ =~= old(out)@ + be32_bytes(n));
    }
}

} // verus!
