//! Big-endian conversion between `u32` and four bytes.
use vstd::prelude::*;

verus! {

/// The four big-endian bytes of `n`, most significant first.
pub open spec fn be_bytes(n: u32) -> Seq<u8> {
    seq![(n >> 24u32) as u8, (n >> 16u32) as u8, (n >> 8u32) as u8, n as u8]
}

/// The number whose big-endian bytes are `b[0..4]`.
pub open spec fn be_value(b: Seq<u8>) -> int
    recommends
        b.len() >= 4,
{
    b[0] as int * 0x100_0000 + b[1] as int * 0x1_0000 + b[2] as int * 0x100 + b[3] as int
}

/// Encodes `ms` as four big-endian bytes.
pub fn u32_to_bytes(ms: u32) -> (r: [u8; 4])
    ensures
        r@ == be_bytes(ms),
        be_value(r@) == ms,
{
    let r = [(ms >> 24u32) as u8, (ms >> 16u32) as u8, (ms >> 8u32) as u8, ms as u8];
    proof {
        lemma_be_value_of_bytes(ms);
    }
    assert(r@ =~= be_bytes(ms));
    r
}

/// Decodes four big-endian bytes.
pub fn bytes_to_u32(bytes: [u8; 4]) -> (r: u32)
    ensures
        r == be_value(bytes@),
        be_bytes(r) == bytes@,
{
    let r = (bytes[0] as u32) << 24u32 | (bytes[1] as u32) << 16u32 | (bytes[2] as u32) << 8u32
        | bytes[3] as u32;
    proof {
        lemma_bytes_of_value(bytes[0], bytes[1], bytes[2], bytes[3]);
    }
    assert(be_bytes(r) =~= bytes@);
    r
}

/// Reading back the bytes of `n` gives `n`.
pub proof fn lemma_be_value_of_bytes(n: u32)
    ensures
        be_value(be_bytes(n)) == n,
{
    let (a, b, c, d) = ((n >> 24u32) as u8, (n >> 16u32) as u8, (n >> 8u32) as u8, n as u8);
    assert(a as u32 * 0x100_0000 + b as u32 * 0x1_0000 + c as u32 * 0x100 + d as u32 == n)
        by (bit_vector)
        requires
            a == (n >> 24u32) as u8,
            b == (n >> 16u32) as u8,
            c == (n >> 8u32) as u8,
            d == n as u8,
    ;
}

/// The bytes of the value of `a b c d` are `a b c d`.
pub proof fn lemma_bytes_of_value(a: u8, b: u8, c: u8, d: u8)
    ensures
        ({
            let n = ((a as u32) << 24u32 | (b as u32) << 16u32 | (c as u32) << 8u32 | d as u32);
            &&& be_bytes(n) == seq![a, b, c, d]
            &&& n == be_value(seq![a, b, c, d])
        }),
{
    let n = (a as u32) << 24u32 | (b as u32) << 16u32 | (c as u32) << 8u32 | d as u32;
    assert((n >> 24u32) as u8 == a && (n >> 16u32) as u8 == b && (n >> 8u32) as u8 == c
        && n as u8 == d && n == a as u32 * 0x100_0000 + b as u32 * 0x1_0000 + c as u32 * 0x100
        + d as u32) by (bit_vector)
        requires
            n == (a as u32) << 24u32 | (b as u32) << 16u32 | (c as u32) << 8u32 | d as u32,
    ;
    assert(be_bytes(n) =~= seq![a, b, c, d]);
}

} // verus!
