//! Big-endian integers and byte string comparison.

use vstd::prelude::*;

verus! {

/// The 16-bit integer whose big-endian encoding is `hi, lo`.
pub open spec fn be_u16(hi: u8, lo: u8) -> u16 {
    (hi * 0x100 + lo) as u16
}

/// The 32-bit integer whose big-endian encoding is `b0, b1, b2, b3`.
pub open spec fn be_u32(b0: u8, b1: u8, b2: u8, b3: u8) -> u32 {
    (b0 * 0x100_0000 + b1 * 0x1_0000 + b2 * 0x100 + b3) as u32
}

/// The big-endian encoding of a 16-bit integer.
pub open spec fn u16_bytes(n: u16) -> Seq<u8> {
    seq![(n / 0x100) as u8, (n % 0x100) as u8]
}

/// The big-endian encoding of a 32-bit integer.
pub open spec fn u32_bytes(n: u32) -> Seq<u8> {
    seq![
        (n / 0x100_0000) as u8,
        (n / 0x1_0000 % 0x100) as u8,
        (n / 0x100 % 0x100) as u8,
        (n % 0x100) as u8,
    ]
}

/// Decoding the encoding of a 16-bit integer gives the integer back.
pub proof fn lemma_u16_decode_encode(n: u16)
    ensures
        be_u16(u16_bytes(n)[0], u16_bytes(n)[1]) == n,
{
}

/// Encoding a decoded 16-bit integer gives its two bytes back.
pub proof fn lemma_u16_encode_decode(hi: u8, lo: u8)
    ensures
        u16_bytes(be_u16(hi, lo)) == seq![hi, lo],
{
}

/// Decoding the encoding of a 32-bit integer gives the integer back.
pub proof fn lemma_u32_decode_encode(n: u32)
    ensures
        ({
            let b = u32_bytes(n);
            be_u32(b[0], b[1], b[2], b[3]) == n
        }),
{
}

/// Encoding a decoded 32-bit integer gives its four bytes back.
pub proof fn lemma_u32_encode_decode(b0: u8, b1: u8, b2: u8, b3: u8)
    ensures
        u32_bytes(be_u32(b0, b1, b2, b3)) == seq![b0, b1, b2, b3],
{
    let n = be_u32(b0, b1, b2, b3);
    assert(n / 0x100_0000 == b0);
    assert(n / 0x1_0000 == b0 * 0x100 + b1);
    assert(n / 0x100 == (b0 * 0x100 + b1) * 0x100 + b2);
    assert(n / 0x1_0000 % 0x100 == b1);
    assert(n / 0x100 % 0x100 == b2);
    assert(n % 0x100 == b3);
    assert(u32_bytes(n) =~= seq![b0, b1, b2, b3]);
}

/// Decode a big-endian 16-bit integer.
pub fn decode_u16(hi: u8, lo: u8) -> (n: u16)
    ensures
        n == be_u16(hi, lo),
        n == 0x100 * hi + lo,
{
    hi as u16 * 0x100 + lo as u16
}

/// Decode a big-endian 32-bit integer.
pub fn decode_u32(b0: u8, b1: u8, b2: u8, b3: u8) -> (n: u32)
    ensures
        n == be_u32(b0, b1, b2, b3),
        n == 0x100_0000 * b0 + 0x1_0000 * b1 + 0x100 * b2 + b3,
{
    b0 as u32 * 0x100_0000 + b1 as u32 * 0x1_0000 + b2 as u32 * 0x100 + b3 as u32
}

/// Whether two byte strings are equal.
pub fn bytes_equal(a: &[u8], b: &[u8]) -> (equal: bool)
    ensures
        equal == (a@ == b@),
{
    if a.len() != b.len() {
        return false;
    }
    for i in 0..a.len()
        invariant
            a@.len() == b@.len(),
            forall|j: int| 0 <= j < i ==> a@[j] == b@[j],
    {
        if a[i] != b[i] {
            return false;
        }
    }
    assert(a@ =~= b@);
    true
}

} // verus!
