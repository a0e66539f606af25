//! Unsigned 32-bit integers as four bytes, the most significant first.

use vstd::prelude::*;

verus! {

/// The number that the first four bytes of `b` spell, the most significant
/// byte first.
pub open spec fn be_value(b: Seq<u8>) -> int {
    b[0] * 0x100_0000 + b[1] * 0x1_0000 + b[2] * 0x100 + b[3]
}

/// The four bytes that spell `x`, the most significant first.
pub open spec fn be_bytes(x: u32) -> Seq<u8> {
    seq![
        (x / 0x100_0000) as u8,
        (x / 0x1_0000 % 0x100) as u8,
        (x / 0x100 % 0x100) as u8,
        (x % 0x100) as u8,
    ]
}

/// Four bytes always spell a number that fits 32 bits.
pub proof fn lemma_be_value_fits(b: Seq<u8>)
    ensures
        0 <= be_value(b) <= u32::MAX,
{
}

/// Reading the bytes of a number gives the number back.
pub proof fn lemma_value_of_bytes(x: u32)
    ensures
        be_bytes(x).len() == 4,
        be_value(be_bytes(x)) == x,
{
}

/// Spelling the number read from four bytes gives those bytes back.
pub proof fn lemma_bytes_of_value(b: Seq<u8>)
    requires
        b.len() >= 4,
    ensures
        be_bytes(be_value(b) as u32) == b.subrange(0, 4),
{
    let (b0, b1, b2, b3) = (b[0] as u32, b[1] as u32, b[2] as u32, b[3] as u32);
    let x: u32 = be_value(b) as u32;
    assert(x / 0x100_0000 == b0 && x / 0x1_0000 % 0x100 == b1 && x / 0x100 % 0x100 == b2 && x
        % 0x100 == b3) by (bit_vector)
        requires
            b0 < 0x100,
            b1 < 0x100,
            b2 < 0x100,
            b3 < 0x100,
            x == b0 * 0x100_0000 + b1 * 0x1_0000 + b2 * 0x100 + b3,
    ;
    assert(be_bytes(x) =~= b.subrange(0, 4));
}

/// Reads the first four bytes of `value` as a big-endian number.
pub fn bytes_to_u32(value: &[u8]) -> (out: u32)
    requires
        value@.len() >= 4,
    ensures
        out == be_value(value@),
{
    let b0: u32 = value[0] as u32;
    let b1: u32 = value[1] as u32;
    let b2: u32 = value[2] as u32;
    let b3: u32 = value[3] as u32;
    assert(b0 << 24 == b0 * 0x100_0000 && b1 << 16 == b1 * 0x1_0000 && b2 << 8 == b2 * 0x100)
        by (bit_vector)
        requires
            b0 < 0x100,
            b1 < 0x100,
            b2 < 0x100,
    ;
    (b0 << 24) + (b1 << 16) + (b2 << 8) + b3
}

/// Spells `value` as four bytes, the most significant first.
pub fn u32_to_bytes(value: u32) -> (out: [u8; 4])
    ensures
        out@ == be_bytes(value),
{
    assert(value >> 24 == value / 0x100_0000 && (value >> 16) & 0xff == value / 0x1_0000 % 0x100
        && (value >> 8) & 0xff == value / 0x100 % 0x100 && value & 0xff == value % 0x100
        && value >> 24 < 0x100) by (bit_vector);
    let out = [
        (value >> 24) as u8,
        ((value >> 16) & 0xff) as u8,
        ((value >> 8) & 0xff) as u8,
        (value & 0xff) as u8,
    ];
    assert(out@ =~= be_bytes(value));
    out
}

} // verus!
