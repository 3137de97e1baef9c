//! Little-endian integers as they stand on the wire.

use vstd::prelude::*;

verus! {

/// The 16-bit value whose little-endian encoding is `b0`, `b1`.
pub open spec fn le_u16(b0: u8, b1: u8) -> int {
    b0 as int + 256 * (b1 as int)
}

/// The 32-bit value whose little-endian encoding is `b0`, `b1`, `b2`, `b3`.
pub open spec fn le_u32(b0: u8, b1: u8, b2: u8, b3: u8) -> int {
    b0 as int + 256 * (b1 as int) + 65536 * (b2 as int) + 16777216 * (b3 as int)
}

/// The two bytes that encode `value`, least significant first.
pub open spec fn le_bytes_u16(value: u16) -> Seq<u8> {
    seq![(value % 256) as u8, (value / 256) as u8]
}

/// The four bytes that encode `value`, least significant first.
pub open spec fn le_bytes_u32(value: u32) -> Seq<u8> {
    seq![
        (value % 256) as u8,
        ((value / 256) % 256) as u8,
        ((value / 65536) % 256) as u8,
        (value / 16777216) as u8,
    ]
}

/// Reads a 16-bit little-endian integer from its two bytes.
pub fn u16_from_le(b0: u8, b1: u8) -> (value: u16)
    ensures
        value as int == le_u16(b0, b1),
{
    let low: u16 = b0 as u16;
    let high: u16 = b1 as u16;
    low + high * 256
}

/// Reads a 32-bit little-endian integer from its four bytes.
pub fn u32_from_le(b0: u8, b1: u8, b2: u8, b3: u8) -> (value: u32)
    ensures
        value as int == le_u32(b0, b1, b2, b3),
{
    let w0: u32 = b0 as u32;
    let w1: u32 = b1 as u32;
    let w2: u32 = b2 as u32;
    let w3: u32 = b3 as u32;
    w0 + w1 * 256 + w2 * 65536 + w3 * 16777216
}

/// Writes a 16-bit integer as two bytes, least significant first.
pub fn u16_to_le(value: u16) -> (bytes: [u8; 2])
    ensures
        bytes@ == le_bytes_u16(value),
{
    let bytes: [u8; 2] = [(value % 256) as u8, (value / 256) as u8];
    assert(bytes@ =~= le_bytes_u16(value));
    bytes
}

/// Writes a 32-bit integer as four bytes, least significant first.
pub fn u32_to_le(value: u32) -> (bytes: [u8; 4])
    ensures
        bytes@ == le_bytes_u32(value),
{
    let bytes: [u8; 4] = [
        (value % 256) as u8,
        ((value / 256) % 256) as u8,
        ((value / 65536) % 256) as u8,
        (value / 16777216) as u8,
    ];
    assert(bytes@ =~= le_bytes_u32(value));
    bytes
}

/// Writing the value read from two bytes gives the two bytes back.
pub proof fn lemma_le_u16_bytes(b0: u8, b1: u8)
    ensures
        0 <= le_u16(b0, b1) <= u16::MAX,
        le_bytes_u16(le_u16(b0, b1) as u16) == seq![b0, b1],
{
    assert(le_bytes_u16(le_u16(b0, b1) as u16) =~= seq![b0, b1]);
}

/// Writing the value read from four bytes gives the four bytes back.
pub proof fn lemma_le_u32_bytes(b0: u8, b1: u8, b2: u8, b3: u8)
    ensures
        0 <= le_u32(b0, b1, b2, b3) <= u32::MAX,
        le_bytes_u32(le_u32(b0, b1, b2, b3) as u32) == seq![b0, b1, b2, b3],
{
    let (a, b, c, d) = (b0 as int, b1 as int, b2 as int, b3 as int);
    let v = le_u32(b0, b1, b2, b3);
    assert(v % 256 == a && v / 256 == b + 256 * c + 65536 * d) by {
        assert(v == 256 * (b + 256 * c + 65536 * d) + a);
    }
    assert((v / 256) % 256 == b && v / 65536 == c + 256 * d) by {
        assert(v == 65536 * (c + 256 * d) + (a + 256 * b));
        assert(v / 256 == 256 * (c + 256 * d) + b);
    }
    assert((v / 65536) % 256 == c && v / 16777216 == d) by {
        assert(v == 16777216 * d + (a + 256 * b + 65536 * c));
        assert(v / 65536 == 256 * d + c);
    }
    assert(le_bytes_u32(v as u32) =~= seq![b0, b1, b2, b3]);
}

/// Reading the bytes written for a 16-bit value gives the value back.
pub proof fn lemma_le_bytes_u16_value(value: u16)
    ensures
        le_bytes_u16(value).len() == 2,
        le_u16(le_bytes_u16(value)[0], le_bytes_u16(value)[1]) == value,
{
}

/// Reading the bytes written for a 32-bit value gives the value back.
pub proof fn lemma_le_bytes_u32_value(value: u32)
    ensures
        le_bytes_u32(value).len() == 4,
        le_u32(
            le_bytes_u32(value)[0],
            le_bytes_u32(value)[1],
            le_bytes_u32(value)[2],
            le_bytes_u32(value)[3],
        ) == value,
{
}

} // verus!
