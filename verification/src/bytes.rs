//! Numbers as bytes, low byte first.

use vstd::prelude::*;

verus! {

/// The two bytes of a 16-bit value, low byte first.
pub open spec fn le_bytes_u16(x: u16) -> Seq<u8> {
    seq![(x % 256) as u8, (x / 256) as u8]
}

/// The four bytes of a 32-bit value, low byte first.
pub open spec fn le_bytes_u32(x: u32) -> Seq<u8> {
    seq![
        (x % 256) as u8,
        (x / 256 % 256) as u8,
        (x / 65536 % 256) as u8,
        (x / 16777216) as u8,
    ]
}

/// The 16-bit value of two bytes, low byte first.
pub open spec fn le_u16(b: Seq<u8>) -> u16 {
    (b[0] + b[1] * 0x100) as u16
}

/// The 32-bit value of four bytes, low byte first.
pub open spec fn le_u32(b: Seq<u8>) -> u32 {
    (b[0] + b[1] * 0x100 + b[2] * 0x1_0000 + b[3] * 0x100_0000) as u32
}

/// The 64-bit value of eight bytes, low byte first.
pub open spec fn le_u64(b: Seq<u8>) -> u64 {
    (b[0] + b[1] * 0x100 + b[2] * 0x1_0000 + b[3] * 0x100_0000 + b[4] * 0x1_0000_0000 + b[5]
        * 0x100_0000_0000 + b[6] * 0x1_0000_0000_0000 + b[7] * 0x100_0000_0000_0000) as u64
}

/// The two bytes of a 16-bit value, low byte first.
pub fn u16_to_le(x: u16) -> (r: [u8; 2])
    ensures
        r@ == le_bytes_u16(x),
{
    let r = [(x % 256) as u8, (x / 256) as u8];
    assert(r@ =~= le_bytes_u16(x));
    r
}

/// The four bytes of a 32-bit value, low byte first.
pub fn u32_to_le(x: u32) -> (r: [u8; 4])
    ensures
        r@ == le_bytes_u32(x),
{
    let r = [
        (x % 256) as u8,
        (x / 256 % 256) as u8,
        (x / 65536 % 256) as u8,
        (x / 16777216) as u8,
    ];
    assert(r@ =~= le_bytes_u32(x));
    r
}

/// The 16-bit value of two bytes, low byte first.
pub fn u16_from_le(b: &[u8]) -> (r: u16)
    requires
        b@.len() == 2,
    ensures
        r == le_u16(b@),
{
    b[0] as u16 + b[1] as u16 * 0x100
}

/// The 32-bit value of four bytes, low byte first.
pub fn u32_from_le(b: &[u8]) -> (r: u32)
    requires
        b@.len() == 4,
    ensures
        r == le_u32(b@),
{
    b[0] as u32 + b[1] as u32 * 0x100 + b[2] as u32 * 0x1_0000 + b[3] as u32 * 0x100_0000
}

/// The 64-bit value of eight bytes, low byte first.
pub fn u64_from_le(b: &[u8]) -> (r: u64)
    requires
        b@.len() == 8,
    ensures
        r == le_u64(b@),
{
    b[0] as u64 + b[1] as u64 * 0x100 + b[2] as u64 * 0x1_0000 + b[3] as u64 * 0x100_0000
        + b[4] as u64 * 0x1_0000_0000 + b[5] as u64 * 0x100_0000_0000 + b[6] as u64
        * 0x1_0000_0000_0000 + b[7] as u64 * 0x100_0000_0000_0000
}

} // verus!
