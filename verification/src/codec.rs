//! Little- and big-endian integer views of a byte sequence, and the
//! two's-complement reading of a 32-bit word.

use vstd::prelude::*;

verus! {

/// The unsigned value of the two bytes at `i`, little endian.
pub open spec fn le16_at(s: Seq<u8>, i: int) -> int {
    s[i] + 0x100 * s[i + 1]
}

/// The unsigned value of the four bytes at `i`, little endian.
pub open spec fn le32_at(s: Seq<u8>, i: int) -> int {
    s[i] + 0x100 * s[i + 1] + 0x10000 * s[i + 2] + 0x1000000 * s[i + 3]
}

/// The unsigned value of the four bytes at `i`, big endian.
pub open spec fn be32_at(s: Seq<u8>, i: int) -> int {
    s[i + 3] + 0x100 * s[i + 2] + 0x10000 * s[i + 1] + 0x1000000 * s[i]
}

/// The unsigned value of the eight bytes at `i`, little endian.
pub open spec fn le64_at(s: Seq<u8>, i: int) -> int {
    le32_at(s, i) + 0x100000000 * le32_at(s, i + 4)
}

/// The two's-complement reading of an unsigned 32-bit value.
pub open spec fn signed32(u: int) -> int {
    if u < 0x80000000 {
        u
    } else {
        u - 0x100000000
    }
}

/// Assemble four little-endian bytes into their unsigned value.
pub fn u32_from_le(b0: u8, b1: u8, b2: u8, b3: u8) -> (r: u32)
    ensures
        r == b0 + 0x100 * b1 + 0x10000 * b2 + 0x1000000 * b3,
{
    (b0 as u32) + 0x100 * (b1 as u32) + 0x10000 * (b2 as u32) + 0x1000000 * (b3 as u32)
}

/// Assemble two little-endian bytes into their unsigned value.
pub fn u16_from_le(b0: u8, b1: u8) -> (r: u16)
    ensures
        r == b0 + 0x100 * b1,
{
    (b0 as u16) + 0x100 * (b1 as u16)
}

/// Assemble eight little-endian bytes into their unsigned value.
pub fn u64_from_le(b: [u8; 8]) -> (r: u64)
    ensures
        r == b@[0] + 0x100 * b@[1] + 0x10000 * b@[2] + 0x1000000 * b@[3] + 0x100000000 * b@[4]
            + 0x10000000000 * b@[5] + 0x1000000000000 * b@[6] + 0x100000000000000 * b@[7],
{
    (b[0] as u64) + 0x100 * (b[1] as u64) + 0x10000 * (b[2] as u64) + 0x1000000 * (b[3] as u64)
        + 0x100000000 * (b[4] as u64) + 0x10000000000 * (b[5] as u64) + 0x1000000000000 * (
    b[6] as u64) + 0x100000000000000 * (b[7] as u64)
}

/// Reinterpret an unsigned 32-bit value as a signed one, two's complement.
pub fn reinterpret_signed(u: u32) -> (r: i32)
    ensures
        r == signed32(u as int),
{
    if u < 0x80000000 {
        u as i32
    } else {
        -((0xffffffffu32 - u) as i32) - 1
    }
}

} // verus!
