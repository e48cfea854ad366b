//! Little-endian integer fields read out of a raw byte buffer.

use vstd::prelude::*;

verus! {

/// The value of the two bytes at `off`, read little-endian.
pub open spec fn u16_le(b: Seq<u8>, off: int) -> int {
    b[off] + 0x100 * b[off + 1]
}

/// The value of the four bytes at `off`, read little-endian.
pub open spec fn u32_le(b: Seq<u8>, off: int) -> int {
    b[off] + 0x100 * b[off + 1] + 0x1_0000 * b[off + 2] + 0x100_0000 * b[off + 3]
}

/// The value of the eight bytes at `off`, read little-endian.
pub open spec fn u64_le(b: Seq<u8>, off: int) -> int {
    b[off] + 0x100 * b[off + 1] + 0x1_0000 * b[off + 2] + 0x100_0000 * b[off + 3]
        + 0x1_0000_0000 * b[off + 4] + 0x100_0000_0000 * b[off + 5]
        + 0x1_0000_0000_0000 * b[off + 6] + 0x100_0000_0000_0000 * b[off + 7]
}

pub fn read_u16_le(b: &Vec<u8>, off: usize) -> (r: u16)
    requires
        off + 2 <= b.len(),
    ensures
        r == u16_le(b@, off as int),
{
    let lo = b[off] as u16;
    let hi = b[off + 1] as u16;
    lo + hi * 0x100
}

pub fn read_u32_le(b: &Vec<u8>, off: usize) -> (r: u32)
    requires
        off + 4 <= b.len(),
    ensures
        r == u32_le(b@, off as int),
{
    let b0 = b[off] as u32;
    let b1 = b[off + 1] as u32;
    let b2 = b[off + 2] as u32;
    let b3 = b[off + 3] as u32;
    b0 + b1 * 0x100 + b2 * 0x1_0000 + b3 * 0x100_0000
}

pub fn read_u64_le(b: &Vec<u8>, off: usize) -> (r: u64)
    requires
        off + 8 <= b.len(),
    ensures
        r == u64_le(b@, off as int),
{
    let b0 = b[off] as u64;
    let b1 = b[off + 1] as u64;
    let b2 = b[off + 2] as u64;
    let b3 = b[off + 3] as u64;
    let b4 = b[off + 4] as u64;
    let b5 = b[off + 5] as u64;
    let b6 = b[off + 6] as u64;
    let b7 = b[off + 7] as u64;
    b0 + b1 * 0x100 + b2 * 0x1_0000 + b3 * 0x100_0000 + b4 * 0x1_0000_0000
        + b5 * 0x100_0000_0000 + b6 * 0x1_0000_0000_0000 + b7 * 0x100_0000_0000_0000
}

} // verus!
