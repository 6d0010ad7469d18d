use vstd::prelude::*;

verus! {

/// The unsigned value of the first eight bytes of `p`, least significant first.
pub open spec fn le_u64(p: Seq<u8>) -> int {
    p[0] + p[1] * 0x100 + p[2] * 0x1_0000 + p[3] * 0x100_0000 + p[4] * 0x1_0000_0000 + p[5]
        * 0x100_0000_0000 + p[6] * 0x1_0000_0000_0000 + p[7] * 0x100_0000_0000_0000
}

/// The unsigned value of the first four bytes of `p`, least significant first.
pub open spec fn le_u32(p: Seq<u8>) -> int {
    p[0] + p[1] * 0x100 + p[2] * 0x1_0000 + p[3] * 0x100_0000
}

/// The two's-complement reading of a 64-bit pattern.
pub open spec fn signed64(u: int) -> int {
    if u < 0x8000_0000_0000_0000 {
        u
    } else {
        u - 0x1_0000_0000_0000_0000
    }
}

/// The two's-complement reading of a 32-bit pattern.
pub open spec fn signed32(u: int) -> int {
    if u < 0x8000_0000 {
        u
    } else {
        u - 0x1_0000_0000
    }
}

/// The eight payload bytes read as a little-endian unsigned integer.
pub fn read_u64(p: &[u8; 8]) -> (r: u64)
    ensures
        r as int == le_u64(p@),
{
    (p[0] as u64) + (p[1] as u64) * 0x100 + (p[2] as u64) * 0x1_0000 + (p[3] as u64) * 0x100_0000
        + (p[4] as u64) * 0x1_0000_0000 + (p[5] as u64) * 0x100_0000_0000 + (p[6] as u64)
        * 0x1_0000_0000_0000 + (p[7] as u64) * 0x100_0000_0000_0000
}

/// The leading four payload bytes read as a little-endian unsigned integer.
pub fn read_u32(p: &[u8; 8]) -> (r: u32)
    ensures
        r as int == le_u32(p@),
{
    (p[0] as u32) + (p[1] as u32) * 0x100 + (p[2] as u32) * 0x1_0000 + (p[3] as u32) * 0x100_0000
}

/// The eight payload bytes read as a little-endian signed 64-bit integer.
pub fn read_i64(p: &[u8; 8]) -> (r: i64)
    ensures
        r as int == signed64(le_u64(p@)),
{
    let u = read_u64(p);
    if u < 0x8000_0000_0000_0000 {
        u as i64
    } else {
        ((u - 0x8000_0000_0000_0000) as i64) + i64::MIN
    }
}

/// The leading four payload bytes read as a little-endian signed 32-bit integer.
pub fn read_i32(p: &[u8; 8]) -> (r: i32)
    ensures
        r as int == signed32(le_u32(p@)),
{
    let u = read_u32(p);
    if u < 0x8000_0000 {
        u as i32
    } else {
        ((u - 0x8000_0000) as i32) + i32::MIN
    }
}

} // verus!
