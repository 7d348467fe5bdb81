use vstd::prelude::*;

verus! {

/// The unsigned little-endian integer held by the two bytes of `b` from `i` on.
pub open spec fn le_u16_at(b: Seq<u8>, i: int) -> int {
    b[i] as int + 0x100 * b[i + 1]
}

/// The unsigned little-endian integer held by the four bytes of `b` from `i` on.
pub open spec fn le_u32_at(b: Seq<u8>, i: int) -> int {
    b[i] as int + 0x100 * b[i + 1] + 0x1_0000 * b[i + 2] + 0x100_0000 * b[i + 3]
}

/// The unsigned little-endian integer held by the eight bytes of `b` from `i` on.
pub open spec fn le_u64_at(b: Seq<u8>, i: int) -> int {
    le_u32_at(b, i) + 0x1_0000_0000 * le_u32_at(b, i + 4)
}

pub fn read_u16_le(b: &[u8], i: usize) -> (r: u16)
    requires
        i + 2 <= b@.len(),
    ensures
        r as int == le_u16_at(b@, i as int),
{
    b[i] as u16 + 0x100 * (b[i + 1] as u16)
}

pub fn read_u32_le(b: &[u8], i: usize) -> (r: u64)
    requires
        i + 4 <= b@.len(),
    ensures
        r as int == le_u32_at(b@, i as int),
        r < 0x1_0000_0000,
{
    let b0 = b[i] as u64;
    let b1 = b[i + 1] as u64;
    let b2 = b[i + 2] as u64;
    let b3 = b[i + 3] as u64;
    b0 + 0x100 * b1 + 0x1_0000 * b2 + 0x100_0000 * b3
}

pub fn read_u64_le(b: &[u8], i: usize) -> (r: u64)
    requires
        i + 8 <= b@.len(),
    ensures
        r as int == le_u64_at(b@, i as int),
{
    let lo = read_u32_le(b, i);
    assert(b@.len() == b.len());
    let hi = read_u32_le(b, i + 4);
    lo + 0x1_0000_0000 * hi
}

} // verus!
