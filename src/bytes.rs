use vstd::prelude::*;

verus! {

/// The unsigned 16-bit integer stored little-endian at index `i` of `b`.
pub open spec fn le_u16(b: Seq<u8>, i: int) -> u16 {
    (b[i] as int + 0x100 * b[i + 1] as int) as u16
}

/// The unsigned 32-bit integer stored little-endian at index `i` of `b`.
pub open spec fn le_u32(b: Seq<u8>, i: int) -> u32 {
    (b[i] as int + 0x100 * b[i + 1] as int + 0x1_0000 * b[i + 2] as int + 0x100_0000
        * b[i + 3] as int) as u32
}

/// Reads the little-endian `u16` at index `i`.
pub fn read_u16_le(data: &[u8], i: usize) -> (r: u16)
    requires
        i + 2 <= data@.len(),
    ensures
        r == le_u16(data@, i as int),
{
    let b0 = data[i] as u16;
    let b1 = data[i + 1] as u16;
    b0 + 0x100 * b1
}

/// Reads the little-endian `u32` at index `i`.
pub fn read_u32_le(data: &[u8], i: usize) -> (r: u32)
    requires
        i + 4 <= data@.len(),
    ensures
        r == le_u32(data@, i as int),
{
    let b0 = data[i] as u32;
    let b1 = data[i + 1] as u32;
    let b2 = data[i + 2] as u32;
    let b3 = data[i + 3] as u32;
    b0 + 0x100 * b1 + 0x1_0000 * b2 + 0x100_0000 * b3
}

} // verus!
