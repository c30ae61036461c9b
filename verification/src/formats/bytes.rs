//! Byte-reading helpers shared by the format parsers.

use vstd::prelude::*;

verus! {

/// The big-endian 16-bit value of the bytes at `o`.
pub open spec fn be16(d: Seq<u8>, o: int) -> int {
    d[o] * 256 + d[o + 1]
}

/// The big-endian 32-bit value of the bytes at `o`.
pub open spec fn be32(d: Seq<u8>, o: int) -> int {
    ((d[o] * 256 + d[o + 1]) * 256 + d[o + 2]) * 256 + d[o + 3]
}

/// The little-endian 32-bit value of the bytes at `o`.
pub open spec fn le32(d: Seq<u8>, o: int) -> int {
    ((d[o + 3] * 256 + d[o + 2]) * 256 + d[o + 1]) * 256 + d[o]
}

/// Read a big-endian `u16` from `data` at `offset`.
pub fn read_u16_be(data: &[u8], offset: usize) -> (r: Option<u16>)
    requires
        offset + 2 <= usize::MAX,
    ensures
        offset + 2 <= data@.len() ==> r == Some(be16(data@, offset as int) as u16),
        offset + 2 > data@.len() ==> r is None,
{
    if offset + 2 > data.len() {
        return None;
    }
    let v = (data[offset] as u16) * 256 + (data[offset + 1] as u16);
    Some(v)
}

/// Read a big-endian `u32` from `data` at `offset`.
pub fn read_u32_be(data: &[u8], offset: usize) -> (r: Option<u32>)
    requires
        offset + 4 <= usize::MAX,
    ensures
        offset + 4 <= data@.len() ==> r == Some(be32(data@, offset as int) as u32),
        offset + 4 > data@.len() ==> r is None,
{
    if offset + 4 > data.len() {
        return None;
    }
    let b0 = data[offset] as u32;
    let b1 = data[offset + 1] as u32;
    let b2 = data[offset + 2] as u32;
    let b3 = data[offset + 3] as u32;
    let v = ((b0 * 256 + b1) * 256 + b2) * 256 + b3;
    Some(v)
}

/// Read a little-endian `u32` from `data` at `offset`.
pub fn read_u32_le(data: &[u8], offset: usize) -> (r: Option<u32>)
    requires
        offset + 4 <= usize::MAX,
    ensures
        offset + 4 <= data@.len() ==> r == Some(le32(data@, offset as int) as u32),
        offset + 4 > data@.len() ==> r is None,
{
    if offset + 4 > data.len() {
        return None;
    }
    let b0 = data[offset] as u32;
    let b1 = data[offset + 1] as u32;
    let b2 = data[offset + 2] as u32;
    let b3 = data[offset + 3] as u32;
    let v = ((b3 * 256 + b2) * 256 + b1) * 256 + b0;
    Some(v)
}

} // verus!
