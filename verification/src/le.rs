//! Little-endian field decoding for the TIFF byte stream.
use vstd::prelude::*;

verus! {

/// Value of the little-endian u16 stored at `o` in `b`.
pub open spec fn le16(b: Seq<u8>, o: int) -> int {
    b[o] + 256 * b[o + 1]
}

/// Value of the little-endian u32 stored at `o` in `b`.
pub open spec fn le32(b: Seq<u8>, o: int) -> int {
    le16(b, o) + 65536 * le16(b, o + 2)
}

/// Value of the little-endian u64 stored at `o` in `b`.
pub open spec fn le64(b: Seq<u8>, o: int) -> int {
    le32(b, o) + 4294967296 * le32(b, o + 4)
}

pub fn read_u16(data: &[u8], off: usize) -> (r: u16)
    requires
        off + 2 <= data@.len(),
    ensures
        r == le16(data@, off as int),
{
    let lo = data[off] as u16;
    let hi = data[off + 1] as u16;
    lo + hi * 256
}

pub fn read_u32(data: &[u8], off: usize) -> (r: u32)
    requires
        off + 4 <= data@.len(),
    ensures
        r == le32(data@, off as int),
{
    let n = data.len();
    assert(off + 4 <= n);
    let lo = read_u16(data, off) as u32;
    let hi = read_u16(data, off + 2) as u32;
    lo + hi * 65536
}

pub fn read_u64(data: &[u8], off: usize) -> (r: u64)
    requires
        off + 8 <= data@.len(),
    ensures
        r == le64(data@, off as int),
{
    let n = data.len();
    assert(off + 8 <= n);
    let lo = read_u32(data, off) as u64;
    let hi = read_u32(data, off + 4) as u64;
    lo + hi * 4294967296
}

} // verus!
