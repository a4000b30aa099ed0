//! Little-endian integer reads over in-memory byte buffers.
//!
//! Every dump format handled by this crate is little-endian throughout, so
//! the decoders all go through these helpers.

use vstd::prelude::*;

verus! {

/// The 32-bit little-endian value stored at offset `i` of `b`.
pub open spec fn le32_at(b: Seq<u8>, i: int) -> u32
    recommends
        0 <= i,
        i + 4 <= b.len(),
{
    (b[i] + b[i + 1] * 0x100 + b[i + 2] * 0x10000 + b[i + 3] * 0x1000000) as u32
}

/// The 64-bit little-endian value stored at offset `i` of `b`.
pub open spec fn le64_at(b: Seq<u8>, i: int) -> u64
    recommends
        0 <= i,
        i + 8 <= b.len(),
{
    (le32_at(b, i) + le32_at(b, i + 4) * 0x100000000) as u64
}

/// Reads the little-endian `u32` at offset `i`.
pub fn read_u32_le(b: &Vec<u8>, i: usize) -> (x: u32)
    requires
        i + 4 <= b@.len(),
    ensures
        x == le32_at(b@, i as int),
{
    let _n: usize = b.len();
    let x: u32 = b[i] as u32 + b[i + 1] as u32 * 0x100 + b[i + 2] as u32 * 0x10000
        + b[i + 3] as u32 * 0x1000000;
    x
}

/// Reads the little-endian `u64` at offset `i`.
pub fn read_u64_le(b: &Vec<u8>, i: usize) -> (x: u64)
    requires
        i + 8 <= b@.len(),
    ensures
        x == le64_at(b@, i as int),
{
    let _n: usize = b.len();
    let lo = read_u32_le(b, i);
    let hi = read_u32_le(b, i + 4);
    let x: u64 = lo as u64 + hi as u64 * 0x100000000;
    x
}

/// Copies `b[i..i + n]` into a fresh vector.
pub fn copy_range(b: &Vec<u8>, i: usize, n: usize) -> (out: Vec<u8>)
    requires
        i + n <= b@.len(),
    ensures
        out@ == b@.subrange(i as int, i + n),
{
    let len: usize = b.len();
    let mut out: Vec<u8> = Vec::new();
    let mut k: usize = 0;
    while k < n
        invariant
            i + n <= b@.len(),
            len == b@.len(),
            k <= n,
            out@ == b@.subrange(i as int, i + k),
        decreases n - k,
    {
        out.push(b[i + k]);
        assert(out@ =~= b@.subrange(i as int, i + k + 1));
        k = k + 1;
    }
    out
}

} // verus!
