//! Fixed-width little-endian field readers and range copies over an
//! in-memory byte image. Every multi-byte integer in the ZIP format is
//! little-endian and either 16 or 32 bits wide.

use vstd::prelude::*;

verus! {

/// The unsigned 16-bit little-endian integer stored at byte offset `i`.
pub open spec fn le16(s: Seq<u8>, i: int) -> int
    recommends
        0 <= i,
        i + 2 <= s.len(),
{
    s[i] + 0x100 * s[i + 1]
}

/// The unsigned 32-bit little-endian integer stored at byte offset `i`.
pub open spec fn le32(s: Seq<u8>, i: int) -> int
    recommends
        0 <= i,
        i + 4 <= s.len(),
{
    s[i] + 0x100 * s[i + 1] + 0x1_0000 * s[i + 2] + 0x100_0000 * s[i + 3]
}

/// Read the 16-bit little-endian field at offset `i`.
pub fn read_le16(a: &Vec<u8>, i: usize) -> (r: u16)
    requires
        i + 2 <= a.len(),
    ensures
        r == le16(a@, i as int),
{
    (a[i] as u16) + (a[i + 1] as u16) * 0x100
}

/// Read the 32-bit little-endian field at offset `i`.
pub fn read_le32(a: &Vec<u8>, i: usize) -> (r: u32)
    requires
        i + 4 <= a.len(),
    ensures
        r == le32(a@, i as int),
{
    (a[i] as u32) + (a[i + 1] as u32) * 0x100 + (a[i + 2] as u32) * 0x1_0000 + (a[i + 3]
        as u32) * 0x100_0000
}

/// Copy `len` bytes starting at `start` into a fresh vector.
pub fn copy_range(a: &Vec<u8>, start: usize, len: usize) -> (r: Vec<u8>)
    requires
        start + len <= a.len(),
    ensures
        r@ == a@.subrange(start as int, start as int + len as int),
{
    let mut r: Vec<u8> = Vec::new();
    proof {
        assert(r@ =~= a@.subrange(start as int, start as int));
    }
    let mut k: usize = 0;
    while k < len
        invariant
            k <= len,
            start + len <= a.len(),
            r@ == a@.subrange(start as int, start as int + k as int),
        decreases len - k,
    {
        r.push(a[start + k]);
        k = k + 1;
        proof {
            assert(r@ =~= a@.subrange(start as int, start as int + k as int));
        }
    }
    r
}

} // verus!
