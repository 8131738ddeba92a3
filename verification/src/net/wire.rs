//! Helpers for reading and writing byte strings.

use vstd::prelude::*;
use crate::net::checksum::{hi_byte, lo_byte};

verus! {

/// The two big-endian bytes of `x`.
pub open spec fn be16_bytes(x: u16) -> Seq<u8> {
    seq![(x / 256) as u8, (x % 256) as u8]
}

/// The four big-endian bytes of `x`.
pub open spec fn be32_bytes(x: u32) -> Seq<u8> {
    seq![
        (x / 0x100_0000) as u8,
        ((x / 0x1_0000) % 256) as u8,
        ((x / 0x100) % 256) as u8,
        (x % 256) as u8,
    ]
}

/// A copy of `data[from..to]`.
pub fn copy_range(data: &[u8], from: usize, to: usize) -> (r: Vec<u8>)
    requires
        from <= to <= data@.len(),
    ensures
        r@ == data@.subrange(from as int, to as int),
{
    let mut out: Vec<u8> = Vec::new();
    let mut i: usize = from;
    while i < to
        invariant
            from <= i <= to <= data@.len(),
            out@ == data@.subrange(from as int, i as int),
        decreases to - i,
    {
        out.push(data[i]);
        i = i + 1;
    }
    out
}

/// Appends every byte of `src` to `out`.
pub fn push_all(out: &mut Vec<u8>, src: &[u8])
    ensures
        final(out)@ == old(out)@ + src@,
{
    let mut i: usize = 0;
    while i < src.len()
        invariant
            i <= src@.len(),
            out@ == old(out)@ + src@.subrange(0, i as int),
        decreases src@.len() - i,
    {
        out.push(src[i]);
        i = i + 1;
    }
    assert(src@.subrange(0, src@.len() as int) == src@);
}

/// Appends the two big-endian bytes of `x`.
pub fn push_u16(out: &mut Vec<u8>, x: u16)
    ensures
        final(out)@ == old(out)@ + be16_bytes(x),
{
    out.push(hi_byte(x));
    out.push(lo_byte(x));
}

/// Appends the four big-endian bytes of `x`.
pub fn push_u32(out: &mut Vec<u8>, x: u32)
    ensures
        final(out)@ == old(out)@ + be32_bytes(x),
{
    out.push((x / 0x100_0000) as u8);
    out.push(((x / 0x1_0000) % 256) as u8);
    out.push(((x / 0x100) % 256) as u8);
    out.push((x % 256) as u8);
}

/// The six bytes of `data` from `off` on.
pub fn read6(data: &[u8], off: usize) -> (r: [u8; 6])
    requires
        off + 6 <= data@.len(),
    ensures
        r@ == data@.subrange(off as int, off + 6),
{
    let r: [u8; 6] = [
        data[off],
        data[off + 1],
        data[off + 2],
        data[off + 3],
        data[off + 4],
        data[off + 5],
    ];
    assert(r@ =~= data@.subrange(off as int, off + 6));
    r
}

/// The four bytes of `data` from `off` on.
pub fn read4(data: &[u8], off: usize) -> (r: [u8; 4])
    requires
        off + 4 <= data@.len(),
    ensures
        r@ == data@.subrange(off as int, off + 4),
{
    let r: [u8; 4] = [data[off], data[off + 1], data[off + 2], data[off + 3]];
    assert(r@ =~= data@.subrange(off as int, off + 4));
    r
}

/// Reading back what `be16_bytes` wrote gives the number again.
pub proof fn lemma_be16_round_trip(x: u16)
    ensures
        crate::net::checksum::be16(be16_bytes(x)[0], be16_bytes(x)[1]) == x,
{
}

/// Reading back what `be32_bytes` wrote gives the number again.
pub proof fn lemma_be32_round_trip(x: u32)
    ensures
        crate::net::checksum::be32(
            be32_bytes(x)[0],
            be32_bytes(x)[1],
            be32_bytes(x)[2],
            be32_bytes(x)[3],
        ) == x,
{
}

} // verus!
