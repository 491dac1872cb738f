//! Network-byte-order (big-endian) field access over byte sequences.
//!
//! Every multi-byte field of a wire header is stored big-endian; these
//! helpers convert between the stored bytes and host-order integers, in
//! both directions.

use vstd::prelude::*;

verus! {

/// The host-order value of the big-endian 16-bit field at offset `i`.
pub open spec fn be16(s: Seq<u8>, i: int) -> u16
    recommends
        0 <= i,
        i + 2 <= s.len(),
{
    ((s[i] as int) * 0x100 + (s[i + 1] as int)) as u16
}

/// The host-order value of the big-endian 32-bit field at offset `i`.
pub open spec fn be32(s: Seq<u8>, i: int) -> u32
    recommends
        0 <= i,
        i + 4 <= s.len(),
{
    ((s[i] as int) * 0x1000000 + (s[i + 1] as int) * 0x10000 + (s[i + 2] as int) * 0x100 + (s[i
        + 3] as int)) as u32
}

/// Read the big-endian 16-bit field at offset `i` of `b` as a host-order
/// integer.
pub fn read_be16(b: &Vec<u8>, i: usize) -> (r: u16)
    requires
        i + 2 <= b.len(),
    ensures
        r == be16(b@, i as int),
{
    (b[i] as u16) * 0x100 + (b[i + 1] as u16)
}

/// Read the big-endian 32-bit field at offset `i` of `b` as a host-order
/// integer.
pub fn read_be32(b: &Vec<u8>, i: usize) -> (r: u32)
    requires
        i + 4 <= b.len(),
    ensures
        r == be32(b@, i as int),
{
    (b[i] as u32) * 0x1000000 + (b[i + 1] as u32) * 0x10000 + (b[i + 2] as u32) * 0x100 + (b[i
        + 3] as u32)
}

/// Store `v` big-endian into the two bytes at offset `i` of `b`; no other
/// byte changes, and reading the field back yields `v`.
pub fn write_be16(b: &mut Vec<u8>, i: usize, v: u16)
    requires
        i + 2 <= old(b).len(),
    ensures
        final(b)@ == old(b)@.update(i as int, (v >> 8) as u8).update(i + 1, (v & 0xff) as u8),
        final(b)@.len() == old(b)@.len(),
        be16(final(b)@, i as int) == v,
        forall|j: int|
            0 <= j < old(b)@.len() && j != i && j != i + 1 ==> final(b)@[j] == old(b)@[j],
{
    let hi: u8 = (v >> 8) as u8;
    let lo: u8 = (v & 0xff) as u8;
    b.set(i, hi);
    b.set(i + 1, lo);
    proof {
        assert(((v >> 8) as u8 as int) * 0x100 + ((v & 0xff) as u8 as int) == v as int)
            by (bit_vector);
    }
}

/// Store `v` big-endian into the four bytes at offset `i` of `b`; no other
/// byte changes, and reading the field back yields `v`.
pub fn write_be32(b: &mut Vec<u8>, i: usize, v: u32)
    requires
        i + 4 <= old(b).len(),
    ensures
        final(b)@ == old(b)@.update(i as int, (v >> 24) as u8).update(
            i + 1,
            ((v >> 16) & 0xff) as u8,
        ).update(i + 2, ((v >> 8) & 0xff) as u8).update(i + 3, (v & 0xff) as u8),
        final(b)@.len() == old(b)@.len(),
        be32(final(b)@, i as int) == v,
        forall|j: int|
            0 <= j < old(b)@.len() && !(i <= j < i + 4) ==> final(b)@[j] == old(b)@[j],
{
    let b0: u8 = (v >> 24) as u8;
    let b1: u8 = ((v >> 16) & 0xff) as u8;
    let b2: u8 = ((v >> 8) & 0xff) as u8;
    let b3: u8 = (v & 0xff) as u8;
    b.set(i, b0);
    b.set(i + 1, b1);
    b.set(i + 2, b2);
    b.set(i + 3, b3);
    proof {
        assert(((v >> 24) as u8 as int) * 0x1000000 + (((v >> 16) & 0xff) as u8 as int) * 0x10000
            + (((v >> 8) & 0xff) as u8 as int) * 0x100 + ((v & 0xff) as u8 as int) == v as int)
            by (bit_vector);
    }
}

} // verus!
