//! Little-endian reads and writes of integer fields inside byte buffers.
//!
//! The KVM memory-region descriptor and every virtqueue structure are
//! little-endian records in flat memory; these helpers are the only place
//! where integers meet bytes.

use vstd::prelude::*;

verus! {

/// Value of the two little-endian bytes at `off`.
pub open spec fn le16(b: Seq<u8>, off: int) -> u16 {
    (b[off] as u16) | ((b[off + 1] as u16) << 8)
}

/// Value of the four little-endian bytes at `off`.
pub open spec fn le32(b: Seq<u8>, off: int) -> u32 {
    (b[off] as u32) | ((b[off + 1] as u32) << 8) | ((b[off + 2] as u32) << 16) | ((b[off
        + 3] as u32) << 24)
}

/// Value of the eight little-endian bytes at `off`.
pub open spec fn le64(b: Seq<u8>, off: int) -> u64 {
    (b[off] as u64) | ((b[off + 1] as u64) << 8) | ((b[off + 2] as u64) << 16) | ((b[off
        + 3] as u64) << 24) | ((b[off + 4] as u64) << 32) | ((b[off + 5] as u64) << 40) | ((b[off
        + 6] as u64) << 48) | ((b[off + 7] as u64) << 56)
}

/// The buffer after a write of the two little-endian bytes of `x` at `off`.
pub open spec fn le16_write(b: Seq<u8>, off: int, x: u16) -> Seq<u8> {
    b.update(off, (x & 0xff) as u8).update(off + 1, ((x >> 8) & 0xff) as u8)
}

/// The buffer after a write of the four little-endian bytes of `x` at `off`.
pub open spec fn le32_write(b: Seq<u8>, off: int, x: u32) -> Seq<u8> {
    b.update(off, (x & 0xff) as u8).update(off + 1, ((x >> 8) & 0xff) as u8).update(
        off + 2,
        ((x >> 16) & 0xff) as u8,
    ).update(off + 3, ((x >> 24) & 0xff) as u8)
}

/// The buffer after a write of the eight little-endian bytes of `x` at `off`.
pub open spec fn le64_write(b: Seq<u8>, off: int, x: u64) -> Seq<u8> {
    b.update(off, (x & 0xff) as u8).update(off + 1, ((x >> 8) & 0xff) as u8).update(
        off + 2,
        ((x >> 16) & 0xff) as u8,
    ).update(off + 3, ((x >> 24) & 0xff) as u8).update(off + 4, ((x >> 32) & 0xff) as u8).update(
        off + 5,
        ((x >> 40) & 0xff) as u8,
    ).update(off + 6, ((x >> 48) & 0xff) as u8).update(off + 7, ((x >> 56) & 0xff) as u8)
}

/// Read the two little-endian bytes at `off`.
pub fn read_u16_le(b: &Vec<u8>, off: usize) -> (r: u16)
    requires
        off + 2 <= b@.len(),
    ensures
        r == le16(b@, off as int),
{
    let n: usize = b.len();
    (b[off] as u16) | ((b[off + 1] as u16) << 8u16)
}

/// Read the four little-endian bytes at `off`.
pub fn read_u32_le(b: &Vec<u8>, off: usize) -> (r: u32)
    requires
        off + 4 <= b@.len(),
    ensures
        r == le32(b@, off as int),
{
    let n: usize = b.len();
    (b[off] as u32) | ((b[off + 1] as u32) << 8u32) | ((b[off + 2] as u32) << 16u32) | ((b[off
        + 3] as u32) << 24u32)
}

/// Read the eight little-endian bytes at `off`.
pub fn read_u64_le(b: &Vec<u8>, off: usize) -> (r: u64)
    requires
        off + 8 <= b@.len(),
    ensures
        r == le64(b@, off as int),
{
    let n: usize = b.len();
    (b[off] as u64) | ((b[off + 1] as u64) << 8u64) | ((b[off + 2] as u64) << 16u64) | ((b[off
        + 3] as u64) << 24u64) | ((b[off + 4] as u64) << 32u64) | ((b[off + 5] as u64) << 40u64)
        | ((b[off + 6] as u64) << 48u64) | ((b[off + 7] as u64) << 56u64)
}

/// Write `x` as two little-endian bytes at `off`.
pub fn write_u16_le(b: &mut Vec<u8>, off: usize, x: u16)
    requires
        off + 2 <= old(b)@.len(),
    ensures
        final(b)@ == le16_write(old(b)@, off as int, x),
        final(b)@.len() == old(b)@.len(),
        le16(final(b)@, off as int) == x,
        forall|k: int| 0 <= k < old(b)@.len() && !(off <= k < off + 2) ==> final(b)@[k] == old(
            b,
        )@[k],
{
    let n: usize = b.len();
    proof {
        lemma_le16_bytes_bounded(x);
    }
    b[off] = (x & 0xff) as u8;
    b[off + 1] = ((x >> 8u16) & 0xff) as u8;
    proof {
        lemma_le16_reassemble(x);
    }
}

/// Write `x` as four little-endian bytes at `off`.
pub fn write_u32_le(b: &mut Vec<u8>, off: usize, x: u32)
    requires
        off + 4 <= old(b)@.len(),
    ensures
        final(b)@ == le32_write(old(b)@, off as int, x),
        final(b)@.len() == old(b)@.len(),
        le32(final(b)@, off as int) == x,
        forall|k: int| 0 <= k < old(b)@.len() && !(off <= k < off + 4) ==> final(b)@[k] == old(
            b,
        )@[k],
{
    let n: usize = b.len();
    proof {
        lemma_le32_bytes_bounded(x);
    }
    b[off] = (x & 0xff) as u8;
    b[off + 1] = ((x >> 8u32) & 0xff) as u8;
    b[off + 2] = ((x >> 16u32) & 0xff) as u8;
    b[off + 3] = ((x >> 24u32) & 0xff) as u8;
    proof {
        lemma_le32_reassemble(x);
    }
}

/// Write `x` as eight little-endian bytes at `off`.
pub fn write_u64_le(b: &mut Vec<u8>, off: usize, x: u64)
    requires
        off + 8 <= old(b)@.len(),
    ensures
        final(b)@ == le64_write(old(b)@, off as int, x),
        final(b)@.len() == old(b)@.len(),
        le64(final(b)@, off as int) == x,
        forall|k: int| 0 <= k < old(b)@.len() && !(off <= k < off + 8) ==> final(b)@[k] == old(
            b,
        )@[k],
{
    let n: usize = b.len();
    proof {
        lemma_le64_bytes_bounded(x);
    }
    b[off] = (x & 0xff) as u8;
    b[off + 1] = ((x >> 8u64) & 0xff) as u8;
    b[off + 2] = ((x >> 16u64) & 0xff) as u8;
    b[off + 3] = ((x >> 24u64) & 0xff) as u8;
    b[off + 4] = ((x >> 32u64) & 0xff) as u8;
    b[off + 5] = ((x >> 40u64) & 0xff) as u8;
    b[off + 6] = ((x >> 48u64) & 0xff) as u8;
    b[off + 7] = ((x >> 56u64) & 0xff) as u8;
    proof {
        lemma_le64_reassemble(x);
    }
}

/// A vector of `len` zero bytes.
pub fn zero_bytes(len: usize) -> (v: Vec<u8>)
    ensures
        v@ == Seq::new(len as nat, |i: int| 0u8),
{
    let mut v: Vec<u8> = Vec::new();
    let mut i: usize = 0;
    while i < len
        invariant
            i <= len,
            v@.len() == i,
            forall|k: int| 0 <= k < i ==> v@[k] == 0u8,
        decreases len - i,
    {
        v.push(0u8);
        i = i + 1;
    }
    proof {
        assert(v@ =~= Seq::new(len as nat, |i: int| 0u8));
    }
    v
}

/// Every byte of a 16-bit value is below 256.
proof fn lemma_le16_bytes_bounded(x: u16)
    ensures
        x & 0xff < 256,
        (x >> 8) & 0xff < 256,
{
    assert(x & 0xff < 256 && (x >> 8) & 0xff < 256) by (bit_vector);
}

/// Every byte of a 32-bit value is below 256.
proof fn lemma_le32_bytes_bounded(x: u32)
    ensures
        x & 0xff < 256,
        (x >> 8) & 0xff < 256,
        (x >> 16) & 0xff < 256,
        (x >> 24) & 0xff < 256,
{
    assert(x & 0xff < 256 && (x >> 8) & 0xff < 256 && (x >> 16) & 0xff < 256 && (x >> 24) & 0xff
        < 256) by (bit_vector);
}

/// Every byte of a 64-bit value is below 256.
proof fn lemma_le64_bytes_bounded(x: u64)
    ensures
        x & 0xff < 256,
        (x >> 8) & 0xff < 256,
        (x >> 16) & 0xff < 256,
        (x >> 24) & 0xff < 256,
        (x >> 32) & 0xff < 256,
        (x >> 40) & 0xff < 256,
        (x >> 48) & 0xff < 256,
        (x >> 56) & 0xff < 256,
{
    assert(x & 0xff < 256 && (x >> 8) & 0xff < 256 && (x >> 16) & 0xff < 256 && (x >> 24) & 0xff
        < 256 && (x >> 32) & 0xff < 256 && (x >> 40) & 0xff < 256 && (x >> 48) & 0xff < 256 && (x
        >> 56) & 0xff < 256) by (bit_vector);
}

/// The two bytes of a 16-bit value put it back together.
proof fn lemma_le16_reassemble(x: u16)
    ensures
        ((x & 0xff) as u8 as u16) | ((((x >> 8) & 0xff) as u8 as u16) << 8) == x,
{
    assert(((x & 0xff) as u8 as u16) | ((((x >> 8) & 0xff) as u8 as u16) << 8) == x)
        by (bit_vector);
}

/// The four bytes of a 32-bit value put it back together.
proof fn lemma_le32_reassemble(x: u32)
    ensures
        ((x & 0xff) as u8 as u32) | ((((x >> 8) & 0xff) as u8 as u32) << 8) | ((((x >> 16)
            & 0xff) as u8 as u32) << 16) | ((((x >> 24) & 0xff) as u8 as u32) << 24) == x,
{
    assert(((x & 0xff) as u8 as u32) | ((((x >> 8) & 0xff) as u8 as u32) << 8) | ((((x >> 16)
        & 0xff) as u8 as u32) << 16) | ((((x >> 24) & 0xff) as u8 as u32) << 24) == x)
        by (bit_vector);
}

/// The eight bytes of a 64-bit value put it back together.
proof fn lemma_le64_reassemble(x: u64)
    ensures
        ((x & 0xff) as u8 as u64) | ((((x >> 8) & 0xff) as u8 as u64) << 8) | ((((x >> 16)
            & 0xff) as u8 as u64) << 16) | ((((x >> 24) & 0xff) as u8 as u64) << 24) | ((((x >> 32)
            & 0xff) as u8 as u64) << 32) | ((((x >> 40) & 0xff) as u8 as u64) << 40) | ((((x >> 48)
            & 0xff) as u8 as u64) << 48) | ((((x >> 56) & 0xff) as u8 as u64) << 56) == x,
{
    assert(((x & 0xff) as u8 as u64) | ((((x >> 8) & 0xff) as u8 as u64) << 8) | ((((x >> 16)
        & 0xff) as u8 as u64) << 16) | ((((x >> 24) & 0xff) as u8 as u64) << 24) | ((((x >> 32)
        & 0xff) as u8 as u64) << 32) | ((((x >> 40) & 0xff) as u8 as u64) << 40) | ((((x >> 48)
        & 0xff) as u8 as u64) << 48) | ((((x >> 56) & 0xff) as u8 as u64) << 56) == x)
        by (bit_vector);
}

} // verus!
