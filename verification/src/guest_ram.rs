//! The device's window on guest memory.
//!
//! The virtqueue rings and the request buffers live in guest-physical
//! memory.  The device sees one contiguous window of it; reads and writes
//! are little-endian and bounds-checked against the window.

use vstd::prelude::*;

use crate::bytes::le16;
use crate::bytes::le16_write;
use crate::bytes::le32;
use crate::bytes::le32_write;
use crate::bytes::le64;
use crate::bytes::le64_write;
use crate::bytes::read_u16_le;
use crate::bytes::read_u32_le;
use crate::bytes::read_u64_le;
use crate::bytes::write_u16_le;
use crate::bytes::write_u32_le;
use crate::bytes::write_u64_le;

verus! {

/// One contiguous window of guest-physical memory.
pub struct GuestRam {
    /// Guest-physical address of the first byte.
    pub base: u64,
    /// The bytes of the window.
    pub mem: Vec<u8>,
}

impl GuestRam {
    /// The window fits the guest-physical address space.
    pub open spec fn wf(self) -> bool {
        self.base + self.mem@.len() <= u64::MAX
    }

    /// `len` bytes at guest-physical `addr` lie inside the window.
    pub open spec fn spec_in_range(self, addr: u64, len: int) -> bool {
        self.base <= addr && addr - self.base + len <= self.mem@.len()
    }

    /// Offset of guest-physical `addr` inside the window.
    pub open spec fn spec_off(self, addr: u64) -> int {
        addr - self.base
    }

    /// Bounds-check `len` bytes at guest-physical `addr`.
    pub fn check_range(&self, addr: u64, len: usize) -> (r: bool)
        ensures
            r == self.spec_in_range(addr, len as int),
    {
        let n = self.mem.len();
        self.base <= addr && addr - self.base <= (n as u64) && (len as u64) <= (n as u64) - (addr
            - self.base)
    }

    /// Read one byte.
    pub fn read_u8(&self, addr: u64) -> (r: u8)
        requires
            self.wf(),
            self.spec_in_range(addr, 1),
        ensures
            r == self.mem@[self.spec_off(addr)],
    {
        let n: usize = self.mem.len();
        let off = (addr - self.base) as usize;
        self.mem[off]
    }

    /// Read a little-endian 16-bit field.
    pub fn read_u16(&self, addr: u64) -> (r: u16)
        requires
            self.wf(),
            self.spec_in_range(addr, 2),
        ensures
            r == le16(self.mem@, self.spec_off(addr)),
    {
        let n: usize = self.mem.len();
        let off = (addr - self.base) as usize;
        read_u16_le(&self.mem, off)
    }

    /// Read a little-endian 32-bit field.
    pub fn read_u32(&self, addr: u64) -> (r: u32)
        requires
            self.wf(),
            self.spec_in_range(addr, 4),
        ensures
            r == le32(self.mem@, self.spec_off(addr)),
    {
        let n: usize = self.mem.len();
        let off = (addr - self.base) as usize;
        read_u32_le(&self.mem, off)
    }

    /// Read a little-endian 64-bit field.
    pub fn read_u64(&self, addr: u64) -> (r: u64)
        requires
            self.wf(),
            self.spec_in_range(addr, 8),
        ensures
            r == le64(self.mem@, self.spec_off(addr)),
    {
        let n: usize = self.mem.len();
        let off = (addr - self.base) as usize;
        read_u64_le(&self.mem, off)
    }

    /// Write one byte.
    pub fn write_u8(&mut self, addr: u64, v: u8)
        requires
            old(self).wf(),
            old(self).spec_in_range(addr, 1),
        ensures
            final(self).base == old(self).base,
            final(self).mem@ == old(self).mem@.update(old(self).spec_off(addr), v),
            final(self).wf(),
    {
        let n: usize = self.mem.len();
        let off = (addr - self.base) as usize;
        self.mem[off] = v;
    }

    /// Write a little-endian 16-bit field.
    pub fn write_u16(&mut self, addr: u64, v: u16)
        requires
            old(self).wf(),
            old(self).spec_in_range(addr, 2),
        ensures
            final(self).base == old(self).base,
            final(self).mem@ == le16_write(old(self).mem@, old(self).spec_off(addr), v),
            final(self).mem@.len() == old(self).mem@.len(),
            le16(final(self).mem@, old(self).spec_off(addr)) == v,
            forall|k: int|
                0 <= k < old(self).mem@.len() && !(old(self).spec_off(addr) <= k < old(
                    self,
                ).spec_off(addr) + 2) ==> final(self).mem@[k] == old(self).mem@[k],
            final(self).wf(),
    {
        let n: usize = self.mem.len();
        let off = (addr - self.base) as usize;
        write_u16_le(&mut self.mem, off, v);
    }

    /// Write a little-endian 32-bit field.
    pub fn write_u32(&mut self, addr: u64, v: u32)
        requires
            old(self).wf(),
            old(self).spec_in_range(addr, 4),
        ensures
            final(self).base == old(self).base,
            final(self).mem@ == le32_write(old(self).mem@, old(self).spec_off(addr), v),
            final(self).mem@.len() == old(self).mem@.len(),
            le32(final(self).mem@, old(self).spec_off(addr)) == v,
            forall|k: int|
                0 <= k < old(self).mem@.len() && !(old(self).spec_off(addr) <= k < old(
                    self,
                ).spec_off(addr) + 4) ==> final(self).mem@[k] == old(self).mem@[k],
            final(self).wf(),
    {
        let n: usize = self.mem.len();
        let off = (addr - self.base) as usize;
        write_u32_le(&mut self.mem, off, v);
    }

    /// Write a little-endian 64-bit field.
    pub fn write_u64(&mut self, addr: u64, v: u64)
        requires
            old(self).wf(),
            old(self).spec_in_range(addr, 8),
        ensures
            final(self).base == old(self).base,
            final(self).mem@ == le64_write(old(self).mem@, old(self).spec_off(addr), v),
            final(self).mem@.len() == old(self).mem@.len(),
            le64(final(self).mem@, old(self).spec_off(addr)) == v,
            forall|k: int|
                0 <= k < old(self).mem@.len() && !(old(self).spec_off(addr) <= k < old(
                    self,
                ).spec_off(addr) + 8) ==> final(self).mem@[k] == old(self).mem@[k],
            final(self).wf(),
    {
        let n: usize = self.mem.len();
        let off = (addr - self.base) as usize;
        write_u64_le(&mut self.mem, off, v);
    }

    /// Read `len` bytes.
    pub fn read_bytes(&self, addr: u64, len: usize) -> (r: Vec<u8>)
        requires
            self.wf(),
            self.spec_in_range(addr, len as int),
        ensures
            r@ == self.mem@.subrange(self.spec_off(addr), self.spec_off(addr) + len),
    {
        let n: usize = self.mem.len();
        let off = (addr - self.base) as usize;
        let mut r: Vec<u8> = Vec::new();
        let mut k: usize = 0;
        while k < len
            invariant
                k <= len,
                n == self.mem@.len(),
                off + len <= n,
                r@ == self.mem@.subrange(off as int, off + k),
            decreases len - k,
        {
            r.push(self.mem[off + k]);
            proof {
                assert(r@ =~= self.mem@.subrange(off as int, off + k + 1));
            }
            k = k + 1;
        }
        r
    }

    /// Write `val` at guest-physical `addr`.
    pub fn write_bytes(&mut self, addr: u64, val: &Vec<u8>)
        requires
            old(self).wf(),
            old(self).spec_in_range(addr, val@.len() as int),
        ensures
            final(self).base == old(self).base,
            final(self).mem@.len() == old(self).mem@.len(),
            forall|k: int|
                0 <= k < old(self).mem@.len() ==> final(self).mem@[k] == if old(self).spec_off(addr)
                    <= k < old(self).spec_off(addr) + val@.len() {
                    val@[k - old(self).spec_off(addr)]
                } else {
                    old(self).mem@[k]
                },
            final(self).wf(),
    {
        let m: usize = self.mem.len();
        let off = (addr - self.base) as usize;
        let n = val.len();
        let mut k: usize = 0;
        while k < n
            invariant
                k <= n,
                n == val@.len(),
                m == self.mem@.len(),
                off + n <= m,
                self.mem@.len() == old(self).mem@.len(),
                self.base == old(self).base,
                forall|j: int|
                    0 <= j < self.mem@.len() ==> self.mem@[j] == if off <= j < off + k {
                        val@[j - off]
                    } else {
                        old(self).mem@[j]
                    },
            decreases n - k,
        {
            self.mem[off + k] = val[k];
            k = k + 1;
        }
    }
}

} // verus!
