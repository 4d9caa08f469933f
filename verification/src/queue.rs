//! The queue handler: drain the available ring, run each block request
//! against the backing disk, fill the used ring in order, raise the
//! interrupt.
//!
//! Responses enter the used ring in the order their chains were taken from
//! the available ring (`IN_ORDER` is advertised), and the used ring is
//! written before the interrupt is raised.  Interrupts honour the driver's
//! `used_event` field when `RING_EVENT_IDX` was negotiated.

use vstd::prelude::*;

use crate::block::Block;
use crate::block::INT_USED_BUFFER;
use crate::error::Error;
use crate::guest_ram::GuestRam;
use crate::QUEUE_MAX_SIZE;

verus! {

/// Descriptor flag: the chain continues at `next`.
pub const VIRTQ_DESC_F_NEXT: u16 = 1;

/// Descriptor flag: the device writes this buffer.
pub const VIRTQ_DESC_F_WRITE: u16 = 2;

/// Request type: read sectors.
pub const VIRTIO_BLK_T_IN: u32 = 0;

/// Request type: write sectors.
pub const VIRTIO_BLK_T_OUT: u32 = 1;

/// Request type: flush the backing.
pub const VIRTIO_BLK_T_FLUSH: u32 = 4;

/// Request type: read the device serial.
pub const VIRTIO_BLK_T_GET_ID: u32 = 8;

/// Request status: done.
pub const VIRTIO_BLK_S_OK: u8 = 0;

/// Request status: backing I/O failed or out of range.
pub const VIRTIO_BLK_S_IOERR: u8 = 1;

/// Request status: malformed or unsupported request.
pub const VIRTIO_BLK_S_UNSUPP: u8 = 2;

/// Mask of the negotiated `RING_EVENT_IDX` feature bit.
pub const EVENT_IDX_MASK: u64 = 0x2000_0000;

/// Mask of the negotiated `BLK_F_FLUSH` feature bit.
pub const FLUSH_MASK: u64 = 0x200;

/// One descriptor of the table.
#[derive(Clone, Copy, Debug, PartialEq, Eq, Structural)]
pub struct Desc {
    pub addr: u64,
    pub len: u32,
    pub flags: u16,
    pub next: u16,
}

/// One response pushed onto the used ring.
#[derive(Clone, Copy, Debug, PartialEq, Eq, Structural)]
pub struct UsedEntry {
    /// Free-running available counter whose slot the chain came from.
    pub avail_slot: u16,
    /// Free-running used counter under which the response was filed.
    pub used_slot: u16,
    /// Head descriptor index of the chain.
    pub id: u32,
    /// Bytes the device wrote, the status byte included.
    pub len: u32,
    /// The status byte of the response.
    pub status: u8,
}

/// The disk contents after writing `data` at byte offset `off`.
pub open spec fn spec_disk_write(disk: Seq<u8>, off: int, data: Seq<u8>) -> Seq<u8> {
    disk.take(off) + data + disk.skip(off + data.len())
}

/// Reading sectors back out of a write at the same offset returns the bytes
/// written.
pub proof fn lemma_disk_round_trip(disk: Seq<u8>, off: int, data: Seq<u8>)
    requires
        0 <= off,
        off + data.len() <= disk.len(),
    ensures
        spec_disk_write(disk, off, data).subrange(off, off + data.len()) == data,
        spec_disk_write(disk, off, data).len() == disk.len(),
{
    assert(spec_disk_write(disk, off, data).subrange(off, off + data.len()) =~= data);
}

/// The driver asked for an interrupt: the new used index moved past
/// `used_event` (free-running 16-bit arithmetic).
pub open spec fn spec_need_event(event: u16, new_idx: u16, old_idx: u16) -> bool {
    (new_idx - event - 1) % 65536 < (new_idx - old_idx) % 65536
}

/// Whether to raise the interrupt after a drain: always, unless the driver
/// negotiated `RING_EVENT_IDX` and its `used_event` suppresses it.
pub open spec fn spec_should_signal(
    driver_features: u64,
    event: u16,
    new_idx: u16,
    old_idx: u16,
) -> bool {
    if driver_features & EVENT_IDX_MASK == 0 {
        true
    } else {
        spec_need_event(event, new_idx, old_idx)
    }
}

/// Free-running 16-bit add.
pub fn wrap_add(a: u16, b: u16) -> (r: u16)
    ensures
        r == (a + b) % 65536,
{
    (((a as u32) + (b as u32)) % 65536u32) as u16
}

/// Free-running 16-bit difference: how far `a` ran past `b`.
pub fn wrap_sub(a: u16, b: u16) -> (r: u16)
    ensures
        r == (a - b) % 65536,
{
    let r = (((a as u32) + 65536u32) - (b as u32)) % 65536u32;
    proof {
        let v = a as int + 65536 - b as int;
        if v < 65536 {
            vstd::arithmetic::div_mod::lemma_fundamental_div_mod_converse(v, 65536, 0, v);
            vstd::arithmetic::div_mod::lemma_fundamental_div_mod_converse(
                a as int - b as int,
                65536,
                -1,
                v,
            );
        } else {
            vstd::arithmetic::div_mod::lemma_fundamental_div_mod_converse(v, 65536, 1, v - 65536);
            vstd::arithmetic::div_mod::lemma_fundamental_div_mod_converse(
                a as int - b as int,
                65536,
                0,
                v - 65536,
            );
        }
    }
    r as u16
}

/// Decide the interrupt as `spec_need_event` does.
pub fn need_event(event: u16, new_idx: u16, old_idx: u16) -> (r: bool)
    ensures
        r == spec_need_event(event, new_idx, old_idx),
{
    let a = wrap_sub(wrap_sub(new_idx, event), 1);
    let b = wrap_sub(new_idx, old_idx);
    proof {
        lemma_mod_sub_one(new_idx as int, event as int);
    }
    a < b
}

/// Folding a free-running subtraction of one into the modulus.
proof fn lemma_mod_sub_one(n: int, e: int)
    ensures
        ((n - e) % 65536 - 1) % 65536 == (n - e - 1) % 65536,
{
    let d = (n - e) % 65536;
    vstd::arithmetic::div_mod::lemma_mod_bound(n - e, 65536);
    vstd::arithmetic::div_mod::lemma_fundamental_div_mod(n - e, 65536);
    if d == 0 {
        vstd::arithmetic::div_mod::lemma_fundamental_div_mod_converse(d - 1, 65536, -1, 65535);
        vstd::arithmetic::div_mod::lemma_fundamental_div_mod_converse(
            n - e - 1,
            65536,
            (n - e) / 65536 - 1,
            65535,
        );
    } else {
        vstd::arithmetic::div_mod::lemma_fundamental_div_mod_converse(d - 1, 65536, 0, d - 1);
        vstd::arithmetic::div_mod::lemma_fundamental_div_mod_converse(
            n - e - 1,
            65536,
            (n - e) / 65536,
            d - 1,
        );
    }
}

/// The descriptor-table entry held by the 16 bytes at guest-physical
/// `entry_addr`.
pub open spec fn spec_desc_at(ram: GuestRam, entry_addr: u64) -> Desc {
    Desc {
        addr: crate::bytes::le64(ram.mem@, ram.spec_off(entry_addr)),
        len: crate::bytes::le32(ram.mem@, ram.spec_off(entry_addr) + 8),
        flags: crate::bytes::le16(ram.mem@, ram.spec_off(entry_addr) + 12),
        next: crate::bytes::le16(ram.mem@, ram.spec_off(entry_addr) + 14),
    }
}

/// The chain read from table index `idx`, following `next` links, with at
/// most `budget` descriptors.  `None` when an index escapes the queue, an
/// entry escapes the window, or the budget runs out (a looping chain).
pub open spec fn spec_chain_from(
    ram: GuestRam,
    table: u64,
    idx: u16,
    qsize: u16,
    budget: nat,
) -> Option<Seq<Desc>>
    decreases budget,
{
    if idx >= qsize || budget == 0 {
        None
    } else if table > u64::MAX - 16 || 16 * (idx as int) > u64::MAX - 16 - table {
        None
    } else if !ram.spec_in_range((table + 16 * (idx as u64)) as u64, 16) {
        None
    } else {
        let d = spec_desc_at(ram, (table + 16 * (idx as u64)) as u64);
        if d.flags & VIRTQ_DESC_F_NEXT == 0 {
            Some(seq![d])
        } else {
            match spec_chain_from(ram, table, d.next, qsize, (budget - 1) as nat) {
                None => None,
                Some(t) => Some(seq![d] + t),
            }
        }
    }
}

/// The chain rooted at `head`, bounded by the queue size.
pub open spec fn spec_chain(ram: GuestRam, table: u64, head: u16, qsize: u16) -> Option<Seq<Desc>> {
    spec_chain_from(ram, table, head, qsize, qsize as nat)
}

/// The chain's status descriptor is usable: the chain has at least two
/// descriptors and ends in a device-writable byte inside the window.
pub open spec fn spec_status_ok(ram: GuestRam, c: Seq<Desc>) -> bool {
    &&& c.len() >= 2
    &&& c.last().flags & VIRTQ_DESC_F_WRITE != 0
    &&& c.last().len >= 1
    &&& ram.spec_in_range(c.last().addr, 1)
}

/// The chain's header descriptor is usable: 16 device-readable bytes
/// inside the window.
pub open spec fn spec_header_ok(ram: GuestRam, c: Seq<Desc>) -> bool {
    &&& c[0].len == 16
    &&& c[0].flags & VIRTQ_DESC_F_WRITE == 0
    &&& ram.spec_in_range(c[0].addr, 16)
}

/// The request type the chain's header carries.
pub open spec fn spec_req_type(ram: GuestRam, c: Seq<Desc>) -> u32 {
    crate::bytes::le32(ram.mem@, ram.spec_off(c[0].addr))
}

/// The sector the chain's header addresses.
pub open spec fn spec_req_sector(ram: GuestRam, c: Seq<Desc>) -> u64 {
    crate::bytes::le64(ram.mem@, ram.spec_off(c[0].addr) + 8)
}

/// Every data descriptor matches the request's direction and lies inside
/// the window.
pub open spec fn spec_data_ok(ram: GuestRam, c: Seq<Desc>, device_writes: bool) -> bool {
    forall|i: int|
        1 <= i < c.len() - 1 ==> (((#[trigger] c[i]).flags & VIRTQ_DESC_F_WRITE != 0)
            == device_writes && ram.spec_in_range(c[i].addr, c[i].len as int))
}

/// Total byte length of a run of descriptors.
pub open spec fn spec_len_sum(s: Seq<Desc>) -> int
    decreases s.len(),
{
    if s.len() == 0 {
        0
    } else {
        spec_len_sum(s.drop_last()) + s.last().len
    }
}

/// Total data bytes of the chain: the descriptors between header and
/// status byte.
pub open spec fn spec_data_total(c: Seq<Desc>) -> int {
    spec_len_sum(c.subrange(1, c.len() - 1))
}

/// The bytes a run of descriptors points at, concatenated in order.
pub open spec fn spec_gather_bytes(ram: GuestRam, s: Seq<Desc>) -> Seq<u8>
    decreases s.len(),
{
    if s.len() == 0 {
        Seq::empty()
    } else {
        spec_gather_bytes(ram, s.drop_last()) + ram.mem@.subrange(
            ram.spec_off(s.last().addr),
            ram.spec_off(s.last().addr) + s.last().len,
        )
    }
}

/// The data bytes an OUT request writes: its data descriptors' contents.
pub open spec fn spec_out_payload(ram: GuestRam, c: Seq<Desc>) -> Seq<u8> {
    spec_gather_bytes(ram, c.subrange(1, c.len() - 1))
}

/// Length and status of a request of type `rt`, once its chain was found
/// well formed.
pub open spec fn spec_request_result(
    rt: u32,
    sector: u64,
    total: int,
    disk_len: int,
    read_only: bool,
    driver_features: u64,
) -> (u32, u8) {
    if rt == VIRTIO_BLK_T_IN {
        if total > 0xffff_fffe || total > usize::MAX || sector > u64::MAX / 512 || sector * 512
            + total > disk_len {
            (1, VIRTIO_BLK_S_IOERR)
        } else {
            ((total + 1) as u32, VIRTIO_BLK_S_OK)
        }
    } else if rt == VIRTIO_BLK_T_OUT {
        if sector > u64::MAX / 512 || read_only || sector * 512 + total > disk_len {
            (1, VIRTIO_BLK_S_IOERR)
        } else {
            (1, VIRTIO_BLK_S_OK)
        }
    } else if rt == VIRTIO_BLK_T_FLUSH {
        if driver_features & FLUSH_MASK == 0 {
            (1, VIRTIO_BLK_S_UNSUPP)
        } else {
            (1, VIRTIO_BLK_S_OK)
        }
    } else if rt == VIRTIO_BLK_T_GET_ID {
        if total != 20 {
            (1, VIRTIO_BLK_S_UNSUPP)
        } else {
            (21, VIRTIO_BLK_S_OK)
        }
    } else {
        (1, VIRTIO_BLK_S_UNSUPP)
    }
}

/// Used-ring length and status byte of the chain rooted at `head`: the full
/// decision table of the request handler, over the pre-drain memory.
pub open spec fn spec_chain_result(
    table: u64,
    disk_len: int,
    read_only: bool,
    driver_features: u64,
    ram: GuestRam,
    head: u16,
    qsize: u16,
) -> (u32, u8) {
    match spec_chain(ram, table, head, qsize) {
        None => (0, VIRTIO_BLK_S_UNSUPP),
        Some(c) => {
            if !spec_status_ok(ram, c) {
                (0, VIRTIO_BLK_S_UNSUPP)
            } else if !spec_header_ok(ram, c) {
                (1, VIRTIO_BLK_S_UNSUPP)
            } else {
                let rt = spec_req_type(ram, c);
                if !spec_data_ok(ram, c, rt == VIRTIO_BLK_T_IN || rt == VIRTIO_BLK_T_GET_ID) {
                    (1, VIRTIO_BLK_S_UNSUPP)
                } else {
                    spec_request_result(
                        rt,
                        spec_req_sector(ram, c),
                        spec_data_total(c),
                        disk_len,
                        read_only,
                        driver_features,
                    )
                }
            }
        },
    }
}

/// The chain rooted at `head` is a well-formed OUT request the device will
/// execute against its backing.
pub open spec fn spec_chain_writes_disk(
    table: u64,
    disk_len: int,
    read_only: bool,
    ram: GuestRam,
    head: u16,
    qsize: u16,
) -> bool {
    match spec_chain(ram, table, head, qsize) {
        None => false,
        Some(c) => {
            &&& spec_status_ok(ram, c)
            &&& spec_header_ok(ram, c)
            &&& spec_req_type(ram, c) == VIRTIO_BLK_T_OUT
            &&& spec_data_ok(ram, c, false)
            &&& spec_req_sector(ram, c) <= u64::MAX / 512
            &&& !read_only
            &&& spec_req_sector(ram, c) * 512 + spec_data_total(c) <= disk_len
        },
    }
}

/// Window offset of the status byte the handler will write for the chain
/// rooted at `head`: present exactly when the chain has a usable status
/// descriptor.
pub open spec fn spec_chain_status_target(
    ram: GuestRam,
    table: u64,
    head: u16,
    qsize: u16,
) -> Option<int> {
    match spec_chain(ram, table, head, qsize) {
        None => None,
        Some(c) => if spec_status_ok(ram, c) {
            Some(ram.spec_off(c.last().addr))
        } else {
            None
        },
    }
}

/// The backing after the chain rooted at `head` ran: changed exactly by a
/// well-formed in-bounds OUT request, by its gathered payload.
pub open spec fn spec_chain_disk_after(
    table: u64,
    disk: Seq<u8>,
    read_only: bool,
    ram: GuestRam,
    head: u16,
    qsize: u16,
) -> Seq<u8> {
    if spec_chain_writes_disk(table, disk.len() as int, read_only, ram, head, qsize) {
        let c = spec_chain(ram, table, head, qsize)->Some_0;
        spec_disk_write(disk, spec_req_sector(ram, c) * 512, spec_out_payload(ram, c))
    } else {
        disk
    }
}

/// The chain rooted at `head` is a well-formed in-bounds IN request with a
/// single data descriptor that does not cover the status byte: the shape
/// whose data placement the handler pins down.
pub open spec fn spec_chain_reads_sector(
    table: u64,
    disk_len: int,
    ram: GuestRam,
    head: u16,
    qsize: u16,
) -> bool {
    match spec_chain(ram, table, head, qsize) {
        None => false,
        Some(c) => {
            &&& spec_status_ok(ram, c)
            &&& spec_header_ok(ram, c)
            &&& spec_req_type(ram, c) == VIRTIO_BLK_T_IN
            &&& spec_data_ok(ram, c, true)
            &&& c.len() == 3
            &&& spec_data_total(c) <= 0xffff_fffe
            &&& spec_data_total(c) <= usize::MAX
            &&& spec_req_sector(ram, c) <= u64::MAX / 512
            &&& spec_req_sector(ram, c) * 512 + spec_data_total(c) <= disk_len
            &&& (ram.spec_off(c[2].addr) < ram.spec_off(c[1].addr) || ram.spec_off(c[2].addr)
                >= ram.spec_off(c[1].addr) + c[1].len)
        },
    }
}

/// The data descriptor of chain `c` holds, in the new memory, the disk
/// bytes its request asked for.
pub open spec fn spec_in_data_placed(
    disk: Seq<u8>,
    ram_old: GuestRam,
    ram_new: GuestRam,
    c: Seq<Desc>,
) -> bool {
    forall|j: int|
        0 <= j < c[1].len ==> #[trigger] ram_new.mem@[ram_old.spec_off(c[1].addr) + j]
            == disk[spec_req_sector(ram_old, c) * 512 + j]
}

/// The head index of the first chain a drain consumes: the available-ring
/// entry under the device's next available counter.
pub open spec fn spec_first_head(ram: GuestRam, avail_addr: u64, next_avail: u16, qsize: u16) -> u16 {
    crate::bytes::le16(
        ram.mem@,
        avail_addr + 4 + 2 * ((next_avail as int) % (qsize as int)) - ram.base,
    )
}

/// The walked prefix `acc` plus the chain left to walk from `idx` give the
/// whole chain rooted at `head`, or both are dead ends.
pub open spec fn spec_walk_rel(
    ram: GuestRam,
    table: u64,
    head: u16,
    idx: u16,
    qsize: u16,
    count: u16,
    acc: Seq<Desc>,
) -> bool {
    match spec_chain_from(ram, table, idx, qsize, (qsize - count) as nat) {
        None => spec_chain(ram, table, head, qsize) is None,
        Some(t) => spec_chain(ram, table, head, qsize) == Some(acc + t),
    }
}

/// A prefix of a descriptor run never holds more bytes than the run.
proof fn lemma_len_sum_prefix(s: Seq<Desc>, k: int)
    requires
        0 <= k <= s.len(),
    ensures
        spec_len_sum(s.take(k)) <= spec_len_sum(s),
        spec_len_sum(s.take(k)) >= 0,
    decreases s.len() - k,
{
    if k < s.len() {
        lemma_len_sum_prefix(s, k + 1);
        assert(s.take(k + 1).drop_last() =~= s.take(k));
        lemma_len_sum_nonneg(s.take(k));
    } else {
        assert(s.take(k) =~= s);
        lemma_len_sum_nonneg(s);
    }
}

/// Byte counts of descriptor runs are never negative.
proof fn lemma_len_sum_nonneg(s: Seq<Desc>)
    ensures
        spec_len_sum(s) >= 0,
    decreases s.len(),
{
    if s.len() > 0 {
        lemma_len_sum_nonneg(s.drop_last());
    }
}

/// Gathered bytes are exactly as many as the descriptors announce.
proof fn lemma_gather_len(ram: GuestRam, s: Seq<Desc>)
    requires
        forall|i: int|
            0 <= i < s.len() ==> ram.spec_in_range((#[trigger] s[i]).addr, s[i].len as int),
    ensures
        spec_gather_bytes(ram, s).len() == spec_len_sum(s),
    decreases s.len(),
{
    if s.len() > 0 {
        assert(s.last() == s[s.len() - 1]);
        lemma_gather_len(ram, s.drop_last());
    }
}

impl Block {
    /// Read `len` bytes of the backing at byte offset `off`.
    ///
    /// `Ok` exactly when the range lies inside the disk; otherwise the
    /// request status is `IOERR`.
    pub fn disk_read_at(&self, off: u64, len: usize) -> (r: Result<Vec<u8>, u8>)
        ensures
            r is Ok <==> off + len <= self.disk@.len(),
            r matches Ok(v) ==> v@ == self.disk@.subrange(off as int, off as int + len),
            r matches Err(st) ==> st == VIRTIO_BLK_S_IOERR,
    {
        let n = self.disk.len();
        if off > (n as u64) || (len as u64) > (n as u64) - off {
            return Err(VIRTIO_BLK_S_IOERR);
        }
        let off_usize = off as usize;
        let mut v: Vec<u8> = Vec::new();
        let mut k: usize = 0;
        while k < len
            invariant
                k <= len,
                n == self.disk@.len(),
                off_usize == off,
                off_usize + len <= n,
                v@ == self.disk@.subrange(off_usize as int, off_usize + k),
            decreases len - k,
        {
            v.push(self.disk[off_usize + k]);
            proof {
                assert(v@ =~= self.disk@.subrange(off_usize as int, off_usize + k + 1));
            }
            k = k + 1;
        }
        Ok(v)
    }

    /// Write `data` into the backing at byte offset `off`.
    ///
    /// `Ok` exactly when the backing is writable and the range lies inside
    /// the disk; otherwise the request status is `IOERR` and nothing
    /// changes.
    pub fn disk_write_at(&mut self, off: u64, data: &Vec<u8>) -> (r: Result<(), u8>)
        ensures
            r is Ok <==> (!old(self).read_only && off + data@.len() <= old(self).disk@.len()),
            r matches Err(st) ==> st == VIRTIO_BLK_S_IOERR && *final(self) == *old(self),
            r is Ok ==> final(self).disk@ == spec_disk_write(
                old(self).disk@,
                off as int,
                data@,
            ) && *final(self) == (Block { disk: final(self).disk, ..*old(self) }),
            final(self).disk@.len() == old(self).disk@.len(),
    {
        if self.read_only {
            return Err(VIRTIO_BLK_S_IOERR);
        }
        let n = self.disk.len();
        if off > (n as u64) || (data.len() as u64) > (n as u64) - off {
            return Err(VIRTIO_BLK_S_IOERR);
        }
        let off_usize = off as usize;
        let m = data.len();
        let mut k: usize = 0;
        while k < m
            invariant
                k <= m,
                m == data@.len(),
                n == self.disk@.len(),
                off_usize == off,
                off_usize + m <= n,
                self.disk@.len() == old(self).disk@.len(),
                forall|j: int|
                    0 <= j < self.disk@.len() ==> self.disk@[j] == if off_usize <= j < off_usize
                        + k {
                        data@[j - off_usize]
                    } else {
                        old(self).disk@[j]
                    },
                *self == (Block { disk: self.disk, ..*old(self) }),
            decreases m - k,
        {
            self.disk[off_usize + k] = data[k];
            k = k + 1;
        }
        proof {
            assert(self.disk@ =~= spec_disk_write(old(self).disk@, off as int, data@));
        }
        Ok(())
    }
}

/// `(x % 65536 + 1) % 65536` folds to `(x + 1) % 65536`.
proof fn lemma_mod_add_one(x: int)
    ensures
        (x % 65536 + 1) % 65536 == (x + 1) % 65536,
{
    let d = x % 65536;
    vstd::arithmetic::div_mod::lemma_fundamental_div_mod(x, 65536);
    vstd::arithmetic::div_mod::lemma_mod_bound(x, 65536);
    if d == 65535 {
        vstd::arithmetic::div_mod::lemma_fundamental_div_mod_converse(d + 1, 65536, 1, 0);
        vstd::arithmetic::div_mod::lemma_fundamental_div_mod_converse(
            x + 1,
            65536,
            x / 65536 + 1,
            0,
        );
    } else {
        vstd::arithmetic::div_mod::lemma_fundamental_div_mod_converse(d + 1, 65536, 0, d + 1);
        vstd::arithmetic::div_mod::lemma_fundamental_div_mod_converse(
            x + 1,
            65536,
            x / 65536,
            d + 1,
        );
    }
}

/// Copy `len` bytes of `v` starting at `start`.
fn sub_vec(v: &Vec<u8>, start: usize, len: usize) -> (r: Vec<u8>)
    requires
        start + len <= v@.len(),
    ensures
        r@ == v@.subrange(start as int, start + len),
{
    let n: usize = v.len();
    let mut r: Vec<u8> = Vec::new();
    let mut k: usize = 0;
    while k < len
        invariant
            k <= len,
            n == v@.len(),
            start + len <= n,
            r@ == v@.subrange(start as int, start + k),
        decreases len - k,
    {
        r.push(v[start + k]);
        proof {
            assert(r@ =~= v@.subrange(start as int, start + k + 1));
        }
        k = k + 1;
    }
    r
}

/// Scatter `payload` over the data descriptors (all but the first and the
/// last), in order.  Succeeds whenever every data descriptor lies in the
/// window and the payload is exactly as long as they announce; with a
/// single data descriptor its bytes afterwards equal the payload and every
/// other byte of the window is untouched.
fn scatter_payload(ram: &mut GuestRam, descs: &Vec<Desc>, payload: &Vec<u8>) -> (r: bool)
    requires
        old(ram).wf(),
        descs@.len() >= 2,
    ensures
        final(ram).wf(),
        final(ram).base == old(ram).base,
        final(ram).mem@.len() == old(ram).mem@.len(),
        (forall|i: int|
            1 <= i < descs@.len() - 1 ==> old(ram).spec_in_range(
                (#[trigger] descs@[i]).addr,
                descs@[i].len as int,
            )) && payload@.len() == spec_len_sum(descs@.subrange(1, descs@.len() - 1)) ==> r,
        descs@.len() == 3 && old(ram).spec_in_range(descs@[1].addr, descs@[1].len as int)
            && payload@.len() == descs@[1].len ==> ({
            &&& forall|j: int|
                0 <= j < descs@[1].len ==> final(ram).mem@[old(ram).spec_off(descs@[1].addr) + j]
                    == payload@[j]
            &&& forall|k: int|
                0 <= k < old(ram).mem@.len() && !(old(ram).spec_off(descs@[1].addr) <= k < old(
                    ram,
                ).spec_off(descs@[1].addr) + descs@[1].len) ==> final(ram).mem@[k] == old(
                    ram,
                ).mem@[k]
        }),
{
    let n = descs.len();
    let ghost mid = descs@.subrange(1, n - 1);
    let mut done: usize = 0;
    let mut i: usize = 1;
    while i < n - 1
        invariant
            1 <= i <= n - 1,
            n == descs@.len(),
            n >= 2,
            mid == descs@.subrange(1, n - 1),
            ram.wf(),
            ram.base == old(ram).base,
            ram.mem@.len() == old(ram).mem@.len(),
            done == spec_len_sum(mid.take(i - 1)),
            done <= payload@.len(),
            n == 3 && old(ram).spec_in_range(descs@[1].addr, descs@[1].len as int)
                && payload@.len() == descs@[1].len ==> ((i == 1 && *ram == *old(ram)) || (i == 2
                && (forall|j: int|
                0 <= j < descs@[1].len ==> ram.mem@[old(ram).spec_off(descs@[1].addr) + j]
                    == payload@[j]) && (forall|k: int|
                0 <= k < old(ram).mem@.len() && !(old(ram).spec_off(descs@[1].addr) <= k < old(
                    ram,
                ).spec_off(descs@[1].addr) + descs@[1].len) ==> ram.mem@[k] == old(ram).mem@[k]))),
        decreases n - 1 - i,
    {
        let d = descs[i];
        let dlen = d.len as usize;
        proof {
            assert(mid.take(i as int).drop_last() =~= mid.take(i - 1));
            assert(mid.take(i as int).last() == mid[i - 1]);
            assert(mid[i - 1] == descs@[i as int]);
            lemma_len_sum_prefix(mid, i as int);
            lemma_len_sum_nonneg(mid.take(i - 1));
        }
        if done > payload.len() || dlen > payload.len() - done {
            return false;
        }
        if !ram.check_range(d.addr, dlen) {
            return false;
        }
        let seg = sub_vec(payload, done, dlen);
        ram.write_bytes(d.addr, &seg);
        proof {
            if n == 3 && old(ram).spec_in_range(descs@[1].addr, descs@[1].len as int)
                && payload@.len() == descs@[1].len {
                assert(seg@ =~= payload@);
            }
        }
        done = done + dlen;
        i = i + 1;
    }
    proof {
        assert(mid.take(n - 2) =~= mid);
    }
    true
}

/// Gather the data descriptors' bytes (all but the first and the last), in
/// order.  Succeeds whenever every data descriptor lies in the window, and
/// returns exactly their concatenated contents.
fn gather_payload(ram: &GuestRam, descs: &Vec<Desc>) -> (r: Option<Vec<u8>>)
    requires
        ram.wf(),
        descs@.len() >= 2,
    ensures
        (forall|i: int|
            1 <= i < descs@.len() - 1 ==> ram.spec_in_range(
                (#[trigger] descs@[i]).addr,
                descs@[i].len as int,
            )) ==> r is Some,
        r matches Some(p) ==> p@ == spec_gather_bytes(*ram, descs@.subrange(1, descs@.len() - 1)),
{
    let n = descs.len();
    let ghost mid = descs@.subrange(1, n - 1);
    let mut payload: Vec<u8> = Vec::new();
    let mut i: usize = 1;
    while i < n - 1
        invariant
            1 <= i <= n - 1,
            n == descs@.len(),
            n >= 2,
            mid == descs@.subrange(1, n - 1),
            ram.wf(),
            payload@ == spec_gather_bytes(*ram, mid.take(i - 1)),
        decreases n - 1 - i,
    {
        let d = descs[i];
        let dlen = d.len as usize;
        if !ram.check_range(d.addr, dlen) {
            return None;
        }
        let mut seg = ram.read_bytes(d.addr, dlen);
        payload.append(&mut seg);
        proof {
            assert(mid.take(i as int).drop_last() =~= mid.take(i - 1));
            assert(mid.take(i as int).last() == mid[i - 1]);
            assert(mid[i - 1] == descs@[i as int]);
        }
        i = i + 1;
    }
    proof {
        assert(mid.take(n - 2) =~= mid);
    }
    Some(payload)
}

impl Block {
    /// Walk one descriptor chain, run the request, and write the status
    /// byte.  Returns the used-ring length (bytes written, status included)
    /// and the status, exactly as `spec_chain_result` decides them over the
    /// pre-call memory.  A malformed chain gets `UNSUPP` and never aborts
    /// the queue; a chain without a usable status descriptor gets length
    /// zero and no write.  The backing changes exactly by a well-formed
    /// in-bounds OUT request; a single-buffer in-bounds IN request leaves
    /// the requested disk bytes in its data descriptor.
    pub fn process_chain(&mut self, ram: &mut GuestRam, head: u16, qsize: u16) -> (r: (u32, u8))
        requires
            old(self).wf(),
            old(ram).wf(),
            1 <= qsize <= QUEUE_MAX_SIZE,
        ensures
            final(self).wf(),
            final(ram).wf(),
            final(ram).base == old(ram).base,
            final(ram).mem@.len() == old(ram).mem@.len(),
            *final(self) == (Block { disk: final(self).disk, ..*old(self) }),
            final(self).disk@.len() == old(self).disk@.len(),
            old(self).read_only ==> final(self).disk@ == old(self).disk@,
            r == spec_chain_result(
                old(self).queue.desc_addr,
                old(self).disk@.len() as int,
                old(self).read_only,
                old(self).driver_features,
                *old(ram),
                head,
                qsize,
            ),
            spec_chain_status_target(*old(ram), old(self).queue.desc_addr, head, qsize) is None
                ==> *final(ram) == *old(ram),
            spec_chain_status_target(*old(ram), old(self).queue.desc_addr, head, qsize) matches Some(
                target,
            ) ==> final(ram).mem@[target] == r.1,
            final(self).disk@ == spec_chain_disk_after(
                old(self).queue.desc_addr,
                old(self).disk@,
                old(self).read_only,
                *old(ram),
                head,
                qsize,
            ),
            spec_chain_reads_sector(
                old(self).queue.desc_addr,
                old(self).disk@.len() as int,
                *old(ram),
                head,
                qsize,
            ) ==> spec_in_data_placed(
                old(self).disk@,
                *old(ram),
                *final(ram),
                spec_chain(*old(ram), old(self).queue.desc_addr, head, qsize)->Some_0,
            ),
    {
        let ghost table_g = old(self).queue.desc_addr;
        proof {
            match spec_chain_from(*old(ram), table_g, head, qsize, (qsize - 0) as nat) {
                None => {},
                Some(t) => {
                    assert(Seq::<Desc>::empty() + t =~= t);
                },
            }
            assert(spec_walk_rel(*old(ram), table_g, head, head, qsize, 0, Seq::empty()));
        }
        let mut descs: Vec<Desc> = Vec::new();
        let mut idx = head;
        let mut count: u16 = 0;
        loop
            invariant_except_break
                spec_walk_rel(*old(ram), table_g, head, idx, qsize, count, descs@),
            invariant
                self.wf(),
                ram.wf(),
                *self == *old(self),
                *ram == *old(ram),
                count <= qsize,
                1 <= qsize <= QUEUE_MAX_SIZE,
                count == descs@.len(),
                table_g == old(self).queue.desc_addr,
            ensures
                self.wf(),
                ram.wf(),
                *self == *old(self),
                *ram == *old(ram),
                descs@.len() >= 1,
                spec_chain(*old(ram), table_g, head, qsize) == Some(descs@),
            decreases qsize - count,
        {
            if idx >= qsize || count >= qsize {
                proof {
                    assert(spec_chain_from(*old(ram), table_g, idx, qsize, (qsize - count) as nat)
                        is None);
                    assert(spec_chain(*old(ram), table_g, head, qsize) is None);
                }
                return (0, VIRTIO_BLK_S_UNSUPP);
            }
            let table = self.queue.desc_addr;
            let off = (idx as u64) * 16;
            if table > u64::MAX - 16 || off > u64::MAX - 16 - table {
                proof {
                    assert(spec_chain_from(*old(ram), table_g, idx, qsize, (qsize - count) as nat)
                        is None);
                    assert(spec_chain(*old(ram), table_g, head, qsize) is None);
                }
                return (0, VIRTIO_BLK_S_UNSUPP);
            }
            let entry = table + off;
            if !ram.check_range(entry, 16) {
                proof {
                    assert(spec_chain_from(*old(ram), table_g, idx, qsize, (qsize - count) as nat)
                        is None);
                    assert(spec_chain(*old(ram), table_g, head, qsize) is None);
                }
                return (0, VIRTIO_BLK_S_UNSUPP);
            }
            let daddr = ram.read_u64(entry);
            let dlen = ram.read_u32(entry + 8);
            let dflags = ram.read_u16(entry + 12);
            let dnext = ram.read_u16(entry + 14);
            let ghost acc_old = descs@;
            let ghost count_old = count;
            descs.push(Desc { addr: daddr, len: dlen, flags: dflags, next: dnext });
            count = count + 1;
            proof {
                let d = spec_desc_at(*old(ram), entry);
                assert(entry == (table_g + 16 * (idx as u64)) as u64);
                assert(d.addr == daddr && d.len == dlen && d.flags == dflags && d.next == dnext);
                assert(descs@.last() == d);
                assert(descs@ =~= acc_old + seq![d]);
                assert(idx < qsize && count_old < qsize);
                assert((qsize - count_old) as nat > 0);
                assert(!(table_g > u64::MAX - 16 || 16 * (idx as int) > u64::MAX - 16 - table_g));
                assert(old(ram).spec_in_range((table_g + 16 * (idx as u64)) as u64, 16));
            }
            if dflags & VIRTQ_DESC_F_NEXT == 0 {
                proof {
                    let d = spec_desc_at(*old(ram), entry);
                    assert(spec_chain_from(
                        *old(ram),
                        table_g,
                        idx,
                        qsize,
                        (qsize - count_old) as nat,
                    ) == Some(seq![d]));
                    assert(spec_chain(*old(ram), table_g, head, qsize) == Some(acc_old + seq![d]));
                    assert(spec_chain(*old(ram), table_g, head, qsize) == Some(descs@));
                }
                break;
            }
            proof {
                let d = spec_desc_at(*old(ram), entry);
                match spec_chain_from(*old(ram), table_g, dnext, qsize, (qsize - count) as nat) {
                    None => {
                        assert(spec_chain_from(
                            *old(ram),
                            table_g,
                            idx,
                            qsize,
                            (qsize - count_old) as nat,
                        ) is None);
                        assert(spec_chain(*old(ram), table_g, head, qsize) is None);
                    },
                    Some(t) => {
                        assert(spec_chain_from(
                            *old(ram),
                            table_g,
                            idx,
                            qsize,
                            (qsize - count_old) as nat,
                        ) == Some(seq![d] + t));
                        assert(acc_old + (seq![d] + t) =~= (acc_old + seq![d]) + t);
                        assert(spec_chain(*old(ram), table_g, head, qsize) == Some(descs@ + t));
                    },
                }
                assert(spec_walk_rel(*old(ram), table_g, head, dnext, qsize, count, descs@));
            }
            idx = dnext;
        }
        let ghost c = descs@;
        let n = descs.len();
        if n < 2 {
            return (0, VIRTIO_BLK_S_UNSUPP);
        }
        let stat = descs[n - 1];
        proof {
            assert(stat == c.last());
        }
        if stat.flags & VIRTQ_DESC_F_WRITE == 0 || stat.len < 1 || !ram.check_range(stat.addr, 1) {
            proof {
                assert(!spec_status_ok(*old(ram), c));
            }
            return (0, VIRTIO_BLK_S_UNSUPP);
        }
        proof {
            assert(spec_status_ok(*old(ram), c));
        }
        let header = descs[0];
        if header.len != 16 || header.flags & VIRTQ_DESC_F_WRITE != 0 || !ram.check_range(
            header.addr,
            16,
        ) {
            ram.write_u8(stat.addr, VIRTIO_BLK_S_UNSUPP);
            return (1, VIRTIO_BLK_S_UNSUPP);
        }
        let req_type = ram.read_u32(header.addr);
        let sector = ram.read_u64(header.addr + 8);
        proof {
            assert(req_type == spec_req_type(*old(ram), c));
            assert(sector == spec_req_sector(*old(ram), c));
        }

        // Validate the data descriptors: flags per direction, windows in
        // range, total length summed.
        let device_writes = req_type == VIRTIO_BLK_T_IN || req_type == VIRTIO_BLK_T_GET_ID;
        let ghost mid = c.subrange(1, n - 1);
        let mut total: u64 = 0;
        let mut i: usize = 1;
        let mut valid = true;
        while i < n - 1
            invariant
                1 <= i <= n - 1,
                n == descs@.len(),
                2 <= n <= QUEUE_MAX_SIZE,
                c == descs@,
                mid == c.subrange(1, n - 1),
                ram.wf(),
                *ram == *old(ram),
                total <= (i - 1) * 0x1_0000_0000,
                total == spec_len_sum(mid.take(i - 1)),
                valid == (forall|i2: int|
                    1 <= i2 < i ==> (((#[trigger] c[i2]).flags & VIRTQ_DESC_F_WRITE != 0)
                        == device_writes && old(ram).spec_in_range(c[i2].addr, c[i2].len as int))),
            decreases n - 1 - i,
        {
            let d = descs[i];
            if device_writes && d.flags & VIRTQ_DESC_F_WRITE == 0 {
                valid = false;
            }
            if !device_writes && d.flags & VIRTQ_DESC_F_WRITE != 0 {
                valid = false;
            }
            if !ram.check_range(d.addr, d.len as usize) {
                valid = false;
            }
            total = total + (d.len as u64);
            proof {
                assert(mid.take(i as int).drop_last() =~= mid.take(i - 1));
                assert(mid.take(i as int).last() == mid[i - 1]);
                assert(mid[i - 1] == c[i as int]);
            }
            i = i + 1;
        }
        proof {
            assert(mid.take(n - 2) =~= mid);
            assert(total == spec_data_total(c));
            assert(valid == spec_data_ok(*old(ram), c, device_writes));
        }
        if !valid {
            ram.write_u8(stat.addr, VIRTIO_BLK_S_UNSUPP);
            return (1, VIRTIO_BLK_S_UNSUPP);
        }
        if req_type == VIRTIO_BLK_T_IN {
            if total > 0xffff_fffe || total > (usize::MAX as u64) {
                ram.write_u8(stat.addr, VIRTIO_BLK_S_IOERR);
                return (1, VIRTIO_BLK_S_IOERR);
            }
            if sector > u64::MAX / 512 {
                ram.write_u8(stat.addr, VIRTIO_BLK_S_IOERR);
                return (1, VIRTIO_BLK_S_IOERR);
            }
            let payload = match self.disk_read_at(sector * 512, total as usize) {
                Ok(p) => p,
                Err(st) => {
                    ram.write_u8(stat.addr, st);
                    return (1, st);
                },
            };
            proof {
                assert(payload@.len() == spec_len_sum(mid));
                if n == 3 {
                    assert(mid =~= seq![c[1]]);
                    assert(spec_len_sum(Seq::<Desc>::empty()) == 0);
                    assert(seq![c[1]].drop_last() =~= Seq::<Desc>::empty());
                    assert(seq![c[1]].last() == c[1]);
                    assert(spec_len_sum(seq![c[1]]) == c[1].len);
                    assert(spec_len_sum(mid) == c[1].len);
                }
            }
            if !scatter_payload(ram, &descs, &payload) {
                ram.write_u8(stat.addr, VIRTIO_BLK_S_IOERR);
                return (1, VIRTIO_BLK_S_IOERR);
            }
            ram.write_u8(stat.addr, VIRTIO_BLK_S_OK);
            proof {
                if spec_chain_reads_sector(
                    table_g,
                    old(self).disk@.len() as int,
                    *old(ram),
                    head,
                    qsize,
                ) {
                    assert forall|j: int| 0 <= j < c[1].len implies #[trigger] ram.mem@[old(
                        ram,
                    ).spec_off(c[1].addr) + j] == old(self).disk@[spec_req_sector(*old(ram), c)
                        * 512 + j] by {
                        assert(payload@[j] == old(self).disk@[sector * 512 + j]);
                    }
                }
            }
            return ((total as u32) + 1, VIRTIO_BLK_S_OK);
        } else if req_type == VIRTIO_BLK_T_OUT {
            if sector > u64::MAX / 512 {
                ram.write_u8(stat.addr, VIRTIO_BLK_S_IOERR);
                return (1, VIRTIO_BLK_S_IOERR);
            }
            let payload = match gather_payload(ram, &descs) {
                Some(p) => p,
                None => {
                    ram.write_u8(stat.addr, VIRTIO_BLK_S_IOERR);
                    return (1, VIRTIO_BLK_S_IOERR);
                },
            };
            proof {
                assert forall|i2: int| 0 <= i2 < mid.len() implies old(ram).spec_in_range(
                    (#[trigger] mid[i2]).addr,
                    mid[i2].len as int,
                ) by {
                    assert(mid[i2] == c[i2 + 1]);
                }
                lemma_gather_len(*old(ram), mid);
                assert(payload@.len() == spec_data_total(c));
                assert(payload@ == spec_out_payload(*old(ram), c));
            }
            match self.disk_write_at(sector * 512, &payload) {
                Ok(()) => {
                    ram.write_u8(stat.addr, VIRTIO_BLK_S_OK);
                    return (1, VIRTIO_BLK_S_OK);
                },
                Err(st) => {
                    ram.write_u8(stat.addr, st);
                    return (1, st);
                },
            }
        } else if req_type == VIRTIO_BLK_T_FLUSH {
            if self.driver_features & FLUSH_MASK == 0 {
                ram.write_u8(stat.addr, VIRTIO_BLK_S_UNSUPP);
                return (1, VIRTIO_BLK_S_UNSUPP);
            }
            ram.write_u8(stat.addr, VIRTIO_BLK_S_OK);
            return (1, VIRTIO_BLK_S_OK);
        } else if req_type == VIRTIO_BLK_T_GET_ID {
            if total != 20 {
                ram.write_u8(stat.addr, VIRTIO_BLK_S_UNSUPP);
                return (1, VIRTIO_BLK_S_UNSUPP);
            }
            let payload = crate::block::serial_bytes();
            proof {
                assert(payload@.len() == spec_len_sum(mid));
            }
            if !scatter_payload(ram, &descs, &payload) {
                ram.write_u8(stat.addr, VIRTIO_BLK_S_IOERR);
                return (1, VIRTIO_BLK_S_IOERR);
            }
            ram.write_u8(stat.addr, VIRTIO_BLK_S_OK);
            return (21, VIRTIO_BLK_S_OK);
        } else {
            ram.write_u8(stat.addr, VIRTIO_BLK_S_UNSUPP);
            return (1, VIRTIO_BLK_S_UNSUPP);
        }
    }

    /// Drain the available ring: run every chain the driver has posted, fill
    /// the used ring in the same order, then raise the interrupt unless the
    /// driver's `used_event` suppresses it.  The pending doorbell is
    /// consumed.
    ///
    /// The returned entries list, in consumption order, which available slot
    /// each chain came from, the used slot its response was filed under, the
    /// chain head, the used length and the status.
    pub fn process_queue(&mut self, ram: &mut GuestRam) -> (r: Result<(Vec<UsedEntry>, bool), Error>)
        requires
            old(self).wf(),
            old(ram).wf(),
            old(self).device_activated,
            old(self).irq_signals < u64::MAX,
        ensures
            final(self).wf(),
            final(ram).wf(),
            final(ram).base == old(ram).base,
            final(ram).mem@.len() == old(ram).mem@.len(),
            final(self).device_activated == old(self).device_activated,
            final(self).status == old(self).status,
            final(self).driver_features == old(self).driver_features,
            final(self).device_features == old(self).device_features,
            final(self).read_only == old(self).read_only,
            final(self).disk@.len() == old(self).disk@.len(),
            old(self).read_only ==> final(self).disk@ == old(self).disk@,
            r is Ok ==> !final(self).notified,
            r is Err ==> r == Err::<(Vec<UsedEntry>, bool), Error>(Error::VirtioProtocol)
                && *final(self) == *old(self),
            r is Ok <==> (1 <= old(self).queue.size <= QUEUE_MAX_SIZE && old(ram).spec_in_range(
                old(self).queue.avail_addr,
                6 + 2 * (old(self).queue.size as int),
            ) && old(ram).spec_in_range(
                old(self).queue.used_addr,
                4 + 8 * (old(self).queue.size as int),
            )),
            r matches Ok((entries, signalled)) ==> ({
                let base_avail = old(self).queue.next_avail;
                let base_used = old(self).queue.next_used;
                let avail_idx = crate::bytes::le16(
                    old(ram).mem@,
                    old(self).queue.avail_addr + 2 - old(ram).base,
                );
                let count = (avail_idx - base_avail) % 65536;
                &&& entries@.len() == count
                &&& final(self).queue.next_avail == (base_avail + count) % 65536
                &&& final(self).queue.next_used == (base_used + count) % 65536
                &&& forall|k: int|
                    0 <= k < count ==> (#[trigger] entries@[k]).avail_slot == (base_avail + k)
                        % 65536 && entries@[k].used_slot == (base_used + k) % 65536
                &&& (count == 0 ==> !signalled)
                &&& (signalled ==> final(self).interrupt_status == (old(self).interrupt_status
                    | INT_USED_BUFFER) && final(self).irq_signals == old(self).irq_signals + 1)
                &&& (!signalled ==> final(self).interrupt_status == old(self).interrupt_status
                    && final(self).irq_signals == old(self).irq_signals)
                &&& (count > 0 ==> signalled == spec_should_signal(
                    old(self).driver_features,
                    crate::bytes::le16(
                        final(ram).mem@,
                        old(self).queue.avail_addr + 4 + 2 * (old(self).queue.size as int) - old(
                            ram,
                        ).base,
                    ),
                    ((base_used + count) % 65536) as u16,
                    base_used,
                ))
                &&& (count > 0 ==> entries@[0].id == spec_first_head(
                    *old(ram),
                    old(self).queue.avail_addr,
                    base_avail,
                    old(self).queue.size,
                ) && (entries@[0].len, entries@[0].status) == spec_chain_result(
                    old(self).queue.desc_addr,
                    old(self).disk@.len() as int,
                    old(self).read_only,
                    old(self).driver_features,
                    *old(ram),
                    spec_first_head(
                        *old(ram),
                        old(self).queue.avail_addr,
                        base_avail,
                        old(self).queue.size,
                    ),
                    old(self).queue.size,
                ))
            }),
    {
        let qsize = self.queue.size;
        if qsize == 0 || qsize > QUEUE_MAX_SIZE {
            return Err(Error::VirtioProtocol);
        }
        let avail_addr = self.queue.avail_addr;
        let used_addr = self.queue.used_addr;
        if !ram.check_range(avail_addr, 6 + 2 * (qsize as usize)) {
            return Err(Error::VirtioProtocol);
        }
        if !ram.check_range(used_addr, 4 + 8 * (qsize as usize)) {
            return Err(Error::VirtioProtocol);
        }
        self.notified = false;
        let base_avail = self.queue.next_avail;
        let base_used = self.queue.next_used;
        let avail_idx = ram.read_u16(avail_addr + 2);
        let count16 = wrap_sub(avail_idx, base_avail);
        let count = count16 as usize;
        let mut entries: Vec<UsedEntry> = Vec::new();
        let mut k: usize = 0;
        while k < count
            invariant
                k <= count,
                count == count16,
                count16 == (avail_idx - base_avail) % 65536,
                1 <= qsize <= QUEUE_MAX_SIZE,
                self.wf(),
                ram.wf(),
                ram.base == old(ram).base,
                ram.mem@.len() == old(ram).mem@.len(),
                ram.spec_in_range(avail_addr, 6 + 2 * (qsize as int)),
                ram.spec_in_range(used_addr, 4 + 8 * (qsize as int)),
                entries@.len() == k,
                self.queue.next_avail == (base_avail + k) % 65536,
                self.queue.next_used == (base_used + k) % 65536,
                forall|j: int|
                    0 <= j < k ==> (#[trigger] entries@[j]).avail_slot == (base_avail + j) % 65536
                        && entries@[j].used_slot == (base_used + j) % 65536,
                *self == (Block {
                    disk: self.disk,
                    queue: self.queue,
                    notified: false,
                    ..*old(self)
                }),
                !self.notified,
                avail_addr == old(self).queue.avail_addr,
                used_addr == old(self).queue.used_addr,
                qsize == old(self).queue.size,
                base_avail == old(self).queue.next_avail,
                base_used == old(self).queue.next_used,
                k == 0 ==> *ram == *old(ram) && self.disk@ == old(self).disk@,
                k > 0 ==> entries@[0].id == spec_first_head(
                    *old(ram),
                    old(self).queue.avail_addr,
                    base_avail,
                    old(self).queue.size,
                ) && (entries@[0].len, entries@[0].status) == spec_chain_result(
                    old(self).queue.desc_addr,
                    old(self).disk@.len() as int,
                    old(self).read_only,
                    old(self).driver_features,
                    *old(ram),
                    spec_first_head(
                        *old(ram),
                        old(self).queue.avail_addr,
                        base_avail,
                        old(self).queue.size,
                    ),
                    old(self).queue.size,
                ),
                old(self).read_only ==> self.disk@ == old(self).disk@,
                self.queue == (crate::block::QueueState {
                    next_avail: self.queue.next_avail,
                    next_used: self.queue.next_used,
                    ..old(self).queue
                }),
                self.disk@.len() == old(self).disk@.len(),
            decreases count - k,
        {
            let slot = wrap_add(base_avail, k as u16);
            let ring_i = ((slot as u32) % (qsize as u32)) as u16;
            let head = ram.read_u16(avail_addr + 4 + 2 * (ring_i as u64));
            let (wlen, st) = self.process_chain(ram, head, qsize);
            let uslot = wrap_add(base_used, k as u16);
            let ring_j = ((uslot as u32) % (qsize as u32)) as u16;
            let ue_addr = used_addr + 4 + 8 * (ring_j as u64);
            ram.write_u32(ue_addr, head as u32);
            ram.write_u32(ue_addr + 4, wlen);
            ram.write_u16(used_addr + 2, wrap_add(uslot, 1));
            entries.push(
                UsedEntry { avail_slot: slot, used_slot: uslot, id: head as u32, len: wlen, status: st },
            );
            self.queue.next_avail = wrap_add(slot, 1);
            self.queue.next_used = wrap_add(uslot, 1);
            proof {
                lemma_mod_add_one(base_avail as int + k);
                lemma_mod_add_one(base_used as int + k);
                if k == 0 {
                    assert((base_avail as int) % 65536 == base_avail as int);
                    assert(slot == base_avail);
                    assert(head == spec_first_head(
                        *old(ram),
                        old(self).queue.avail_addr,
                        base_avail,
                        old(self).queue.size,
                    ));
                    assert(entries@[0].id == head as u32);
                    assert((entries@[0].len, entries@[0].status) == (wlen, st));
                }
            }
            k = k + 1;
        }
        let mut signalled = false;
        if count > 0 {
            if self.driver_features & EVENT_IDX_MASK == 0 {
                signalled = true;
            } else {
                let used_event = ram.read_u16(avail_addr + 4 + 2 * (qsize as u64));
                signalled = need_event(used_event, self.queue.next_used, base_used);
            }
            if signalled {
                self.interrupt_status = self.interrupt_status | INT_USED_BUFFER;
                self.irq_signals = self.irq_signals + 1;
            }
        }
        Ok((entries, signalled))
    }
}

/// Responses keep the order of their chains: a chain taken earlier from the
/// available ring gets the earlier used-ring position.
pub proof fn lemma_used_entries_in_order(entries: Seq<UsedEntry>, base_avail: u16, base_used: u16)
    requires
        entries.len() <= 65536,
        forall|k: int|
            0 <= k < entries.len() ==> (#[trigger] entries[k]).avail_slot == (base_avail + k)
                % 65536 && entries[k].used_slot == (base_used + k) % 65536,
    ensures
        forall|a: int, b: int|
            0 <= a < b < entries.len() ==> (entries[b].used_slot - entries[a].used_slot) % 65536
                == b - a && (entries[b].avail_slot - entries[a].avail_slot) % 65536 == b - a,
{
    assert forall|a: int, b: int| 0 <= a < b < entries.len() implies (entries[b].used_slot
        - entries[a].used_slot) % 65536 == b - a && (entries[b].avail_slot - entries[a].avail_slot)
        % 65536 == b - a by {
        lemma_mod_window(base_used as int, a, b);
        lemma_mod_window(base_avail as int, a, b);
    }
}

/// Within one wrap of the ring, later counters stay ahead by their distance.
proof fn lemma_mod_window(base: int, a: int, b: int)
    requires
        0 <= a < b,
        b - a < 65536,
    ensures
        ((base + b) % 65536 - (base + a) % 65536) % 65536 == b - a,
{
    vstd::arithmetic::div_mod::lemma_fundamental_div_mod(base + a, 65536);
    vstd::arithmetic::div_mod::lemma_mod_bound(base + a, 65536);
    vstd::arithmetic::div_mod::lemma_fundamental_div_mod(base + b, 65536);
    vstd::arithmetic::div_mod::lemma_mod_bound(base + b, 65536);
    let ra = (base + a) % 65536;
    let rb = (base + b) % 65536;
    let qa = (base + a) / 65536;
    let qb = (base + b) / 65536;
    assert(rb - ra == (b - a) + 65536 * (qa - qb));
    if rb - ra >= 0 {
        vstd::arithmetic::div_mod::lemma_fundamental_div_mod_converse(
            rb - ra,
            65536,
            0,
            rb - ra,
        );
        vstd::arithmetic::div_mod::lemma_fundamental_div_mod_converse(
            rb - ra,
            65536,
            qa - qb,
            b - a,
        );
    } else {
        vstd::arithmetic::div_mod::lemma_fundamental_div_mod_converse(
            rb - ra,
            65536,
            -1,
            rb - ra + 65536,
        );
        vstd::arithmetic::div_mod::lemma_fundamental_div_mod_converse(
            rb - ra,
            65536,
            qa - qb,
            b - a,
        );
    }
}

} // verus!
