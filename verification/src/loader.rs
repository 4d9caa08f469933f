//! Placement of the in-guest payload: allocation planning, loadable
//! sections, argument packing and relocation patching.
//!
//! The binary's loadable headers become page-aligned allocations above the
//! kernel, sorted by address, with one extra writable allocation for the
//! command strings; everything must fall inside the kernel's address
//! randomisation range.  Loadable contents are patched in place by
//! relocations before upload.

use vstd::multiset::Multiset;
use vstd::prelude::*;

use crate::bytes::le64;
use crate::bytes::write_u64_le;
use crate::error::Error;
use crate::page::page_align;
use crate::page::page_start;
use crate::page::spec_page_align;
use crate::page::spec_page_start;
use crate::page::PAGE_SIZE;

verus! {

/// First address of the kernel address-randomisation range.
pub const KASLR_RANGE_START: u64 = 0xffff_ffff_8000_0000;

/// One past the last address of the kernel address-randomisation range.
pub const KASLR_RANGE_END: u64 = 0xffff_ffff_c000_0000;

/// Protection bit: readable.
pub const PROT_READ_BIT: u32 = 1;

/// Protection bit: writable.
pub const PROT_WRITE_BIT: u32 = 2;

/// Protection bit: executable.
pub const PROT_EXEC_BIT: u32 = 4;

/// One loadable program header, as plain values.
#[derive(Clone, Copy, Debug, PartialEq, Eq, Structural)]
pub struct LoadHeader {
    pub virtual_addr: usize,
    pub mem_size: usize,
    pub is_execute: bool,
    pub is_write: bool,
}

/// One planned virtual allocation.
#[derive(Clone, Copy, Debug, PartialEq, Eq, Structural)]
pub struct VirtAlloc {
    /// First address of the allocation, page-aligned.
    pub virt_start: usize,
    /// Where the section starts inside the allocation.
    pub virt_offset: usize,
    /// Length of the allocation, a multiple of the page size.
    pub len: usize,
    /// Protection bits of the allocation.
    pub prot: u32,
}

impl VirtAlloc {
    /// One past the allocation's last address.
    pub fn virt_end(&self) -> (r: usize)
        requires
            self.virt_start + self.len <= usize::MAX,
        ensures
            r == self.virt_start + self.len,
    {
        self.virt_start + self.len
    }
}

/// A mapping of guest-virtual memory backed by guest-physical memory.
#[derive(Clone, Copy, Debug, PartialEq, Eq, Structural)]
pub struct MappedMemory {
    /// First guest-virtual address.
    pub virt_start: usize,
    /// Length in bytes.
    pub len: usize,
    /// Host-virtual address of the backing, inside the target.
    pub phys_start_host: usize,
}

impl MappedMemory {
    /// The mapping covers the address.
    pub open spec fn spec_contains(self, addr: int) -> bool {
        self.virt_start <= addr < self.virt_start + self.len
    }
}

/// The content of one loadable section, with its mapping.
#[derive(Debug)]
pub struct Loadable {
    /// The section's bytes, patched in place by relocations.
    pub content: Vec<u8>,
    /// The mapping the content is uploaded into.
    pub mapping: MappedMemory,
    /// Offset of the section inside the mapping.
    pub virt_offset: usize,
}

/// Find the loadable whose mapping covers `addr`.
pub fn find_loadable(loadables: &Vec<Loadable>, addr: usize) -> (r: Option<usize>)
    ensures
        match r {
            Some(i) => i < loadables@.len() && loadables@[i as int].mapping.spec_contains(
                addr as int,
            ) && forall|j: int|
                0 <= j < i ==> !(#[trigger] loadables@[j]).mapping.spec_contains(addr as int),
            None => forall|j: int|
                0 <= j < loadables@.len() ==> !(#[trigger] loadables@[j]).mapping.spec_contains(
                    addr as int,
                ),
        },
{
    let n = loadables.len();
    let mut i: usize = 0;
    while i < n
        invariant
            i <= n,
            n == loadables@.len(),
            forall|j: int|
                0 <= j < i ==> !(#[trigger] loadables@[j]).mapping.spec_contains(addr as int),
        decreases n - i,
    {
        let m = loadables[i].mapping;
        if m.virt_start <= addr && addr - m.virt_start < m.len {
            return Some(i);
        }
        i = i + 1;
    }
    None
}

/// The allocation a loadable header plans to: the header's range widened to
/// page boundaries and moved above `vbase`.
pub open spec fn spec_alloc_of(h: LoadHeader, vbase: int) -> VirtAlloc {
    VirtAlloc {
        virt_start: (vbase + spec_page_start(h.virtual_addr as int)) as usize,
        virt_offset: (h.virtual_addr - spec_page_start(h.virtual_addr as int)) as usize,
        len: (spec_page_align(h.virtual_addr + h.mem_size) - spec_page_start(
            h.virtual_addr as int,
        )) as usize,
        prot: spec_prot_of(h),
    }
}

/// The protection bits a header asks for: read, plus write and execute as
/// flagged.
pub open spec fn spec_prot_of(h: LoadHeader) -> u32 {
    PROT_READ_BIT | (if h.is_execute {
        PROT_EXEC_BIT
    } else {
        0
    }) | (if h.is_write {
        PROT_WRITE_BIT
    } else {
        0
    })
}

/// Compute the protection bits of a header.
fn prot_of(h: &LoadHeader) -> (r: u32)
    ensures
        r == spec_prot_of(*h),
{
    let mut p: u32 = PROT_READ_BIT;
    if h.is_execute {
        p = p | PROT_EXEC_BIT;
    }
    if h.is_write {
        p = p | PROT_WRITE_BIT;
    }
    proof {
        assert((1u32 | 4u32) | 0u32 == 1u32 | 4u32 && (1u32 | 0u32) == 1u32 && ((1u32 | 4u32)
            | 2u32) == (1u32 | 4u32) | 2u32 && (1u32 | 2u32) == (1u32 | 0u32) | 2u32)
            by (bit_vector);
    }
    p
}

/// Inputs on which planning is owed to succeed: at least one header, every
/// header small, and a base that leaves the plan room inside the
/// randomisation range.
pub open spec fn spec_plan_viable(headers: Seq<LoadHeader>, vbase: usize, string_arg_size: usize) -> bool {
    &&& headers.len() >= 1
    &&& forall|k: int|
        0 <= k < headers.len() ==> (#[trigger] headers[k]).virtual_addr + headers[k].mem_size
            <= 0x10_0000
    &&& string_arg_size <= 0x10_0000
    &&& KASLR_RANGE_START <= vbase
    &&& vbase + 0x40_0000 <= KASLR_RANGE_END
}

/// Plan the payload's allocations: one per loadable header, sorted by
/// address, then one writable allocation for the command strings; the whole
/// plan must end inside the kernel's address-randomisation range.
///
/// Fails with `Configuration` when there is no loadable header, an address
/// computation escapes the address space, or the plan leaves the range.
pub fn plan_allocations(headers: &Vec<LoadHeader>, vbase: usize, string_arg_size: usize) -> (r:
    Result<Vec<VirtAlloc>, Error>)
    requires
        string_arg_size % PAGE_SIZE == 0,
    ensures
        r is Err ==> r == Err::<Vec<VirtAlloc>, Error>(Error::Configuration),
        headers@.len() == 0 ==> r is Err,
        spec_plan_viable(headers@, vbase, string_arg_size) ==> r is Ok,
        r matches Ok(v) ==> ({
            let n = headers@.len() as int;
            &&& v@.len() == n + 1
            &&& v@.take(n).to_multiset() == headers@.map_values(
                |h: LoadHeader| spec_alloc_of(h, vbase as int),
            ).to_multiset()
            &&& forall|a: int, b: int|
                0 <= a <= b < n ==> (#[trigger] v@[a]).virt_start <= (#[trigger] v@[b]).virt_start
            &&& v@[n].virt_start == v@[n - 1].virt_start + v@[n - 1].len
            &&& v@[n].len == string_arg_size
            &&& v@[n].virt_offset == 0
            &&& v@[n].prot == (PROT_READ_BIT | PROT_WRITE_BIT)
            &&& KASLR_RANGE_START <= v@[n].virt_start + v@[n].len <= KASLR_RANGE_END
        }),
{
    broadcast use vstd::seq_lib::group_to_multiset_ensures;
    broadcast use vstd::multiset::group_multiset_axioms;

    let n = headers.len();
    if n == 0 {
        return Err(Error::Configuration);
    }
    let mut allocs: Vec<VirtAlloc> = Vec::new();
    let mut i: usize = 0;
    while i < n
        invariant
            i <= n,
            n == headers@.len(),
            allocs@.len() == i,
            forall|j: int|
                0 <= j < i ==> #[trigger] allocs@[j] == spec_alloc_of(headers@[j], vbase as int),
        decreases n - i,
    {
        let h = headers[i];
        if h.virtual_addr > usize::MAX - PAGE_SIZE || h.mem_size > usize::MAX - PAGE_SIZE
            - h.virtual_addr {
            return Err(Error::Configuration);
        }
        let start = page_start(h.virtual_addr);
        if vbase > usize::MAX - start {
            proof {
                if spec_plan_viable(headers@, vbase, string_arg_size) {
                    assert(headers@[i as int].virtual_addr + headers@[i as int].mem_size
                        <= 0x10_0000);
                }
            }
            return Err(Error::Configuration);
        }
        let aligned_end = page_align(h.virtual_addr + h.mem_size);
        let prot = prot_of(&h);
        allocs.push(
            VirtAlloc {
                virt_start: vbase + start,
                virt_offset: h.virtual_addr - start,
                len: aligned_end - start,
                prot,
            },
        );
        i = i + 1;
    }
    let ghost computed = allocs@;
    proof {
        assert(computed =~= headers@.map_values(|h: LoadHeader| spec_alloc_of(h, vbase as int)));
    }

    // Sort by start address: repeatedly move the smallest start over.
    let mut rest = allocs;
    let mut sorted: Vec<VirtAlloc> = Vec::new();
    while rest.len() > 0
        invariant
            sorted@.to_multiset().add(rest@.to_multiset()) =~= computed.to_multiset(),
            sorted@.len() + rest@.len() == computed.len(),
            forall|a: int, b: int|
                0 <= a <= b < sorted@.len() ==> (#[trigger] sorted@[a]).virt_start <= (
                #[trigger] sorted@[b]).virt_start,
            forall|a: int, b: int|
                0 <= a < sorted@.len() && 0 <= b < rest@.len() ==> (
                #[trigger] sorted@[a]).virt_start <= (#[trigger] rest@[b]).virt_start,
        decreases rest@.len(),
    {
        let mut mi: usize = 0;
        let mut j: usize = 1;
        while j < rest.len()
            invariant
                mi < j <= rest@.len(),
                rest@.len() > 0,
                forall|k: int| 0 <= k < j ==> rest@[mi as int].virt_start <= rest@[k].virt_start,
            decreases rest@.len() - j,
        {
            if rest[j].virt_start < rest[mi].virt_start {
                mi = j;
            }
            j = j + 1;
        }
        let ghost old_rest = rest@;
        let x = rest.remove(mi);
        let ghost pre = sorted@;
        sorted.push(x);
        proof {
            old_rest.to_multiset_ensures();
            pre.to_multiset_ensures();
            assert(old_rest[mi as int] == x);
            assert(old_rest.contains(x));
            assert(rest@ == old_rest.remove(mi as int));
            assert(old_rest.remove(mi as int).to_multiset() =~= old_rest.to_multiset().remove(x));
            assert(sorted@ == pre.push(x));
            assert(pre.push(x).to_multiset() =~= pre.to_multiset().insert(x));
            assert(sorted@.to_multiset().add(rest@.to_multiset()) =~= computed.to_multiset());
            assert forall|a: int, b: int|
                0 <= a < sorted@.len() && 0 <= b < rest@.len() implies (
            #[trigger] sorted@[a]).virt_start <= (#[trigger] rest@[b]).virt_start by {
                let b2: int = if b < mi { b } else { b + 1 };
                assert(rest@[b] == old_rest[b2]);
                if a < pre.len() {
                    assert(sorted@[a] == pre[a]);
                } else {
                    assert(sorted@[a] == x);
                }
            }
            assert forall|a: int, b: int|
                0 <= a <= b < sorted@.len() implies (#[trigger] sorted@[a]).virt_start <= (
            #[trigger] sorted@[b]).virt_start by {
                if b < pre.len() {
                    assert(sorted@[a] == pre[a] && sorted@[b] == pre[b]);
                } else if a < pre.len() {
                    assert(sorted@[a] == pre[a] && sorted@[b] == x);
                }
            }
        }
    }
    proof {
        sorted@.to_multiset_ensures();
        computed.to_multiset_ensures();
        assert(rest@.to_multiset() =~= Multiset::<VirtAlloc>::empty());
        assert(sorted@.to_multiset() =~= computed.to_multiset());
    }

    // Put the strings for the payload's arguments right after the binary.
    let last = sorted[sorted.len() - 1];
    proof {
        if spec_plan_viable(headers@, vbase, string_arg_size) {
            sorted@.to_multiset_ensures();
            computed.to_multiset_ensures();
            assert(sorted@[sorted@.len() - 1] == last);
            assert(sorted@.contains(last));
            assert(sorted@.to_multiset().count(last) > 0);
            assert(computed.to_multiset().count(last) > 0);
            assert(computed.contains(last));
            let j = choose|j: int| 0 <= j < computed.len() && computed[j] == last;
            assert(computed[j] == spec_alloc_of(headers@[j], vbase as int));
            assert(headers@[j].virtual_addr + headers@[j].mem_size <= 0x10_0000);
            crate::page::lemma_page_bounds(headers@[j].virtual_addr as int);
            crate::page::lemma_page_bounds(
                headers@[j].virtual_addr as int + headers@[j].mem_size as int,
            );
            assert(last.virt_start >= vbase && last.virt_start <= vbase + 0x10_0000);
            assert(last.len <= 0x10_0000 + PAGE_SIZE);
        }
    }
    if last.len > usize::MAX - last.virt_start {
        return Err(Error::Configuration);
    }
    let strings_start = last.virt_start + last.len;
    if string_arg_size > usize::MAX - strings_start {
        return Err(Error::Configuration);
    }
    let plan_end = strings_start + string_arg_size;
    if (plan_end as u64) < KASLR_RANGE_START || (plan_end as u64) > KASLR_RANGE_END {
        return Err(Error::Configuration);
    }
    let ghost sorted_snap = sorted@;
    sorted.push(
        VirtAlloc {
            virt_start: strings_start,
            virt_offset: 0,
            len: string_arg_size,
            prot: PROT_READ_BIT | PROT_WRITE_BIT,
        },
    );
    proof {
        assert(sorted@.take(sorted_snap.len() as int) =~= sorted_snap);
    }
    Ok(sorted)
}

/// `strings` holds `arg` zero-terminated at pointer `ptr` of the table.
pub open spec fn spec_arg_packed(strings: Seq<u8>, table_base: usize, ptr: usize, arg: Seq<u8>) -> bool {
    let off = ptr - table_base;
    strings.subrange(off, off + arg.len()) == arg && strings[off + arg.len()] == 0
}

/// Pack the command's arguments into one string table: each argument's
/// bytes, zero-terminated, one after the other; the pointer list gives each
/// argument's guest-virtual address inside the table, with a zero pointer
/// at the end.
pub fn pack_command_strings(command: &Vec<Vec<u8>>, table_base: usize) -> (r: Result<
    (Vec<u8>, Vec<usize>),
    Error,
>)
    ensures
        r is Err ==> r == Err::<(Vec<u8>, Vec<usize>), Error>(Error::Configuration),
        command@.len() <= 100 && (forall|k: int|
            0 <= k < command@.len() ==> (#[trigger] command@[k])@.len() <= 0x1000) && table_base
            <= 0x1000_0000 ==> r is Ok,
        r matches Ok((strings, argv)) ==> ({
            &&& argv@.len() == command@.len() + 1
            &&& argv@.last() == 0
            &&& strings@.len() <= usize::MAX - table_base
            &&& forall|k: int|
                0 <= k < command@.len() ==> table_base <= #[trigger] argv@[k] && argv@[k]
                    + command@[k]@.len() < table_base + strings@.len()
            &&& forall|k: int|
                0 <= k < command@.len() ==> spec_arg_packed(strings@, table_base, #[trigger] argv@[k], command@[k]@)
        }),
{
    let mut strings: Vec<u8> = Vec::new();
    let mut argv: Vec<usize> = Vec::new();
    let n = command.len();
    let mut i: usize = 0;
    while i < n
        invariant
            i <= n,
            n == command@.len(),
            argv@.len() == i,
            strings@.len() <= usize::MAX - table_base,
            (forall|k: int| 0 <= k < n ==> (#[trigger] command@[k])@.len() <= 0x1000) ==> strings@.len()
                <= i * 0x1001,
            forall|k: int|
                0 <= k < i ==> table_base <= #[trigger] argv@[k] && argv@[k] + command@[k]@.len()
                    < table_base + strings@.len(),
            forall|k: int|
                0 <= k < i ==> spec_arg_packed(strings@, table_base, #[trigger] argv@[k], command@[k]@),
        decreases n - i,
    {
        let arg = &command[i];
        let m = arg.len();
        if m >= usize::MAX - table_base - strings.len() {
            return Err(Error::Configuration);
        }
        let ptr = table_base + strings.len();
        argv.push(ptr);
        let ghost strings_pre = strings@;
        let mut k: usize = 0;
        while k < m
            invariant
                k <= m,
                arg@ == command@[i as int]@,
                m == command@[i as int]@.len(),
                i < n,
                n == command@.len(),
                strings@ == strings_pre + command@[i as int]@.take(k as int),
                strings_pre.len() + m < usize::MAX - table_base,
            decreases m - k,
        {
            strings.push(arg[k]);
            proof {
                assert(strings@ =~= strings_pre + command@[i as int]@.take(k + 1));
            }
            k = k + 1;
        }
        strings.push(0);
        proof {
            assert(command@[i as int]@.take(m as int) =~= command@[i as int]@);
            let off = ptr - table_base;
            assert(strings@.subrange(off, off + m as int) =~= command@[i as int]@);
            assert forall|k2: int|
                0 <= k2 < i implies table_base <= #[trigger] argv@[k2] && argv@[k2]
                + command@[k2]@.len() < table_base + strings@.len() by {}
            assert forall|k2: int| 0 <= k2 < i implies spec_arg_packed(strings@, table_base, #[trigger] argv@[k2], command@[k2]@) by {
                let off2 = argv@[k2] - table_base;
                let l2 = command@[k2]@.len() as int;
                assert(strings@.subrange(off2, off2 + l2) =~= strings_pre.subrange(
                    off2,
                    off2 + l2,
                ));
            }
        }
        i = i + 1;
    }
    argv.push(0);
    Ok((strings, argv))
}

/// Patch a relative relocation: write the eight little-endian bytes of
/// `value` into the loadable's content at `at`.
pub fn patch_relocation(loadable: &mut Loadable, at: usize, value: u64) -> (r: Result<(), Error>)
    ensures
        r is Ok <==> at + 8 <= old(loadable).content@.len(),
        r is Err ==> r == Err::<(), Error>(Error::Configuration) && *final(loadable) == *old(loadable),
        r is Ok ==> ({
            &&& final(loadable).content@.len() == old(loadable).content@.len()
            &&& le64(final(loadable).content@, at as int) == value
            &&& forall|k: int|
                0 <= k < old(loadable).content@.len() && !(at <= k < at + 8) ==> final(loadable).content@[k] == old(loadable).content@[k]
            &&& final(loadable).mapping == old(loadable).mapping
            &&& final(loadable).virt_offset == old(loadable).virt_offset
        }),
{
    let n = loadable.content.len();
    if at > n || n - at < 8 {
        return Err(Error::Configuration);
    }
    write_u64_le(&mut loadable.content, at, value);
    Ok(())
}

/// Total content bytes of the loadables.
pub open spec fn spec_content_total(s: Seq<Loadable>) -> int
    decreases s.len(),
{
    if s.len() == 0 {
        0
    } else {
        spec_content_total(s.drop_last()) + s.last().content@.len()
    }
}

/// More loadables never mean fewer content bytes.
proof fn lemma_content_total_prefix(s: Seq<Loadable>, k: int)
    requires
        0 <= k <= s.len(),
    ensures
        spec_content_total(s.take(k)) <= spec_content_total(s),
        spec_content_total(s.take(k)) >= 0,
    decreases s.len() - k,
{
    if k < s.len() {
        lemma_content_total_prefix(s, k + 1);
        assert(s.take(k + 1).drop_last() =~= s.take(k));
        lemma_content_total_nonneg(s.take(k));
    } else {
        assert(s.take(k) =~= s);
        lemma_content_total_nonneg(s);
    }
}

/// Content byte counts are never negative.
proof fn lemma_content_total_nonneg(s: Seq<Loadable>)
    ensures
        spec_content_total(s) >= 0,
    decreases s.len(),
{
    if s.len() > 0 {
        lemma_content_total_nonneg(s.drop_last());
    }
}

/// Build the upload's gather list: for each loadable, the host address of
/// its section inside the target and its content length, with the total
/// byte count the cross-process write must report.  A short write against
/// this plan is an error, not a retry.
pub fn build_upload_plan(loadables: &Vec<Loadable>) -> (r: Result<(Vec<(usize, usize)>, usize), Error>)
    ensures
        r is Err ==> r == Err::<(Vec<(usize, usize)>, usize), Error>(Error::Configuration),
        (forall|k: int|
            0 <= k < loadables@.len() ==> (#[trigger] loadables@[k]).mapping.phys_start_host
                + loadables@[k].virt_offset <= usize::MAX) && spec_content_total(loadables@)
            <= usize::MAX ==> r is Ok,
        r matches Ok((plan, total)) ==> ({
            &&& plan@.len() == loadables@.len()
            &&& forall|k: int|
                #![trigger plan@[k]]
                0 <= k < plan@.len() ==> plan@[k].0 == loadables@[k].mapping.phys_start_host
                    + loadables@[k].virt_offset && plan@[k].1 == loadables@[k].content@.len()
            &&& total == spec_content_total(loadables@)
        }),
{
    let n = loadables.len();
    let mut plan: Vec<(usize, usize)> = Vec::new();
    let mut total: usize = 0;
    let mut i: usize = 0;
    while i < n
        invariant
            i <= n,
            n == loadables@.len(),
            plan@.len() == i,
            forall|k: int|
                #![trigger plan@[k]]
                0 <= k < i ==> plan@[k].0 == loadables@[k].mapping.phys_start_host + loadables@[
                    k
                ].virt_offset && plan@[k].1 == loadables@[k].content@.len(),
            total == spec_content_total(loadables@.take(i as int)),
        decreases n - i,
    {
        let l = &loadables[i];
        if l.mapping.phys_start_host > usize::MAX - l.virt_offset {
            return Err(Error::Configuration);
        }
        let base = l.mapping.phys_start_host + l.virt_offset;
        let len = l.content.len();
        if len > usize::MAX - total {
            proof {
                assert(loadables@.take(i + 1).drop_last() =~= loadables@.take(i as int));
                assert(loadables@.take(i + 1).last() == loadables@[i as int]);
                lemma_content_total_prefix(loadables@, i + 1);
            }
            return Err(Error::Configuration);
        }
        plan.push((base, len));
        total = total + len;
        proof {
            assert(loadables@.take(i + 1).drop_last() =~= loadables@.take(i as int));
            assert(loadables@.take(i + 1).last() == loadables@[i as int]);
        }
        i = i + 1;
    }
    proof {
        assert(loadables@.take(n as int) =~= loadables@);
    }
    Ok((plan, total))
}

/// A symbol table as plain values: names and their addresses.
pub struct SymbolTable {
    pub entries: Vec<(Vec<u8>, usize)>,
}

impl SymbolTable {
    /// The table holds `name`.
    pub open spec fn spec_has(self, name: Seq<u8>) -> bool {
        exists|i: int| 0 <= i < self.entries@.len() && self.entries@[i].0@ == name
    }

    /// The address filed under the first entry for `name`.
    pub open spec fn spec_addr_of(self, name: Seq<u8>) -> usize {
        self.entries@[choose|i: int|
            0 <= i < self.entries@.len() && self.entries@[i].0@ == name && (forall|j: int|
                0 <= j < i ==> (#[trigger] self.entries@[j]).0@ != name)].1
    }

    /// Look a symbol up: the first entry under its name.
    pub fn lookup(&self, name: &Vec<u8>) -> (r: Option<usize>)
        ensures
            r is Some <==> self.spec_has(name@),
            r matches Some(a) ==> a == self.spec_addr_of(name@),
    {
        let n = self.entries.len();
        let mut i: usize = 0;
        while i < n
            invariant
                i <= n,
                n == self.entries@.len(),
                forall|j: int| 0 <= j < i ==> (#[trigger] self.entries@[j]).0@ != name@,
            decreases n - i,
        {
            if crate::parse::bytes_eq(&self.entries[i].0, name) {
                proof {
                    let w = i as int;
                    let c = choose|c: int|
                        0 <= c < self.entries@.len() && self.entries@[c].0@ == name@ && (forall|
                            j: int,
                        | 0 <= j < c ==> (#[trigger] self.entries@[j]).0@ != name@);
                    assert(self.entries@[w].0@ == name@ && (forall|j: int|
                        0 <= j < w ==> (#[trigger] self.entries@[j]).0@ != name@));
                    assert(!(c < w) && !(w < c));
                }
                return Some(self.entries[i].1);
            }
            i = i + 1;
        }
        None
    }
}

/// Resolve a global-data relocation's symbol: the kernel's symbols first,
/// the payload's own exported symbols second, as the loader links against
/// both.
pub fn resolve_symbol(kernel: &SymbolTable, lib: &SymbolTable, name: &Vec<u8>) -> (r: Option<usize>)
    ensures
        r is Some <==> (kernel.spec_has(name@) || lib.spec_has(name@)),
        r matches Some(a) ==> a == if kernel.spec_has(name@) {
            kernel.spec_addr_of(name@)
        } else {
            lib.spec_addr_of(name@)
        },
{
    match kernel.lookup(name) {
        Some(a) => Some(a),
        None => lib.lookup(name),
    }
}

} // verus!
