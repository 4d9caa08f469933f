//! Handle on the hypervisor process: its VM descriptor and VCPUs.
//!
//! A hypervisor is found by classifying the target's file descriptors by
//! their kernel anon-inode names: one `anon_inode:kvm-vm` descriptor and one
//! `anon_inode:kvm-vcpu:<n>` descriptor per VCPU.  A target with no VM,
//! several VMs, duplicate VCPU indices or no VCPUs is rejected.

use vstd::prelude::*;

use crate::error::Error;
use crate::hv_mem::HvMem;
use crate::hv_mem::VmMem;
use crate::page::PAGE_SIZE;
use crate::parse::parse_decimal;
use crate::parse::spec_parses_as_decimal;
use crate::parse::spec_decimal_value;
use crate::parse::spec_starts_with;
use crate::parse::starts_with;
use crate::parse::bytes_eq;
use crate::target::KvmMemSlot;
use crate::target::TargetProcess;
use crate::tracee::encode_memory_region;
use crate::tracee::spec_attach;
use crate::tracee::spec_detach;
use crate::tracee::Tracee;
use crate::tracee::KVM_SET_USER_MEMORY_REGION;
use crate::tracee::MEMORY_REGION_SIZE;

verus! {

/// Guest-physical base address at which fresh memory slots are placed.
pub const VM_MEM_GUEST_PHYS_ADDR: u64 = 0xd0000000;

/// One virtual CPU: its index and its file descriptor in the target.
#[derive(Clone, Copy, Debug, PartialEq, Eq, Structural)]
pub struct VCPU {
    pub idx: usize,
    pub fd_num: i32,
}

/// One file descriptor of the target, with the name its entry carries.
pub struct FdInfo {
    pub fd_num: i32,
    pub name: Vec<u8>,
}

/// The kernel name of a KVM VM descriptor: `anon_inode:kvm-vm`.
pub open spec fn spec_kvm_vm_fd_name() -> Seq<u8> {
    seq![
        0x61u8, 0x6eu8, 0x6fu8, 0x6eu8, 0x5fu8, 0x69u8, 0x6eu8, 0x6fu8, 0x64u8, 0x65u8, 0x3au8, 0x6bu8, 0x76u8, 0x6du8, 0x2du8, 0x76u8, 0x6du8,
    ]
}

/// The kernel name prefix of a KVM VCPU descriptor: `anon_inode:kvm-vcpu:`.
pub open spec fn spec_kvm_vcpu_fd_prefix() -> Seq<u8> {
    seq![
        0x61u8, 0x6eu8, 0x6fu8, 0x6eu8, 0x5fu8, 0x69u8, 0x6eu8, 0x6fu8, 0x64u8, 0x65u8, 0x3au8, 0x6bu8, 0x76u8, 0x6du8, 0x2du8, 0x76u8, 0x63u8, 0x70u8, 0x75u8, 0x3au8,
    ]
}

/// The kernel name of a KVM VM descriptor, as bytes.
pub fn kvm_vm_fd_name() -> (v: Vec<u8>)
    ensures
        v@ == spec_kvm_vm_fd_name(),
{
    let v = vec![
        0x61u8, 0x6eu8, 0x6fu8, 0x6eu8, 0x5fu8, 0x69u8, 0x6eu8, 0x6fu8, 0x64u8, 0x65u8, 0x3au8, 0x6bu8, 0x76u8, 0x6du8, 0x2du8, 0x76u8, 0x6du8,
    ];
    proof {
        assert(v@ =~= spec_kvm_vm_fd_name());
    }
    v
}

/// The kernel name prefix of a KVM VCPU descriptor, as bytes.
pub fn kvm_vcpu_fd_prefix() -> (v: Vec<u8>)
    ensures
        v@ == spec_kvm_vcpu_fd_prefix(),
{
    let v = vec![
        0x61u8, 0x6eu8, 0x6fu8, 0x6eu8, 0x5fu8, 0x69u8, 0x6eu8, 0x6fu8, 0x64u8, 0x65u8, 0x3au8, 0x6bu8, 0x76u8, 0x6du8, 0x2du8, 0x76u8, 0x63u8, 0x70u8, 0x75u8, 0x3au8,
    ];
    proof {
        assert(v@ =~= spec_kvm_vcpu_fd_prefix());
    }
    v
}

/// This descriptor is the VM.
pub open spec fn spec_is_vm_fd(f: FdInfo) -> bool {
    f.name@ == spec_kvm_vm_fd_name()
}

/// This descriptor is a VCPU.
pub open spec fn spec_is_vcpu_fd(f: FdInfo) -> bool {
    spec_starts_with(f.name@, spec_kvm_vcpu_fd_prefix())
}

/// The index digits of a VCPU descriptor name.
pub open spec fn spec_vcpu_tail(f: FdInfo) -> Seq<u8> {
    f.name@.skip(spec_kvm_vcpu_fd_prefix().len() as int)
}

/// Descriptor numbers of the VM descriptors, in table order.
pub open spec fn spec_vm_fds(fds: Seq<FdInfo>) -> Seq<i32>
    decreases fds.len(),
{
    if fds.len() == 0 {
        Seq::empty()
    } else {
        spec_vm_fds(fds.drop_last()) + if spec_is_vm_fd(fds.last()) {
            seq![fds.last().fd_num]
        } else {
            Seq::empty()
        }
    }
}

/// The VCPU descriptors, in table order.
pub open spec fn spec_vcpu_entries(fds: Seq<FdInfo>) -> Seq<FdInfo>
    decreases fds.len(),
{
    if fds.len() == 0 {
        Seq::empty()
    } else {
        spec_vcpu_entries(fds.drop_last()) + if spec_is_vcpu_fd(fds.last()) {
            seq![fds.last()]
        } else {
            Seq::empty()
        }
    }
}

/// Every VCPU descriptor name parses, and no two share an index.
pub open spec fn spec_vcpus_ok(fds: Seq<FdInfo>) -> bool {
    let entries = spec_vcpu_entries(fds);
    &&& forall|k: int|
        0 <= k < entries.len() ==> spec_parses_as_decimal(spec_vcpu_tail(#[trigger] entries[k]))
    &&& forall|a: int, b: int|
        0 <= a < b < entries.len() ==> spec_decimal_value(spec_vcpu_tail(entries[a]))
            != spec_decimal_value(spec_vcpu_tail(entries[b]))
}

/// The VCPU list as parsed, in table order.
pub open spec fn spec_parsed_vcpus(fds: Seq<FdInfo>) -> Seq<VCPU> {
    Seq::new(
        spec_vcpu_entries(fds).len(),
        |k: int|
            VCPU {
                idx: spec_decimal_value(spec_vcpu_tail(spec_vcpu_entries(fds)[k])) as usize,
                fd_num: spec_vcpu_entries(fds)[k].fd_num,
            },
    )
}

/// Classify the target's descriptors into VM descriptors and parsed VCPUs.
///
/// Fails with `Configuration` when a VCPU name does not parse or when two
/// VCPUs share an index, which indicates several VMs in one hypervisor.
pub fn find_vm_fd(fds: &Vec<FdInfo>) -> (r: Result<(Vec<i32>, Vec<VCPU>), Error>)
    ensures
        r is Ok <==> spec_vcpus_ok(fds@),
        r is Err ==> r == Err::<(Vec<i32>, Vec<VCPU>), Error>(Error::Configuration),
        r matches Ok((vms, vcpus)) ==> vms@ == spec_vm_fds(fds@) && vcpus@ == spec_parsed_vcpus(
            fds@,
        ),
{
    let vm_name = kvm_vm_fd_name();
    let vcpu_prefix = kvm_vcpu_fd_prefix();
    let mut vms: Vec<i32> = Vec::new();
    let mut vcpus: Vec<VCPU> = Vec::new();
    let n = fds.len();
    let mut i: usize = 0;
    while i < n
        invariant
            i <= n,
            n == fds@.len(),
            vm_name@ == spec_kvm_vm_fd_name(),
            vcpu_prefix@ == spec_kvm_vcpu_fd_prefix(),
            vms@ == spec_vm_fds(fds@.take(i as int)),
            vcpus@.len() == spec_vcpu_entries(fds@.take(i as int)).len(),
            forall|k: int|
                0 <= k < vcpus@.len() ==> #[trigger] vcpus@[k] == (VCPU {
                    idx: spec_decimal_value(
                        spec_vcpu_tail(spec_vcpu_entries(fds@.take(i as int))[k]),
                    ) as usize,
                    fd_num: spec_vcpu_entries(fds@.take(i as int))[k].fd_num,
                }),
            forall|k: int|
                0 <= k < vcpus@.len() ==> spec_parses_as_decimal(
                    spec_vcpu_tail(#[trigger] spec_vcpu_entries(fds@.take(i as int))[k]),
                ),
            forall|a: int, b: int| 0 <= a < b < vcpus@.len() ==> vcpus@[a].idx != vcpus@[b].idx,
        decreases n - i,
    {
        let ghost prefix = fds@.take(i as int);
        proof {
            assert(fds@.take(i + 1).drop_last() =~= prefix);
            assert(fds@.take(i + 1).last() == fds@[i as int]);
        }
        if bytes_eq(&fds[i].name, &vm_name) {
            vms.push(fds[i].fd_num);
            proof {
                assert(vms@ =~= spec_vm_fds(fds@.take(i + 1)));
            }
        } else if starts_with(&fds[i].name, &vcpu_prefix) {
            match parse_decimal(&fds[i].name, 20) {
                None => {
                    proof {
                        let entries = spec_vcpu_entries(fds@);
                        let bad = spec_vcpu_entries(fds@.take(i + 1));
                        lemma_vcpu_entries_prefix(fds@, i + 1);
                        let k = bad.len() - 1;
                        assert(bad[k] == fds@[i as int]);
                        assert(entries[k] == fds@[i as int]);
                        assert(!spec_parses_as_decimal(spec_vcpu_tail(entries[k])));
                    }
                    return Err(Error::Configuration);
                },
                Some(idx) => {
                    let fd_num = fds[i].fd_num;
                    if contains_idx(&vcpus, idx) {
                        proof {
                            let entries = spec_vcpu_entries(fds@);
                            lemma_vcpu_entries_prefix(fds@, i + 1);
                            let last = vcpus@.len() as int;
                            assert(spec_vcpu_entries(fds@.take(i + 1)).drop_last() =~= spec_vcpu_entries(fds@.take(i as int)));
                            assert(spec_vcpu_entries(fds@.take(i + 1))[last] == fds@[i as int]);
                            assert(entries[last] == fds@[i as int]);
                            let j = choose|j: int| 0 <= j < vcpus@.len() && vcpus@[j].idx == idx;
                            assert(entries[j] == spec_vcpu_entries(fds@.take(i as int))[j]);
                            assert(spec_decimal_value(spec_vcpu_tail(entries[j]))
                                == spec_decimal_value(spec_vcpu_tail(entries[last])));
                            assert(!spec_vcpus_ok(fds@));
                        }
                        return Err(Error::Configuration);
                    }
                    vcpus.push(VCPU { idx, fd_num });
                },
            }
        }
        proof {
            if !spec_is_vm_fd(fds@[i as int]) {
                assert(vms@ =~= spec_vm_fds(fds@.take(i + 1)));
            }
        }
        i = i + 1;
    }
    proof {
        assert(fds@.take(n as int) =~= fds@);
        assert(vcpus@ =~= spec_parsed_vcpus(fds@));
        assert forall|a: int, b: int|
            0 <= a < b < spec_vcpu_entries(fds@).len() implies spec_decimal_value(
            spec_vcpu_tail(spec_vcpu_entries(fds@)[a]),
        ) != spec_decimal_value(spec_vcpu_tail(spec_vcpu_entries(fds@)[b])) by {
            assert(vcpus@[a].idx != vcpus@[b].idx);
        }
    }
    Ok((vms, vcpus))
}

/// Whether some already-collected VCPU carries this index.
fn contains_idx(v: &Vec<VCPU>, idx: usize) -> (r: bool)
    ensures
        r == exists|k: int| 0 <= k < v@.len() && v@[k].idx == idx,
{
    let n = v.len();
    let mut j: usize = 0;
    while j < n
        invariant
            j <= n,
            n == v@.len(),
            forall|k: int| 0 <= k < j ==> v@[k].idx != idx,
        decreases n - j,
    {
        if v[j].idx == idx {
            return true;
        }
        j = j + 1;
    }
    false
}

/// A prefix of the descriptor table contributes a prefix of the VCPU entries.
proof fn lemma_vcpu_entries_prefix(fds: Seq<FdInfo>, i: int)
    requires
        0 <= i <= fds.len(),
    ensures
        spec_vcpu_entries(fds.take(i)).len() <= spec_vcpu_entries(fds).len(),
        forall|k: int|
            0 <= k < spec_vcpu_entries(fds.take(i)).len() ==> #[trigger] spec_vcpu_entries(fds)[k]
                == spec_vcpu_entries(fds.take(i))[k],
    decreases fds.len() - i,
{
    if i < fds.len() {
        lemma_vcpu_entries_prefix(fds, i + 1);
        assert(fds.take(i + 1).drop_last() =~= fds.take(i));
        assert(fds.take(i + 1).last() == fds[i]);
    } else {
        assert(fds.take(i) =~= fds);
    }
}

/// Sort VCPUs by index; the result holds the same VCPUs.
pub fn sort_vcpus(src: Vec<VCPU>) -> (out: Vec<VCPU>)
    ensures
        out@.to_multiset() == src@.to_multiset(),
        out@.len() == src@.len(),
        forall|a: int, b: int| 0 <= a <= b < out@.len() ==> out@[a].idx <= out@[b].idx,
{
    broadcast use vstd::seq_lib::group_to_multiset_ensures;
    broadcast use vstd::multiset::group_multiset_axioms;

    let mut rest = src;
    let mut out: Vec<VCPU> = Vec::new();
    let ghost orig = rest@;
    while rest.len() > 0
        invariant
            out@.to_multiset().add(rest@.to_multiset()) =~= orig.to_multiset(),
            out@.len() + rest@.len() == orig.len(),
            forall|a: int, b: int| 0 <= a <= b < out@.len() ==> out@[a].idx <= out@[b].idx,
            forall|a: int, b: int|
                0 <= a < out@.len() && 0 <= b < rest@.len() ==> out@[a].idx <= rest@[b].idx,
        decreases rest@.len(),
    {
        let mut m: usize = 0;
        let mut j: usize = 1;
        while j < rest.len()
            invariant
                m < j <= rest@.len(),
                rest@.len() > 0,
                forall|k: int| 0 <= k < j ==> rest@[m as int].idx <= rest@[k].idx,
            decreases rest@.len() - j,
        {
            if rest[j].idx < rest[m].idx {
                m = j;
            }
            j = j + 1;
        }
        let ghost old_rest = rest@;
        let x = rest.remove(m);
        let ghost pre = out@;
        out.push(x);
        proof {
            old_rest.to_multiset_ensures();
            pre.to_multiset_ensures();
            assert(old_rest[m as int] == x);
            assert(old_rest.contains(x));
            assert(rest@ == old_rest.remove(m as int));
            assert(old_rest.remove(m as int).to_multiset() =~= old_rest.to_multiset().remove(x));
            assert(out@ == pre.push(x));
            assert(pre.push(x).to_multiset() =~= pre.to_multiset().insert(x));
            assert(out@.to_multiset().add(rest@.to_multiset()) =~= orig.to_multiset());
            assert forall|a: int, b: int|
                0 <= a < out@.len() && 0 <= b < rest@.len() implies out@[a].idx
                <= rest@[b].idx by {
                let b2 = if b < m { b } else { b + 1 };
                if a < pre.len() {
                    assert(out@[a] == pre[a]);
                } else {
                    assert(out@[a] == x);
                }
            }
            assert forall|a: int, b: int|
                0 <= a <= b < out@.len() implies out@[a].idx <= out@[b].idx by {
                if b < pre.len() {
                    assert(out@[a] == pre[a] && out@[b] == pre[b]);
                } else if a < pre.len() {
                    assert(out@[a] == pre[a] && out@[b] == x);
                }
            }
        }
    }
    out
}

/// The hypervisor handle: the tracee, the VM descriptor, the VCPUs ordered
/// by index.
pub struct Hypervisor {
    pub pid: i32,
    pub vm_fd: i32,
    pub vcpus: Vec<VCPU>,
    pub tracee: Tracee,
}

/// Open a handle on the hypervisor with process id `pid`, whose descriptor
/// table reads as `fds`.
///
/// Rejected with `Configuration`: no VM descriptor, more than one, no VCPU,
/// a VCPU name that does not parse, or two VCPUs with one index.
pub fn get_hypervisor(pid: i32, fds: &Vec<FdInfo>) -> (r: Result<Hypervisor, Error>)
    ensures
        r is Ok <==> (spec_vcpus_ok(fds@) && spec_vm_fds(fds@).len() == 1 && spec_vcpu_entries(
            fds@,
        ).len() > 0),
        r is Err ==> r == Err::<Hypervisor, Error>(Error::Configuration),
        r matches Ok(h) ==> ({
            &&& h.pid == pid
            &&& h.vm_fd == spec_vm_fds(fds@)[0]
            &&& h.tracee.pid == pid
            &&& h.tracee.vm_fd == h.vm_fd
            &&& !h.tracee.attached
            &&& h.vcpus@.to_multiset() == spec_parsed_vcpus(fds@).to_multiset()
            &&& h.vcpus@.len() == spec_parsed_vcpus(fds@).len()
            &&& forall|a: int, b: int|
                0 <= a <= b < h.vcpus@.len() ==> h.vcpus@[a].idx <= h.vcpus@[b].idx
        }),
{
    let (vms, vcpus) = find_vm_fd(fds)?;
    if vms.len() == 0 {
        return Err(Error::Configuration);
    }
    if vms.len() > 1 {
        return Err(Error::Configuration);
    }
    if vcpus.len() == 0 {
        proof {
            assert(spec_parsed_vcpus(fds@).len() == 0);
        }
        return Err(Error::Configuration);
    }
    let vm_fd = vms[0];
    let vcpus = sort_vcpus(vcpus);
    Ok(Hypervisor { pid, vm_fd, vcpus, tracee: Tracee::new(pid, vm_fd) })
}

impl Hypervisor {
    /// Stop the target: attach the tracee.  A second stop is a no-op.
    pub fn stop(&mut self, target: &mut TargetProcess) -> (r: Result<(), Error>)
        ensures
            (final(self).tracee, *final(target)) == spec_attach(old(self).tracee, *old(target)),
            final(self).pid == old(self).pid && final(self).vm_fd == old(self).vm_fd && final(self).vcpus == old(self).vcpus,
            r is Ok <==> (old(self).tracee.attached || (old(target).alive
                && !old(target).foreign_tracer)),
    {
        self.tracee.attach(target)
    }

    /// Resume the target: detach the tracee.  A second resume is a no-op.
    pub fn resume(&mut self, target: &mut TargetProcess) -> (r: Result<(), Error>)
        ensures
            (final(self).tracee, *final(target)) == spec_detach(old(self).tracee, *old(target)),
            final(self).pid == old(self).pid && final(self).vm_fd == old(self).vm_fd && final(self).vcpus == old(self).vcpus,
            !final(self).tracee.attached,
            r is Ok,
    {
        self.tracee.detach(target);
        Ok(())
    }

    /// List the VM's registered memory slots with their host ranges and
    /// guest-physical bases, as the tracee reports them.
    pub fn get_maps(&self, target: &TargetProcess) -> (r: Result<
        Vec<crate::maps::Mapping>,
        Error,
    >)
        ensures
            !self.tracee.attached ==> r == Err::<Vec<crate::maps::Mapping>, Error>(
                Error::NotAttached,
            ),
            self.tracee.attached && !target.alive ==> r == Err::<Vec<crate::maps::Mapping>, Error>(
                Error::TargetGone,
            ),
            self.tracee.attached && target.alive && (forall|k: int|
                0 <= k < target.memslots@.len() ==> (#[trigger] target.memslots@[k]).userspace_addr
                    + target.memslots@[k].memory_size <= usize::MAX
                    && target.memslots@[k].guest_phys_addr <= usize::MAX) ==> r is Ok,
            r matches Ok(v) ==> ({
                &&& v@.len() == target.memslots@.len()
                &&& forall|k: int|
                    #![trigger v@[k]]
                    0 <= k < v@.len() ==> v@[k].start == target.memslots@[k].userspace_addr && v@[
                        k
                    ].end == target.memslots@[k].userspace_addr + target.memslots@[k].memory_size
                        && v@[k].phys_addr == target.memslots@[k].guest_phys_addr
                        && v@[k].pathname@.len() == 0
            }),
    {
        self.tracee.get_maps(target)
    }

    /// Allocate remote memory for a value of `ty_size` bytes, padded up to
    /// `size` bytes.  Fails with `Configuration` when the padding is smaller
    /// than the value it must hold.
    pub fn alloc_mem_padded(&self, target: &mut TargetProcess, ty_size: usize, size: usize) -> (r:
        Result<HvMem, Error>)
        requires
            old(target).wf(),
        ensures
            final(target).wf(),
            r is Err ==> *final(target) == *old(target),
            size < ty_size ==> r == Err::<HvMem, Error>(Error::Configuration),
            size >= ty_size && !self.tracee.attached ==> r == Err::<HvMem, Error>(
                Error::NotAttached,
            ),
            size >= ty_size && self.tracee.attached && !old(target).alive ==> r == Err::<
                HvMem,
                Error,
            >(Error::TargetGone),
            size >= ty_size && self.tracee.attached && old(target).alive && 0 < size && size
                + PAGE_SIZE <= usize::MAX && old(target).next_addr + crate::tracee::page_align_spec(
                size,
            ) <= usize::MAX ==> r is Ok,
            r matches Ok(hv) ==> ({
                &&& hv.ty_size == ty_size
                &&& hv.len == size
                &&& hv.ptr == old(target).next_addr
                &&& hv.wf_in(*final(target))
                &&& final(target).region_bytes(hv.ptr as int) == Seq::new(
                    size as nat,
                    |i: int| 0u8,
                )
                &&& !old(target).has_region(hv.ptr as int)
                &&& forall|a: int|
                    a != hv.ptr ==> (final(target).has_region(a) <==> old(target).has_region(a))
                &&& forall|a: int|
                    a != hv.ptr && old(target).has_region(a) ==> final(target).region_bytes(a)
                        == old(target).region_bytes(a)
                &&& final(target).same_process_state(*old(target))
                &&& final(target).same_signal_state(*old(target))
                &&& final(target).memslots@ == old(target).memslots@
                &&& final(target).next_addr == old(target).next_addr
                    + crate::tracee::page_align_spec(size)
            }),
    {
        if size < ty_size {
            return Err(Error::Configuration);
        }
        let ptr = self.tracee.mmap(target, size)?;
        proof {
            assert(!old(target).has_region(ptr as int)) by {
                if old(target).has_region(ptr as int) {
                    let i = old(target).region_index(ptr as int);
                    assert(old(target).regions@[i].addr < old(target).next_addr);
                }
            }
        }
        Ok(HvMem { ptr, len: size, ty_size })
    }

    /// Create an interrupt source for line `gsi`: register an irqfd with
    /// KVM on this VM.  The returned registration can be signalled to raise
    /// the IRQ in-guest; the scratch argument memory is freed again.
    pub fn irqfd(&self, target: &mut TargetProcess, gsi: u32) -> (r: Result<
        crate::target::KvmIrqFd,
        Error,
    >)
        requires
            old(target).wf(),
        ensures
            final(target).wf(),
            r is Err ==> *final(target) == *old(target),
            !self.tracee.attached ==> r == Err::<crate::target::KvmIrqFd, Error>(
                Error::NotAttached,
            ) && *final(target) == *old(target),
            self.tracee.attached && !old(target).alive ==> r == Err::<
                crate::target::KvmIrqFd,
                Error,
            >(Error::TargetGone) && *final(target) == *old(target),
            self.tracee.attached && old(target).alive && old(target).next_addr + 2 * PAGE_SIZE
                <= usize::MAX ==> r is Ok,
            r matches Ok(q) ==> ({
                &&& q.gsi == gsi
                &&& q.fd == 0
                &&& final(target).irqfds@ == old(target).irqfds@.push(q)
                &&& final(target).has_irqfd(gsi)
                &&& final(target).memslots@ == old(target).memslots@
                &&& final(target).ioeventfds@ == old(target).ioeventfds@
                &&& forall|a: int| final(target).has_region(a) <==> old(target).has_region(a)
                &&& forall|a: int|
                    old(target).has_region(a) ==> final(target).region_bytes(a) == old(
                        target,
                    ).region_bytes(a)
                &&& final(target).same_process_state(*old(target))
                &&& final(target).next_addr <= old(target).next_addr + 2 * PAGE_SIZE
            }),
    {
        if !self.tracee.attached {
            return Err(Error::NotAttached);
        }
        if !target.alive {
            return Err(Error::TargetGone);
        }
        proof {
            assert(crate::tracee::page_align_spec(crate::tracee::IRQFD_SIZE) == 4096) by {
                vstd::arithmetic::div_mod::lemma_fundamental_div_mod_converse(4127, 4096, 1, 31);
                vstd::arithmetic::div_mod::lemma_fundamental_div_mod_converse(4096, 4096, 1, 0);
            }
        }
        let arg = self.alloc_mem(target, crate::tracee::IRQFD_SIZE)?;
        let ghost t1 = *target;
        let bytes = crate::tracee::encode_irqfd(0, gsi, 0);
        let write_res: Result<(), Error> = arg.write(target, &bytes);
        proof {
            assert(write_res is Ok);
        }
        let ghost t2 = *target;
        proof {
            assert(t2.region_bytes(arg.ptr as int) =~= bytes@);
            assert((0u32 & crate::tracee::KVM_IRQFD_FLAG_DEASSIGN) == 0u32) by (bit_vector);
        }
        let ioctl_res: Result<i32, Error> = self.tracee.vm_ioctl_with_ref(
            target,
            crate::tracee::KVM_IRQFD,
            &arg,
        );
        proof {
            assert(ioctl_res is Ok);
        }
        let ghost t3 = *target;
        arg.release(&self.tracee, target)?;
        let entry = crate::target::KvmIrqFd { fd: 0, gsi };
        proof {
            assert(t3.irqfds@ == t2.irqfds@.push(entry));
            assert(target.irqfds@ == old(target).irqfds@.push(entry));
            assert(target.irqfds@.last() == entry);
            assert(target.has_irqfd(gsi));
            assert forall|a: int| true implies (target.has_region(a) <==> old(target).has_region(
                a,
            )) by {
                if a == arg.ptr {
                    assert(!old(target).has_region(a)) by {
                        if old(target).has_region(a) {
                            let i = old(target).region_index(a);
                            assert(old(target).regions@[i].addr < old(target).next_addr);
                        }
                    }
                    assert(!target.has_region(a));
                } else {
                    assert(t1.has_region(a) <==> old(target).has_region(a));
                    assert(t2.has_region(a) <==> t1.has_region(a));
                    assert(t3.has_region(a) <==> t2.has_region(a));
                    assert(target.has_region(a) <==> t3.has_region(a));
                }
            }
            assert forall|a: int| old(target).has_region(a) implies target.region_bytes(a) == old(
                target,
            ).region_bytes(a) by {
                assert(a != arg.ptr) by {
                    if old(target).has_region(a) && a == arg.ptr {
                        let i = old(target).region_index(a);
                        assert(old(target).regions@[i].addr < old(target).next_addr);
                    }
                }
                assert(t1.region_bytes(a) == old(target).region_bytes(a));
                assert(t2.region_bytes(a) == t1.region_bytes(a));
                assert(t3.region_bytes(a) == t2.region_bytes(a));
                assert(target.region_bytes(a) == t3.region_bytes(a));
            }
        }
        Ok(entry)
    }

    /// Remove an irqfd registration from KVM: the deassigning ioctl for the
    /// registration's descriptor and interrupt line, issued when the
    /// device's interrupt source is torn down.
    pub fn irqfd_release(&self, target: &mut TargetProcess, q: crate::target::KvmIrqFd) -> (r:
        Result<(), Error>)
        requires
            old(target).wf(),
        ensures
            final(target).wf(),
            r is Err ==> *final(target) == *old(target),
            !self.tracee.attached ==> r == Err::<(), Error>(Error::NotAttached) && *final(target)
                == *old(target),
            self.tracee.attached && !old(target).alive ==> r == Err::<(), Error>(Error::TargetGone)
                && *final(target) == *old(target),
            self.tracee.attached && old(target).alive && old(target).next_addr + 2 * PAGE_SIZE
                <= usize::MAX ==> r is Ok,
            r is Ok ==> ({
                &&& forall|k: int|
                    0 <= k < final(target).irqfds@.len() ==> #[trigger] final(target).irqfds@[k]
                        != q && old(target).irqfds@.contains(final(target).irqfds@[k])
                &&& forall|j: int|
                    0 <= j < old(target).irqfds@.len() && #[trigger] old(target).irqfds@[j] != q
                        ==> final(target).irqfds@.contains(old(target).irqfds@[j])
                &&& final(target).memslots@ == old(target).memslots@
                &&& final(target).ioeventfds@ == old(target).ioeventfds@
                &&& forall|a: int| final(target).has_region(a) <==> old(target).has_region(a)
                &&& forall|a: int|
                    old(target).has_region(a) ==> final(target).region_bytes(a) == old(
                        target,
                    ).region_bytes(a)
                &&& final(target).same_process_state(*old(target))
                &&& final(target).next_addr <= old(target).next_addr + 2 * PAGE_SIZE
            }),
    {
        if !self.tracee.attached {
            return Err(Error::NotAttached);
        }
        if !target.alive {
            return Err(Error::TargetGone);
        }
        proof {
            assert(crate::tracee::page_align_spec(crate::tracee::IRQFD_SIZE) == 4096) by {
                vstd::arithmetic::div_mod::lemma_fundamental_div_mod_converse(4127, 4096, 1, 31);
                vstd::arithmetic::div_mod::lemma_fundamental_div_mod_converse(4096, 4096, 1, 0);
            }
        }
        let arg = self.alloc_mem(target, crate::tracee::IRQFD_SIZE)?;
        let ghost t1 = *target;
        let bytes = crate::tracee::encode_irqfd(
            q.fd,
            q.gsi,
            crate::tracee::KVM_IRQFD_FLAG_DEASSIGN,
        );
        let write_res: Result<(), Error> = arg.write(target, &bytes);
        proof {
            assert(write_res is Ok);
        }
        let ghost t2 = *target;
        proof {
            assert(t2.region_bytes(arg.ptr as int) =~= bytes@);
            assert((crate::tracee::KVM_IRQFD_FLAG_DEASSIGN & crate::tracee::KVM_IRQFD_FLAG_DEASSIGN)
                != 0u32) by (bit_vector);
            assert(crate::tracee::spec_decode_irqfd(t2.region_bytes(arg.ptr as int)) == q);
        }
        let ioctl_res: Result<i32, Error> = self.tracee.vm_ioctl_with_ref(
            target,
            crate::tracee::KVM_IRQFD,
            &arg,
        );
        proof {
            assert(ioctl_res is Ok);
        }
        let ghost t3 = *target;
        arg.release(&self.tracee, target)?;
        proof {
            assert(t2.irqfds@ == old(target).irqfds@);
            assert(target.irqfds@ == t3.irqfds@);
            assert forall|a: int| true implies (target.has_region(a) <==> old(target).has_region(
                a,
            )) by {
                if a == arg.ptr {
                    assert(!old(target).has_region(a)) by {
                        if old(target).has_region(a) {
                            let i = old(target).region_index(a);
                            assert(old(target).regions@[i].addr < old(target).next_addr);
                        }
                    }
                    assert(!target.has_region(a));
                } else {
                    assert(t1.has_region(a) <==> old(target).has_region(a));
                    assert(t2.has_region(a) <==> t1.has_region(a));
                    assert(t3.has_region(a) <==> t2.has_region(a));
                    assert(target.has_region(a) <==> t3.has_region(a));
                }
            }
            assert forall|a: int| old(target).has_region(a) implies target.region_bytes(a) == old(
                target,
            ).region_bytes(a) by {
                assert(a != arg.ptr) by {
                    if old(target).has_region(a) && a == arg.ptr {
                        let i = old(target).region_index(a);
                        assert(old(target).regions@[i].addr < old(target).next_addr);
                    }
                }
                assert(t1.region_bytes(a) == old(target).region_bytes(a));
                assert(t2.region_bytes(a) == t1.region_bytes(a));
                assert(t3.region_bytes(a) == t2.region_bytes(a));
                assert(target.region_bytes(a) == t3.region_bytes(a));
            }
        }
        Ok(())
    }

    /// Register a doorbell with KVM: a guest write of `datamatch` at
    /// guest-physical `addr` signals the doorbell without an exit.  The
    /// scratch argument memory is freed again.
    pub fn ioeventfd(&self, target: &mut TargetProcess, addr: u64, len: u32, datamatch: u64) -> (r:
        Result<crate::target::KvmIoEventFd, Error>)
        requires
            old(target).wf(),
        ensures
            final(target).wf(),
            r is Err ==> *final(target) == *old(target),
            !self.tracee.attached ==> r == Err::<crate::target::KvmIoEventFd, Error>(
                Error::NotAttached,
            ) && *final(target) == *old(target),
            self.tracee.attached && !old(target).alive ==> r == Err::<
                crate::target::KvmIoEventFd,
                Error,
            >(Error::TargetGone) && *final(target) == *old(target),
            self.tracee.attached && old(target).alive && old(target).next_addr + 2 * PAGE_SIZE
                <= usize::MAX ==> r is Ok,
            r matches Ok(q) ==> ({
                &&& q.addr == addr && q.len == len && q.datamatch == datamatch
                &&& q.fd == 0 && q.flags == crate::tracee::KVM_IOEVENTFD_FLAG_DATAMATCH
                &&& final(target).ioeventfds@ == old(target).ioeventfds@.push(q)
                &&& final(target).has_ioeventfd(addr, datamatch)
                &&& final(target).memslots@ == old(target).memslots@
                &&& final(target).irqfds@ == old(target).irqfds@
                &&& forall|a: int| final(target).has_region(a) <==> old(target).has_region(a)
                &&& forall|a: int|
                    old(target).has_region(a) ==> final(target).region_bytes(a) == old(
                        target,
                    ).region_bytes(a)
                &&& final(target).same_process_state(*old(target))
                &&& final(target).next_addr <= old(target).next_addr + 2 * PAGE_SIZE
            }),
    {
        if !self.tracee.attached {
            return Err(Error::NotAttached);
        }
        if !target.alive {
            return Err(Error::TargetGone);
        }
        proof {
            assert(crate::tracee::page_align_spec(crate::tracee::IOEVENTFD_SIZE) == 4096) by {
                vstd::arithmetic::div_mod::lemma_fundamental_div_mod_converse(4159, 4096, 1, 63);
                vstd::arithmetic::div_mod::lemma_fundamental_div_mod_converse(4096, 4096, 1, 0);
            }
        }
        let arg = self.alloc_mem(target, crate::tracee::IOEVENTFD_SIZE)?;
        let ghost t1 = *target;
        let reg = crate::target::KvmIoEventFd {
            datamatch,
            addr,
            len,
            fd: 0,
            flags: crate::tracee::KVM_IOEVENTFD_FLAG_DATAMATCH,
        };
        let bytes = crate::tracee::encode_ioeventfd(&reg);
        let write_res: Result<(), Error> = arg.write(target, &bytes);
        proof {
            assert(write_res is Ok);
        }
        let ghost t2 = *target;
        proof {
            assert(t2.region_bytes(arg.ptr as int) =~= bytes@);
            assert((crate::tracee::KVM_IOEVENTFD_FLAG_DATAMATCH
                & crate::tracee::KVM_IOEVENTFD_FLAG_DEASSIGN) == 0u32) by (bit_vector);
        }
        let ioctl_res: Result<i32, Error> = self.tracee.vm_ioctl_with_ref(
            target,
            crate::tracee::KVM_IOEVENTFD,
            &arg,
        );
        proof {
            assert(ioctl_res is Ok);
        }
        let ghost t3 = *target;
        arg.release(&self.tracee, target)?;
        proof {
            assert(t3.ioeventfds@ == t2.ioeventfds@.push(reg));
            assert(target.ioeventfds@ == old(target).ioeventfds@.push(reg));
            assert(target.ioeventfds@.last() == reg);
            assert(target.has_ioeventfd(addr, datamatch));
            assert forall|a: int| true implies (target.has_region(a) <==> old(target).has_region(
                a,
            )) by {
                if a == arg.ptr {
                    assert(!old(target).has_region(a)) by {
                        if old(target).has_region(a) {
                            let i = old(target).region_index(a);
                            assert(old(target).regions@[i].addr < old(target).next_addr);
                        }
                    }
                    assert(!target.has_region(a));
                } else {
                    assert(t1.has_region(a) <==> old(target).has_region(a));
                    assert(t2.has_region(a) <==> t1.has_region(a));
                    assert(t3.has_region(a) <==> t2.has_region(a));
                    assert(target.has_region(a) <==> t3.has_region(a));
                }
            }
            assert forall|a: int| old(target).has_region(a) implies target.region_bytes(a) == old(
                target,
            ).region_bytes(a) by {
                assert(a != arg.ptr) by {
                    if old(target).has_region(a) && a == arg.ptr {
                        let i = old(target).region_index(a);
                        assert(old(target).regions@[i].addr < old(target).next_addr);
                    }
                }
                assert(t1.region_bytes(a) == old(target).region_bytes(a));
                assert(t2.region_bytes(a) == t1.region_bytes(a));
                assert(t3.region_bytes(a) == t2.region_bytes(a));
                assert(target.region_bytes(a) == t3.region_bytes(a));
            }
        }
        Ok(reg)
    }

    /// Allocate a page-padded region in the target and register it with KVM
    /// as guest-physical memory at `VM_MEM_GUEST_PHYS_ADDR`.
    ///
    /// The slot id is the count of currently registered slots.  The region
    /// is `(ty_size / PAGE_SIZE + 1) * PAGE_SIZE` bytes: always at least one
    /// page more than the value needs.
    pub fn vm_add_mem(&self, target: &mut TargetProcess, ty_size: usize) -> (r: Result<
        VmMem,
        Error,
    >)
        requires
            old(target).wf(),
        ensures
            final(target).wf(),
            !self.tracee.attached ==> r == Err::<VmMem, Error>(Error::NotAttached) && *final(target)
                == *old(target),
            self.tracee.attached && !old(target).alive ==> r == Err::<VmMem, Error>(
                Error::TargetGone,
            ) && *final(target) == *old(target),
            r is Err ==> ({
                &&& forall|a: int| final(target).has_region(a) <==> old(target).has_region(a)
                &&& forall|a: int|
                    old(target).has_region(a) ==> final(target).region_bytes(a) == old(
                        target,
                    ).region_bytes(a)
                &&& final(target).memslots@ == old(target).memslots@
                &&& final(target).same_process_state(*old(target))
            }),
            self.tracee.attached && old(target).alive && old(target).memslots@.len() <= u32::MAX
                && ty_size + 2 * PAGE_SIZE <= usize::MAX && old(target).next_addr + ty_size + 3
                * PAGE_SIZE <= usize::MAX ==> r is Ok,
            r matches Ok(vm) ==> ({
                &&& vm.wf_in(*final(target))
                &&& vm.mem.ty_size == ty_size
                &&& vm.mem.len == (ty_size / PAGE_SIZE + 1) * PAGE_SIZE
                &&& vm.region.slot == old(target).memslots@.len()
                &&& vm.region.flags == 0
                &&& vm.region.guest_phys_addr == VM_MEM_GUEST_PHYS_ADDR
                &&& vm.region.memory_size == vm.mem.len
                &&& vm.region.userspace_addr == vm.mem.ptr
                &&& final(target).has_slot(vm.region.slot)
                &&& final(target).slot_entry(vm.region.slot) == vm.region
                &&& forall|s: u32|
                    s != vm.region.slot ==> (final(target).has_slot(s) <==> old(target).has_slot(
                        s,
                    ))
                &&& forall|s: u32|
                    s != vm.region.slot && old(target).has_slot(s) ==> final(target).slot_entry(s)
                        == old(target).slot_entry(s)
                &&& !old(target).has_region(vm.mem.ptr as int)
                &&& !old(target).has_region(vm.ioctl_arg.ptr as int)
                &&& forall|a: int|
                    a != vm.mem.ptr && a != vm.ioctl_arg.ptr ==> (final(target).has_region(a)
                        <==> old(target).has_region(a))
                &&& forall|a: int|
                    a != vm.mem.ptr && a != vm.ioctl_arg.ptr && old(target).has_region(a)
                        ==> final(target).region_bytes(a) == old(target).region_bytes(a)
                &&& final(target).region_bytes(vm.mem.ptr as int) == Seq::new(
                    vm.mem.len as nat,
                    |i: int| 0u8,
                )
                &&& final(target).same_process_state(*old(target))
                &&& final(target).same_signal_state(*old(target))
                &&& final(target).next_addr <= old(target).next_addr + ty_size + 2 * PAGE_SIZE
            }),
    {
        if !self.tracee.attached {
            return Err(Error::NotAttached);
        }
        if !target.alive {
            return Err(Error::TargetGone);
        }
        if target.memslots.len() > (u32::MAX as usize) {
            return Err(Error::KvmProtocol);
        }
        let slot = target.memslots.len() as u32;
        if ty_size > usize::MAX - 2 * PAGE_SIZE {
            return Err(Error::Configuration);
        }
        let q = ty_size / PAGE_SIZE;
        proof {
            vstd::arithmetic::div_mod::lemma_fundamental_div_mod(ty_size as int, 4096);
            vstd::arithmetic::div_mod::lemma_mod_pos_bound(ty_size as int, 4096);
        }
        let slot_len = (q + 1) * PAGE_SIZE;
        proof {
            assert(slot_len % PAGE_SIZE == 0) by {
                vstd::arithmetic::div_mod::lemma_fundamental_div_mod_converse(
                    slot_len as int,
                    4096,
                    q as int + 1,
                    0,
                );
            }
            crate::page::lemma_page_align_of_multiple(slot_len as int);
            assert(crate::tracee::page_align_spec(slot_len) == slot_len);
            assert(crate::tracee::page_align_spec(32) == 4096) by {
                vstd::arithmetic::div_mod::lemma_fundamental_div_mod_converse(4127, 4096, 1, 31);
                vstd::arithmetic::div_mod::lemma_fundamental_div_mod_converse(4096, 4096, 1, 0);
            }
        }
        let mem = match self.alloc_mem_padded(target, ty_size, slot_len) {
            Ok(m) => m,
            Err(e) => {
                return Err(e);
            },
        };
        let ghost t1 = *target;
        let desc = KvmMemSlot {
            slot,
            flags: 0,
            guest_phys_addr: VM_MEM_GUEST_PHYS_ADDR,
            memory_size: slot_len as u64,
            userspace_addr: mem.ptr as u64,
        };
        let arg = match self.alloc_mem(target, MEMORY_REGION_SIZE) {
            Ok(a) => a,
            Err(e) => {
                let cleanup: Result<(), Error> = mem.release(&self.tracee, target);
                proof {
                    assert(cleanup is Ok);
                }
                return Err(e);
            },
        };
        let ghost t2 = *target;
        let enc = encode_memory_region(&desc);
        let write_res: Result<(), Error> = arg.write(target, &enc);
        proof {
            assert(write_res is Ok);
        }
        let ghost t3 = *target;
        proof {
            assert(t3.region_bytes(arg.ptr as int) =~= enc@);
            assert(crate::tracee::spec_decode_region(t3.region_bytes(arg.ptr as int)) == desc);
        }
        let ioctl_res: Result<i32, Error> = self.tracee.vm_ioctl_with_ref(
            target,
            KVM_SET_USER_MEMORY_REGION,
            &arg,
        );
        proof {
            assert(ioctl_res is Ok);
        }
        proof {
            assert(mem.ptr != arg.ptr);
            assert(target.region_bytes(mem.ptr as int) == t1.region_bytes(mem.ptr as int));
            assert forall|a: int| a != mem.ptr && a != arg.ptr implies (target.has_region(a)
                <==> old(target).has_region(a)) by {
                assert(t1.has_region(a) <==> old(target).has_region(a));
                assert(t2.has_region(a) <==> t1.has_region(a));
                assert(t3.has_region(a) <==> t2.has_region(a));
                assert(target.has_region(a) <==> t3.has_region(a));
            }
            assert forall|a: int| a != mem.ptr && a != arg.ptr && old(target).has_region(
                a,
            ) implies target.region_bytes(a) == old(target).region_bytes(a) by {
                assert(t1.region_bytes(a) == old(target).region_bytes(a));
                assert(t2.region_bytes(a) == t1.region_bytes(a));
                assert(t3.region_bytes(a) == t2.region_bytes(a));
                assert(target.region_bytes(a) == t3.region_bytes(a));
            }
            assert forall|s: u32| s != slot implies (target.has_slot(s) <==> old(
                target,
            ).has_slot(s)) by {
                assert(t3.has_slot(s) <==> old(target).has_slot(s));
            }
            assert forall|s: u32| s != slot && old(target).has_slot(s) implies target.slot_entry(
                s,
            ) == old(target).slot_entry(s) by {
                assert(t3.memslots@ == old(target).memslots@);
            }
        }
        Ok(VmMem { mem, ioctl_arg: arg, region: desc })
    }

    /// Allocate remote memory for a value of `ty_size` bytes.
    pub fn alloc_mem(&self, target: &mut TargetProcess, ty_size: usize) -> (r: Result<HvMem, Error>)
        requires
            old(target).wf(),
        ensures
            final(target).wf(),
            r is Err ==> *final(target) == *old(target),
            !self.tracee.attached ==> r == Err::<HvMem, Error>(Error::NotAttached),
            self.tracee.attached && !old(target).alive ==> r == Err::<HvMem, Error>(
                Error::TargetGone,
            ),
            self.tracee.attached && old(target).alive && 0 < ty_size && ty_size + PAGE_SIZE
                <= usize::MAX && old(target).next_addr + crate::tracee::page_align_spec(ty_size)
                <= usize::MAX ==> r is Ok,
            r matches Ok(hv) ==> ({
                &&& hv.ty_size == ty_size
                &&& hv.len == ty_size
                &&& hv.ptr == old(target).next_addr
                &&& hv.wf_in(*final(target))
                &&& final(target).region_bytes(hv.ptr as int) == Seq::new(
                    ty_size as nat,
                    |i: int| 0u8,
                )
                &&& !old(target).has_region(hv.ptr as int)
                &&& forall|a: int|
                    a != hv.ptr ==> (final(target).has_region(a) <==> old(target).has_region(a))
                &&& forall|a: int|
                    a != hv.ptr && old(target).has_region(a) ==> final(target).region_bytes(a)
                        == old(target).region_bytes(a)
                &&& final(target).same_process_state(*old(target))
                &&& final(target).same_signal_state(*old(target))
                &&& final(target).memslots@ == old(target).memslots@
                &&& final(target).next_addr == old(target).next_addr
                    + crate::tracee::page_align_spec(ty_size)
            }),
    {
        self.alloc_mem_padded(target, ty_size, ty_size)
    }
}

} // verus!
