//! Debugger-style control of the hypervisor process.
//!
//! A `Tracee` is bound to one target process and is either attached (an
//! injectee session exists; the designated target threads are held at a
//! syscall-safe stop) or detached.  Remote operations — injected `mmap` and
//! `munmap`, KVM ioctls, cross-process memory copies — are specified as
//! transitions of the [`TargetProcess`](crate::target::TargetProcess) model.

use vstd::prelude::*;

use crate::bytes::read_u32_le;
use crate::bytes::read_u64_le;
use crate::bytes::write_u32_le;
use crate::bytes::write_u64_le;
use crate::error::Error;
use crate::page::page_align;
use crate::page::PAGE_SIZE;
use crate::target::HostRegion;
use crate::target::slot_at;
use crate::target::slot_present;
use crate::target::KvmMemSlot;
use crate::target::TargetProcess;

verus! {

/// Ioctl request code of `KVM_SET_USER_MEMORY_REGION`.
pub const KVM_SET_USER_MEMORY_REGION: u64 = 0x4020AE46;

/// Ioctl request code of `KVM_CHECK_EXTENSION`.
pub const KVM_CHECK_EXTENSION: u64 = 0xAE03;

/// Ioctl request code of `KVM_IRQFD`.
pub const KVM_IRQFD: u64 = 0x4020AE76;

/// Ioctl request code of `KVM_IOEVENTFD`.
pub const KVM_IOEVENTFD: u64 = 0x4040AE79;

/// Byte size of the `kvm_userspace_memory_region` descriptor.
pub const MEMORY_REGION_SIZE: usize = 32;

/// Byte size of the `kvm_irqfd` descriptor.
pub const IRQFD_SIZE: usize = 32;

/// Byte size of the `kvm_ioeventfd` descriptor.
pub const IOEVENTFD_SIZE: usize = 64;

/// `kvm_irqfd` flag: remove the registration instead of adding it.
pub const KVM_IRQFD_FLAG_DEASSIGN: u32 = 1;

/// `kvm_ioeventfd` flag: the doorbell matches a specific written value.
pub const KVM_IOEVENTFD_FLAG_DATAMATCH: u32 = 1;

/// `kvm_ioeventfd` flag: remove the registration instead of adding it.
pub const KVM_IOEVENTFD_FLAG_DEASSIGN: u32 = 4;

/// The VM ioctls the model executes.
pub open spec fn spec_ioctl_supported(request: u64) -> bool {
    request == KVM_SET_USER_MEMORY_REGION || request == KVM_IRQFD || request == KVM_IOEVENTFD
}

/// Byte size of the argument each modeled VM ioctl reads.
pub open spec fn spec_ioctl_arg_size(request: u64) -> int {
    if request == KVM_IOEVENTFD {
        IOEVENTFD_SIZE as int
    } else {
        MEMORY_REGION_SIZE as int
    }
}

/// Control channel to one hypervisor process.
pub struct Tracee {
    /// Process identifier of the target.
    pub pid: i32,
    /// The VM file descriptor inside the target.
    pub vm_fd: i32,
    /// An injectee session exists: the target threads are stopped and remote
    /// calls are possible.
    pub attached: bool,
}

/// One step of the tracee lifecycle.
#[derive(Clone, Copy, Debug, PartialEq, Eq, Structural)]
pub enum TraceeOp {
    Attach,
    Detach,
}

/// The attach transition: a no-op when already attached; otherwise it stops
/// the target threads, unless the target is gone or already traced.
pub open spec fn spec_attach(t: Tracee, w: TargetProcess) -> (Tracee, TargetProcess) {
    if t.attached {
        (t, w)
    } else if w.alive && !w.foreign_tracer {
        (Tracee { attached: true, ..t }, TargetProcess { threads_stopped: true, ..w })
    } else {
        (t, w)
    }
}

/// The detach transition: a no-op when already detached; otherwise the
/// target threads continue.
pub open spec fn spec_detach(t: Tracee, w: TargetProcess) -> (Tracee, TargetProcess) {
    if t.attached {
        (Tracee { attached: false, ..t }, TargetProcess { threads_stopped: false, ..w })
    } else {
        (t, w)
    }
}

/// One lifecycle step.
pub open spec fn spec_step(t: Tracee, w: TargetProcess, op: TraceeOp) -> (Tracee, TargetProcess) {
    match op {
        TraceeOp::Attach => spec_attach(t, w),
        TraceeOp::Detach => spec_detach(t, w),
    }
}

/// A whole sequence of lifecycle steps, applied front to back.
pub open spec fn spec_run(t: Tracee, w: TargetProcess, ops: Seq<TraceeOp>) -> (
    Tracee,
    TargetProcess,
)
    decreases ops.len(),
{
    if ops.len() == 0 {
        (t, w)
    } else {
        let (t2, w2) = spec_step(t, w, ops[0]);
        spec_run(t2, w2, ops.drop_first())
    }
}

/// Running a sequence and then one more step is the step applied to the
/// sequence's result.
pub proof fn lemma_run_snoc(t: Tracee, w: TargetProcess, ops: Seq<TraceeOp>, op: TraceeOp)
    ensures
        spec_run(t, w, ops.push(op)) == spec_step(
            spec_run(t, w, ops).0,
            spec_run(t, w, ops).1,
            op,
        ),
    decreases ops.len(),
{
    reveal_with_fuel(spec_run, 3);
    if ops.len() == 0 {
        assert(ops.push(op)[0] == op);
        assert(ops.push(op).drop_first() =~= ops);
    } else {
        let (t2, w2) = spec_step(t, w, ops[0]);
        assert(ops.push(op)[0] == ops[0]);
        assert(ops.push(op).drop_first() =~= ops.drop_first().push(op));
        lemma_run_snoc(t2, w2, ops.drop_first(), op);
    }
}

/// Whatever sequence of attaches and detaches runs, the target threads are
/// stopped exactly while the tracee is attached.
pub proof fn lemma_stop_matches_attach(t: Tracee, w: TargetProcess, ops: Seq<TraceeOp>)
    requires
        t.attached == w.threads_stopped,
    ensures
        spec_run(t, w, ops).0.attached == spec_run(t, w, ops).1.threads_stopped,
    decreases ops.len(),
{
    if ops.len() > 0 {
        let (t2, w2) = spec_step(t, w, ops[0]);
        lemma_stop_matches_attach(t2, w2, ops.drop_first());
    }
}

/// A tracee taken on a running target and released at the end leaves the
/// target threads as it found them: running.
pub proof fn lemma_attach_detach_round_trip(t: Tracee, w: TargetProcess, ops: Seq<TraceeOp>)
    requires
        !t.attached,
        !w.threads_stopped,
        ops.len() > 0,
        ops.last() == TraceeOp::Detach,
    ensures
        !spec_run(t, w, ops).1.threads_stopped,
{
    let front = ops.drop_last();
    let (t2, w2) = spec_run(t, w, front);
    lemma_stop_matches_attach(t, w, front);
    assert(ops =~= front.push(TraceeOp::Detach));
    lemma_run_snoc(t, w, front, TraceeOp::Detach);
}

impl Tracee {
    /// A channel to `pid`, created detached.
    pub fn new(pid: i32, vm_fd: i32) -> (t: Tracee)
        ensures
            t.pid == pid,
            t.vm_fd == vm_fd,
            !t.attached,
    {
        Tracee { pid, vm_fd, attached: false }
    }

    /// Process identifier of the target.
    pub fn pid(&self) -> (r: i32)
        ensures
            r == self.pid,
    {
        self.pid
    }

    /// Attach to the target, stopping its designated threads.
    ///
    /// A second attach is a no-op.  Attaching fails with `TargetGone` when
    /// the process has exited and with `TransportError` when another tracer
    /// already holds it.
    pub fn attach(&mut self, target: &mut TargetProcess) -> (r: Result<(), Error>)
        ensures
            (*final(self), *final(target)) == spec_attach(*old(self), *old(target)),
            r is Ok <==> (old(self).attached || (old(target).alive
                && !old(target).foreign_tracer)),
            r is Err ==> r == Err::<(), Error>(
                if !old(target).alive {
                    Error::TargetGone
                } else {
                    Error::TransportError
                },
            ),
            old(self).attached ==> *final(self) == *old(self) && *final(target) == *old(target),
    {
        if self.attached {
            return Ok(());
        }
        if !target.alive {
            return Err(Error::TargetGone);
        }
        if target.foreign_tracer {
            return Err(Error::TransportError);
        }
        self.attached = true;
        target.threads_stopped = true;
        Ok(())
    }

    /// Detach from the target; its threads continue.  A second detach is a
    /// no-op.
    pub fn detach(&mut self, target: &mut TargetProcess)
        ensures
            (*final(self), *final(target)) == spec_detach(*old(self), *old(target)),
            !final(self).attached,
            !old(self).attached ==> *final(self) == *old(self) && *final(target) == *old(target),
    {
        if self.attached {
            self.attached = false;
            target.threads_stopped = false;
        }
    }

    /// Remotely map `length` bytes of fresh anonymous shared memory in the
    /// target.  The kernel zeroes such a mapping.
    pub fn mmap(&self, target: &mut TargetProcess, length: usize) -> (r: Result<usize, Error>)
        requires
            old(target).wf(),
        ensures
            final(target).wf(),
            !self.attached ==> r == Err::<usize, Error>(Error::NotAttached) && *final(target)
                == *old(target),
            self.attached && !old(target).alive ==> r == Err::<usize, Error>(Error::TargetGone)
                && *final(target) == *old(target),
            r is Err ==> *final(target) == *old(target),
            self.attached && old(target).alive && 0 < length && length + PAGE_SIZE <= usize::MAX
                && old(target).next_addr + page_align_spec(length) <= usize::MAX ==> r is Ok,
            r matches Ok(addr) ==> ({
                &&& addr == old(target).next_addr
                &&& final(target).next_addr == old(target).next_addr + page_align_spec(length)
                &&& final(target).regions@.len() == old(target).regions@.len() + 1
                &&& forall|i: int|
                    0 <= i < old(target).regions@.len() ==> final(target).regions@[i] == old(target).regions@[i]
                &&& final(target).has_region(addr as int)
                &&& final(target).region_bytes(addr as int) == Seq::new(
                    length as nat,
                    |i: int| 0u8,
                )
                &&& forall|a: int|
                    a != addr ==> (final(target).has_region(a) <==> old(target).has_region(a))
                &&& forall|a: int|
                    a != addr && old(target).has_region(a) ==> final(target).region_bytes(a) == old(target).region_bytes(a)
                &&& final(target).same_process_state(*old(target))
                &&& final(target).same_signal_state(*old(target))
                &&& final(target).memslots@ == old(target).memslots@
            }),
    {
        if !self.attached {
            return Err(Error::NotAttached);
        }
        if !target.alive {
            return Err(Error::TargetGone);
        }
        if length == 0 {
            return Err(Error::TransportError);
        }
        if length > usize::MAX - PAGE_SIZE {
            return Err(Error::TransportError);
        }
        let padded = page_align(length);
        if padded > usize::MAX - target.next_addr {
            return Err(Error::TransportError);
        }
        let addr = target.next_addr;
        let bytes = crate::bytes::zero_bytes(length);
        let ghost old_regions = target.regions@;
        target.regions.push(HostRegion { addr, bytes });
        target.next_addr = addr + padded;
        proof {
            let j = old_regions.len() as int;
            assert(target.regions@[j].addr == addr);
            assert(target.region_index(addr as int) == j);
            assert forall|a: int| a != addr && old(target).has_region(a) implies target.has_region(
                a,
            ) && target.region_bytes(a) == old(target).region_bytes(a) by {
                let i = old(target).region_index(a);
                assert(target.regions@[i].addr == a);
            }
            assert forall|a: int| a != addr && target.has_region(a) implies old(target).has_region(a) by {
                let i = target.region_index(a);
                assert(old(target).regions@[i].addr == a);
            }
        }
        Ok(addr)
    }

    /// Remotely unmap the mapping based at `addr`.  Unmapping an address
    /// with no mapping of ours is accepted and changes nothing, as the
    /// kernel accepts it.
    pub fn munmap(&self, target: &mut TargetProcess, addr: usize) -> (r: Result<(), Error>)
        requires
            old(target).wf(),
        ensures
            final(target).wf(),
            !self.attached ==> r == Err::<(), Error>(Error::NotAttached) && *final(target) == *old(target),
            self.attached && !old(target).alive ==> r == Err::<(), Error>(Error::TargetGone)
                && *final(target) == *old(target),
            self.attached && old(target).alive ==> r is Ok && ({
                &&& !final(target).has_region(addr as int)
                &&& forall|a: int|
                    a != addr ==> (final(target).has_region(a) <==> old(target).has_region(a))
                &&& forall|a: int|
                    a != addr && old(target).has_region(a) ==> final(target).region_bytes(a) == old(target).region_bytes(a)
                &&& final(target).same_process_state(*old(target))
                &&& final(target).same_signal_state(*old(target))
                &&& final(target).memslots@ == old(target).memslots@
                &&& final(target).next_addr == old(target).next_addr
            }),
    {
        if !self.attached {
            return Err(Error::NotAttached);
        }
        if !target.alive {
            return Err(Error::TargetGone);
        }
        match target.find_region(addr) {
            None => Ok(()),
            Some(i) => {
                let ghost old_regions = target.regions@;
                target.regions.remove(i);
                proof {
                    assert forall|a: int| a != addr && old(target).has_region(a) implies
                        target.has_region(a) && target.region_bytes(a) == old(target).region_bytes(a) by {
                        let k = old(target).region_index(a);
                        let k2: int = if k < i { k } else { k - 1 };
                        assert(target.regions@[k2].addr == a);
                    }
                    assert forall|a: int| a != addr && target.has_region(a) implies old(target).has_region(a) by {
                        let k = target.region_index(a);
                        let k2: int = if k < i { k } else { k + 1 };
                        assert(old(target).regions@[k2].addr == a);
                    }
                    assert forall|k: int|
                        0 <= k < target.regions@.len() implies #[trigger] target.regions@[k].addr
                        != addr by {
                        let k2: int = if k < i { k } else { k + 1 };
                        assert(old_regions[k2].addr == target.regions@[k].addr);
                    }
                }
                Ok(())
            },
        }
    }
}

/// The memory-region descriptor held by the 32 little-endian bytes at the
/// start of `b`.
pub open spec fn spec_decode_region(b: Seq<u8>) -> KvmMemSlot {
    KvmMemSlot {
        slot: crate::bytes::le32(b, 0),
        flags: crate::bytes::le32(b, 4),
        guest_phys_addr: crate::bytes::le64(b, 8),
        memory_size: crate::bytes::le64(b, 16),
        userspace_addr: crate::bytes::le64(b, 24),
    }
}

/// Lay a `kvm_userspace_memory_region` descriptor out as its 32 bytes.
pub fn encode_memory_region(r: &KvmMemSlot) -> (b: Vec<u8>)
    ensures
        b@.len() == MEMORY_REGION_SIZE,
        spec_decode_region(b@) == *r,
{
    let mut b = crate::bytes::zero_bytes(MEMORY_REGION_SIZE);
    write_u32_le(&mut b, 0, r.slot);
    write_u32_le(&mut b, 4, r.flags);
    write_u64_le(&mut b, 8, r.guest_phys_addr);
    write_u64_le(&mut b, 16, r.memory_size);
    write_u64_le(&mut b, 24, r.userspace_addr);
    b
}

/// Read a `kvm_userspace_memory_region` descriptor back from its bytes.
pub fn decode_memory_region(b: &Vec<u8>) -> (r: KvmMemSlot)
    requires
        b@.len() >= MEMORY_REGION_SIZE,
    ensures
        r == spec_decode_region(b@),
{
    KvmMemSlot {
        slot: read_u32_le(b, 0),
        flags: read_u32_le(b, 4),
        guest_phys_addr: read_u64_le(b, 8),
        memory_size: read_u64_le(b, 16),
        userspace_addr: read_u64_le(b, 24),
    }
}

/// The irqfd registration held by the first bytes of a `kvm_irqfd`
/// descriptor.
pub open spec fn spec_decode_irqfd(b: Seq<u8>) -> crate::target::KvmIrqFd {
    crate::target::KvmIrqFd { fd: crate::bytes::le32(b, 0), gsi: crate::bytes::le32(b, 4) }
}

/// The flags word of a `kvm_irqfd` descriptor.
pub open spec fn spec_irqfd_flags(b: Seq<u8>) -> u32 {
    crate::bytes::le32(b, 8)
}

/// Lay a `kvm_irqfd` descriptor out as its 32 bytes.
pub fn encode_irqfd(fd: u32, gsi: u32, flags: u32) -> (b: Vec<u8>)
    ensures
        b@.len() == IRQFD_SIZE,
        spec_decode_irqfd(b@) == (crate::target::KvmIrqFd { fd, gsi }),
        spec_irqfd_flags(b@) == flags,
{
    let mut b = crate::bytes::zero_bytes(IRQFD_SIZE);
    write_u32_le(&mut b, 0, fd);
    write_u32_le(&mut b, 4, gsi);
    write_u32_le(&mut b, 8, flags);
    b
}

/// The doorbell registration held by a `kvm_ioeventfd` descriptor.
pub open spec fn spec_decode_ioeventfd(b: Seq<u8>) -> crate::target::KvmIoEventFd {
    crate::target::KvmIoEventFd {
        datamatch: crate::bytes::le64(b, 0),
        addr: crate::bytes::le64(b, 8),
        len: crate::bytes::le32(b, 16),
        fd: crate::bytes::le32(b, 20),
        flags: crate::bytes::le32(b, 24),
    }
}

/// Lay a `kvm_ioeventfd` descriptor out as its 64 bytes.
pub fn encode_ioeventfd(reg: &crate::target::KvmIoEventFd) -> (b: Vec<u8>)
    ensures
        b@.len() == IOEVENTFD_SIZE,
        spec_decode_ioeventfd(b@) == *reg,
{
    let mut b = crate::bytes::zero_bytes(IOEVENTFD_SIZE);
    write_u64_le(&mut b, 0, reg.datamatch);
    write_u64_le(&mut b, 8, reg.addr);
    write_u32_le(&mut b, 16, reg.len);
    write_u32_le(&mut b, 20, reg.fd);
    write_u32_le(&mut b, 24, reg.flags);
    b
}

/// Cross-process read of `len` bytes from the mapping based at `addr`.
///
/// The model addresses mappings by their base; a short mapping is a short
/// copy, which is an error, not a retry.
pub fn process_read(target: &TargetProcess, addr: usize, len: usize) -> (r: Result<Vec<u8>, Error>)
    requires
        target.wf(),
    ensures
        !target.alive ==> r == Err::<Vec<u8>, Error>(Error::TargetGone),
        target.alive && !(target.has_region(addr as int) && len <= target.region_bytes(
            addr as int,
        ).len()) ==> r == Err::<Vec<u8>, Error>(Error::TransportError),
        r is Ok <==> (target.alive && target.has_region(addr as int) && len
            <= target.region_bytes(addr as int).len()),
        r matches Ok(v) ==> v@ == target.region_bytes(addr as int).take(len as int),
{
    if !target.alive {
        return Err(Error::TargetGone);
    }
    match target.find_region(addr) {
        None => Err(Error::TransportError),
        Some(i) => {
            let reg_len = target.regions[i].bytes.len();
            if len > reg_len {
                return Err(Error::TransportError);
            }
            let mut v: Vec<u8> = Vec::new();
            let mut k: usize = 0;
            while k < len
                invariant
                    k <= len,
                    len <= target.regions@[i as int].bytes@.len(),
                    i < target.regions@.len(),
                    target.wf(),
                    target.regions@[i as int].addr == addr,
                    v@.len() == k,
                    forall|j: int| 0 <= j < k ==> v@[j] == target.regions@[i as int].bytes@[j],
                decreases len - k,
            {
                v.push(target.regions[i].bytes[k]);
                k = k + 1;
            }
            proof {
                assert(target.region_index(addr as int) == i);
                assert(v@ =~= target.region_bytes(addr as int).take(len as int));
            }
            Ok(v)
        },
    }
}

/// Cross-process write of `val` over the front of the mapping based at
/// `addr`.  Bytes past `val` keep their old value.
pub fn process_write(target: &mut TargetProcess, addr: usize, val: &Vec<u8>) -> (r: Result<
    (),
    Error,
>)
    requires
        old(target).wf(),
    ensures
        final(target).wf(),
        r is Err ==> *final(target) == *old(target),
        !old(target).alive ==> r == Err::<(), Error>(Error::TargetGone),
        old(target).alive && !(old(target).has_region(addr as int) && val@.len() <= old(target).region_bytes(addr as int).len()) ==> r == Err::<(), Error>(Error::TransportError),
        r is Ok <==> (old(target).alive && old(target).has_region(addr as int) && val@.len() <= old(target).region_bytes(addr as int).len()),
        r is Ok ==> ({
            &&& final(target).has_region(addr as int)
            &&& final(target).region_bytes(addr as int) == val@ + old(target).region_bytes(
                addr as int,
            ).skip(val@.len() as int)
            &&& forall|a: int|
                a != addr ==> (final(target).has_region(a) <==> old(target).has_region(a))
            &&& forall|a: int|
                a != addr && old(target).has_region(a) ==> final(target).region_bytes(a) == old(target).region_bytes(a)
            &&& final(target).same_process_state(*old(target))
            &&& final(target).same_signal_state(*old(target))
            &&& final(target).memslots@ == old(target).memslots@
            &&& final(target).next_addr == old(target).next_addr
        }),
{
    if !target.alive {
        return Err(Error::TargetGone);
    }
    match target.find_region(addr) {
        None => Err(Error::TransportError),
        Some(i) => {
            let reg_len = target.regions[i].bytes.len();
            if val.len() > reg_len {
                return Err(Error::TransportError);
            }
            let mut nb: Vec<u8> = Vec::new();
            let mut k: usize = 0;
            while k < reg_len
                invariant
                    k <= reg_len,
                    reg_len == target.regions@[i as int].bytes@.len(),
                    val@.len() <= reg_len,
                    i < target.regions@.len(),
                    target.wf(),
                    target.regions@[i as int].addr == addr,
                    nb@.len() == k,
                    forall|j: int|
                        0 <= j < k ==> nb@[j] == if j < val@.len() {
                            val@[j]
                        } else {
                            target.regions@[i as int].bytes@[j]
                        },
                decreases reg_len - k,
            {
                if k < val.len() {
                    nb.push(val[k]);
                } else {
                    nb.push(target.regions[i].bytes[k]);
                }
                k = k + 1;
            }
            let ghost old_regions = target.regions@;
            target.regions[i] = HostRegion { addr, bytes: nb };
            proof {
                assert(old(target).region_index(addr as int) == i);
                assert(target.regions@[i as int].addr == addr);
                assert(target.region_index(addr as int) == i);
                assert(target.region_bytes(addr as int) =~= val@ + old(target).region_bytes(
                    addr as int,
                ).skip(val@.len() as int));
                assert forall|a: int| a != addr && old(target).has_region(a) implies
                    target.has_region(a) && target.region_bytes(a) == old(target).region_bytes(
                    a,
                ) by {
                    let k2 = old(target).region_index(a);
                    assert(target.regions@[k2].addr == a);
                    assert(target.region_index(a) == k2);
                }
                assert forall|a: int| a != addr && target.has_region(a) implies old(target).has_region(a) by {
                    let k2 = target.region_index(a);
                    assert(old(target).regions@[k2].addr == a);
                }
            }
            Ok(())
        },
    }
}

/// A doorbell registration matches a deassign request: same address, same
/// length, same matched value.
pub open spec fn spec_ioeventfd_matches(
    e: crate::target::KvmIoEventFd,
    tgt: crate::target::KvmIoEventFd,
) -> bool {
    e.addr == tgt.addr && e.len == tgt.len && e.datamatch == tgt.datamatch
}

/// Drop every irqfd registration equal to `tgt`; all others stay.
fn remove_irqfd_entries(v: &mut Vec<crate::target::KvmIrqFd>, tgt: crate::target::KvmIrqFd)
    ensures
        forall|k: int|
            0 <= k < final(v)@.len() ==> #[trigger] final(v)@[k] != tgt && old(v)@.contains(
                final(v)@[k],
            ),
        forall|j: int|
            0 <= j < old(v)@.len() && #[trigger] old(v)@[j] != tgt ==> final(v)@.contains(
                old(v)@[j],
            ),
{
    let n = v.len();
    let mut out: Vec<crate::target::KvmIrqFd> = Vec::new();
    let mut i: usize = 0;
    while i < n
        invariant
            i <= n,
            n == v@.len(),
            *v == *old(v),
            forall|k: int|
                0 <= k < out@.len() ==> #[trigger] out@[k] != tgt && old(v)@.contains(out@[k]),
            forall|j: int|
                0 <= j < i && #[trigger] old(v)@[j] != tgt ==> out@.contains(old(v)@[j]),
        decreases n - i,
    {
        if v[i] != tgt {
            let ghost pre = out@;
            out.push(v[i]);
            proof {
                assert(out@.last() == old(v)@[i as int]);
                assert(out@.contains(old(v)@[i as int]));
                assert forall|j: int|
                    0 <= j < i + 1 && #[trigger] old(v)@[j] != tgt implies out@.contains(
                    old(v)@[j],
                ) by {
                    if j < i {
                        let w = choose|w: int| 0 <= w < pre.len() && pre[w] == old(v)@[j];
                        assert(out@[w] == old(v)@[j]);
                    }
                }
            }
        }
        i = i + 1;
    }
    *v = out;
}

/// Drop every doorbell registration matching `tgt`; all others stay.
fn remove_ioeventfd_entries(
    v: &mut Vec<crate::target::KvmIoEventFd>,
    tgt: crate::target::KvmIoEventFd,
)
    ensures
        forall|k: int|
            0 <= k < final(v)@.len() ==> !spec_ioeventfd_matches(#[trigger] final(v)@[k], tgt)
                && old(v)@.contains(final(v)@[k]),
        forall|j: int|
            0 <= j < old(v)@.len() && !spec_ioeventfd_matches(#[trigger] old(v)@[j], tgt)
                ==> final(v)@.contains(old(v)@[j]),
{
    let n = v.len();
    let mut out: Vec<crate::target::KvmIoEventFd> = Vec::new();
    let mut i: usize = 0;
    while i < n
        invariant
            i <= n,
            n == v@.len(),
            *v == *old(v),
            forall|k: int|
                0 <= k < out@.len() ==> !spec_ioeventfd_matches(#[trigger] out@[k], tgt)
                    && old(v)@.contains(out@[k]),
            forall|j: int|
                0 <= j < i && !spec_ioeventfd_matches(#[trigger] old(v)@[j], tgt)
                    ==> out@.contains(old(v)@[j]),
        decreases n - i,
    {
        let e = v[i];
        if !(e.addr == tgt.addr && e.len == tgt.len && e.datamatch == tgt.datamatch) {
            let ghost pre = out@;
            out.push(e);
            proof {
                assert(out@.last() == old(v)@[i as int]);
                assert(out@.contains(old(v)@[i as int]));
                assert forall|j: int|
                    0 <= j < i + 1 && !spec_ioeventfd_matches(#[trigger] old(v)@[j], tgt) implies
                    out@.contains(old(v)@[j]) by {
                    if j < i {
                        let w = choose|w: int| 0 <= w < pre.len() && pre[w] == old(v)@[j];
                        assert(out@[w] == old(v)@[j]);
                    }
                }
            }
        }
        i = i + 1;
    }
    *v = out;
}

impl Tracee {
    /// Issue a KVM ioctl on the target's VM descriptor, with the argument
    /// already placed in the target memory that `arg` addresses.
    ///
    /// Three requests are modeled.  `KVM_SET_USER_MEMORY_REGION`: a region
    /// descriptor with `memory_size == 0` removes its slot from the table,
    /// any other registers or replaces its slot.  `KVM_IRQFD`: wires an
    /// event descriptor to an interrupt line, or unwires it with the
    /// deassign flag.  `KVM_IOEVENTFD`: registers a doorbell for a
    /// guest-physical write, or removes the matching doorbells with the
    /// deassign flag.  Every other request is refused.
    pub fn vm_ioctl_with_ref(
        &self,
        target: &mut TargetProcess,
        request: u64,
        arg: &crate::hv_mem::HvMem,
    ) -> (r: Result<i32, Error>)
        requires
            old(target).wf(),
        ensures
            final(target).wf(),
            r is Err ==> *final(target) == *old(target),
            !self.attached ==> r == Err::<i32, Error>(Error::NotAttached),
            self.attached && !old(target).alive ==> r == Err::<i32, Error>(Error::TargetGone),
            self.attached && old(target).alive && !spec_ioctl_supported(request) ==> r == Err::<
                i32,
                Error,
            >(Error::KvmProtocol),
            self.attached && old(target).alive && spec_ioctl_supported(request) && !(old(target).has_region(arg.ptr as int) && old(target).region_bytes(arg.ptr as int).len()
                >= spec_ioctl_arg_size(request)) ==> r == Err::<i32, Error>(Error::TransportError),
            r is Ok <==> (self.attached && old(target).alive && spec_ioctl_supported(request)
                && old(target).has_region(arg.ptr as int) && old(target).region_bytes(
                arg.ptr as int,
            ).len() >= spec_ioctl_arg_size(request)),
            r is Ok ==> r == Ok::<i32, Error>(0) && final(target).regions@ == old(target).regions@
                && final(target).same_process_state(*old(target)) && final(target).next_addr == old(target).next_addr,
            r is Ok && request == KVM_SET_USER_MEMORY_REGION ==> ({
                let d = spec_decode_region(old(target).region_bytes(arg.ptr as int));
                &&& (d.memory_size == 0 ==> !final(target).has_slot(d.slot))
                &&& (d.memory_size != 0 ==> final(target).has_slot(d.slot) && final(target).slot_entry(d.slot) == d)
                &&& forall|s: u32|
                    s != d.slot ==> (final(target).has_slot(s) <==> old(target).has_slot(s))
                &&& forall|s: u32|
                    s != d.slot && old(target).has_slot(s) ==> final(target).slot_entry(s) == old(target).slot_entry(s)
                &&& final(target).irqfds@ == old(target).irqfds@
                &&& final(target).ioeventfds@ == old(target).ioeventfds@
            }),
            r is Ok && request == KVM_IRQFD ==> ({
                let q = spec_decode_irqfd(old(target).region_bytes(arg.ptr as int));
                let fl = spec_irqfd_flags(old(target).region_bytes(arg.ptr as int));
                &&& final(target).memslots@ == old(target).memslots@
                &&& final(target).ioeventfds@ == old(target).ioeventfds@
                &&& (fl & KVM_IRQFD_FLAG_DEASSIGN == 0 ==> final(target).irqfds@ == old(target).irqfds@.push(q) && final(target).has_irqfd(q.gsi))
                &&& (fl & KVM_IRQFD_FLAG_DEASSIGN != 0 ==> (forall|k: int|
                    0 <= k < final(target).irqfds@.len() ==> #[trigger] final(target).irqfds@[k]
                        != q && old(target).irqfds@.contains(final(target).irqfds@[k])) && (forall|
                    j: int,
                |
                    0 <= j < old(target).irqfds@.len() && #[trigger] old(target).irqfds@[j] != q
                        ==> final(target).irqfds@.contains(old(target).irqfds@[j])))
            }),
            r is Ok && request == KVM_IOEVENTFD ==> ({
                let q = spec_decode_ioeventfd(old(target).region_bytes(arg.ptr as int));
                &&& final(target).memslots@ == old(target).memslots@
                &&& final(target).irqfds@ == old(target).irqfds@
                &&& (q.flags & KVM_IOEVENTFD_FLAG_DEASSIGN == 0 ==> final(target).ioeventfds@
                    == old(target).ioeventfds@.push(q) && final(target).has_ioeventfd(
                    q.addr,
                    q.datamatch,
                ))
                &&& (q.flags & KVM_IOEVENTFD_FLAG_DEASSIGN != 0 ==> (forall|k: int|
                    0 <= k < final(target).ioeventfds@.len() ==> !spec_ioeventfd_matches(
                        #[trigger] final(target).ioeventfds@[k],
                        q,
                    ) && old(target).ioeventfds@.contains(final(target).ioeventfds@[k])) && (
                forall|j: int|
                    0 <= j < old(target).ioeventfds@.len() && !spec_ioeventfd_matches(
                        #[trigger] old(target).ioeventfds@[j],
                        q,
                    ) ==> final(target).ioeventfds@.contains(old(target).ioeventfds@[j])))
            }),
    {
        if !self.attached {
            return Err(Error::NotAttached);
        }
        if !target.alive {
            return Err(Error::TargetGone);
        }
        let size_needed: usize;
        if request == KVM_SET_USER_MEMORY_REGION {
            size_needed = MEMORY_REGION_SIZE;
        } else if request == KVM_IRQFD {
            size_needed = IRQFD_SIZE;
        } else if request == KVM_IOEVENTFD {
            size_needed = IOEVENTFD_SIZE;
        } else {
            return Err(Error::KvmProtocol);
        }
        let i = match target.find_region(arg.ptr) {
            None => {
                return Err(Error::TransportError);
            },
            Some(i) => i,
        };
        if target.regions[i].bytes.len() < size_needed {
            return Err(Error::TransportError);
        }
        proof {
            assert(old(target).region_index(arg.ptr as int) == i);
        }
        if request == KVM_SET_USER_MEMORY_REGION {
            let d = decode_memory_region(&target.regions[i].bytes);
            if d.memory_size == 0 {
                match target.find_slot(d.slot) {
                    None => Ok(0),
                    Some(j) => {
                        let ghost old_slots = target.memslots@;
                        target.memslots.remove(j);
                        proof {
                            lemma_slot_table_after_remove(old_slots, target.memslots@, j as int);
                        }
                        Ok(0)
                    },
                }
            } else {
                match target.find_slot(d.slot) {
                    None => {
                        target.memslots.push(d);
                        proof {
                            let n = old(target).memslots@.len() as int;
                            assert(target.memslots@[n] == d);
                            assert(target.slot_index(d.slot) == n);
                            lemma_slot_table_after_append(
                                old(target).memslots@,
                                target.memslots@,
                                d,
                            );
                        }
                        Ok(0)
                    },
                    Some(j) => {
                        let ghost old_slots = target.memslots@;
                        target.memslots[j] = d;
                        proof {
                            assert(target.memslots@[j as int] == d);
                            assert(target.slot_index(d.slot) == j);
                            lemma_slot_table_after_update(old_slots, target.memslots@, j as int, d);
                        }
                        Ok(0)
                    },
                }
            }
        } else if request == KVM_IRQFD {
            let fd = read_u32_le(&target.regions[i].bytes, 0);
            let gsi = read_u32_le(&target.regions[i].bytes, 4);
            let flags = read_u32_le(&target.regions[i].bytes, 8);
            let entry = crate::target::KvmIrqFd { fd, gsi };
            proof {
                assert(entry == spec_decode_irqfd(old(target).region_bytes(arg.ptr as int)));
                assert(flags == spec_irqfd_flags(old(target).region_bytes(arg.ptr as int)));
            }
            if flags & KVM_IRQFD_FLAG_DEASSIGN != 0 {
                remove_irqfd_entries(&mut target.irqfds, entry);
            } else {
                target.irqfds.push(entry);
                proof {
                    assert(target.irqfds@.last() == entry);
                    assert(target.has_irqfd(entry.gsi));
                }
            }
            Ok(0)
        } else {
            let reg = crate::target::KvmIoEventFd {
                datamatch: read_u64_le(&target.regions[i].bytes, 0),
                addr: read_u64_le(&target.regions[i].bytes, 8),
                len: read_u32_le(&target.regions[i].bytes, 16),
                fd: read_u32_le(&target.regions[i].bytes, 20),
                flags: read_u32_le(&target.regions[i].bytes, 24),
            };
            proof {
                assert(reg == spec_decode_ioeventfd(old(target).region_bytes(arg.ptr as int)));
            }
            if reg.flags & KVM_IOEVENTFD_FLAG_DEASSIGN != 0 {
                remove_ioeventfd_entries(&mut target.ioeventfds, reg);
            } else {
                target.ioeventfds.push(reg);
                proof {
                    assert(target.ioeventfds@.last() == reg);
                    assert(target.has_ioeventfd(reg.addr, reg.datamatch));
                }
            }
            Ok(0)
        }
    }

    /// Fetch a VCPU's general-purpose registers, converted to the debugger
    /// layout.
    pub fn get_regs(&self, target: &TargetProcess, vcpu: &crate::hypervisor::VCPU) -> (r: Result<
        crate::regs::Regs,
        Error,
    >)
        ensures
            !self.attached ==> r == Err::<crate::regs::Regs, Error>(Error::NotAttached),
            self.attached && !target.alive ==> r == Err::<crate::regs::Regs, Error>(
                Error::TargetGone,
            ),
            self.attached && target.alive && vcpu.idx >= target.vcpu_states@.len() ==> r == Err::<
                crate::regs::Regs,
                Error,
            >(Error::KvmProtocol),
            r is Ok <==> (self.attached && target.alive && vcpu.idx < target.vcpu_states@.len()),
            r matches Ok(v) ==> v == crate::regs::spec_regs_of(
                target.vcpu_states@[vcpu.idx as int].regs,
            ),
    {
        if !self.attached {
            return Err(Error::NotAttached);
        }
        if !target.alive {
            return Err(Error::TargetGone);
        }
        if vcpu.idx >= target.vcpu_states.len() {
            return Err(Error::KvmProtocol);
        }
        Ok(crate::regs::regs_from_kvm(&target.vcpu_states[vcpu.idx].regs))
    }

    /// Fetch a VCPU's special registers, as the raw bytes KVM fills.
    pub fn get_sregs(&self, target: &TargetProcess, vcpu: &crate::hypervisor::VCPU) -> (r: Result<
        Vec<u8>,
        Error,
    >)
        ensures
            !self.attached ==> r == Err::<Vec<u8>, Error>(Error::NotAttached),
            self.attached && !target.alive ==> r == Err::<Vec<u8>, Error>(Error::TargetGone),
            r is Ok <==> (self.attached && target.alive && vcpu.idx < target.vcpu_states@.len()),
            r matches Ok(v) ==> v@ == target.vcpu_states@[vcpu.idx as int].sregs@,
    {
        if !self.attached {
            return Err(Error::NotAttached);
        }
        if !target.alive {
            return Err(Error::TargetGone);
        }
        if vcpu.idx >= target.vcpu_states.len() {
            return Err(Error::KvmProtocol);
        }
        Ok(crate::parse::copy_bytes(&target.vcpu_states[vcpu.idx].sregs))
    }

    /// Fetch a VCPU's floating-point registers, converted to the debugger
    /// layout.
    pub fn get_fpu_regs(&self, target: &TargetProcess, vcpu: &crate::hypervisor::VCPU) -> (r:
        Result<crate::regs::FpuRegs, Error>)
        ensures
            !self.attached ==> r == Err::<crate::regs::FpuRegs, Error>(Error::NotAttached),
            self.attached && !target.alive ==> r == Err::<crate::regs::FpuRegs, Error>(
                Error::TargetGone,
            ),
            r is Ok <==> (self.attached && target.alive && vcpu.idx < target.vcpu_states@.len()
                && target.vcpu_states@[vcpu.idx as int].fpu.fpr@.len() == 128
                && target.vcpu_states@[vcpu.idx as int].fpu.xmm@.len() == 256),
            r matches Ok(v) ==> ({
                let f = target.vcpu_states@[vcpu.idx as int].fpu;
                &&& v.cwd == f.fcw && v.swd == f.fsw && v.twd == f.ftwx && v.fop == f.last_opcode
                &&& v.mxcsr == f.mxcsr && v.mxcsr_mask == 0
                &&& v.st_space@.len() == 32
                &&& forall|i: int|
                    0 <= i < 32 ==> v.st_space@[i] == crate::bytes::le32(f.fpr@, 4 * i)
                &&& v.xmm_space@.len() == 64
                &&& forall|i: int|
                    0 <= i < 64 ==> v.xmm_space@[i] == crate::bytes::le32(f.xmm@, 4 * i)
            }),
    {
        if !self.attached {
            return Err(Error::NotAttached);
        }
        if !target.alive {
            return Err(Error::TargetGone);
        }
        if vcpu.idx >= target.vcpu_states.len() {
            return Err(Error::KvmProtocol);
        }
        let f = &target.vcpu_states[vcpu.idx].fpu;
        if f.fpr.len() != 128 || f.xmm.len() != 256 {
            return Err(Error::KvmProtocol);
        }
        Ok(crate::regs::fpu_regs_from_kvm(f))
    }

    /// List the VM's registered memory slots as mappings: the slot's host
    /// range, its guest-physical base, and no further metadata.
    ///
    /// Fails with `KvmProtocol` when a slot escapes the host address space.
    pub fn get_maps(&self, target: &TargetProcess) -> (r: Result<
        Vec<crate::maps::Mapping>,
        Error,
    >)
        ensures
            !self.attached ==> r == Err::<Vec<crate::maps::Mapping>, Error>(Error::NotAttached),
            self.attached && !target.alive ==> r == Err::<Vec<crate::maps::Mapping>, Error>(
                Error::TargetGone,
            ),
            self.attached && target.alive && (forall|k: int|
                0 <= k < target.memslots@.len() ==> (#[trigger] target.memslots@[k]).userspace_addr
                    + target.memslots@[k].memory_size <= usize::MAX
                    && target.memslots@[k].guest_phys_addr <= usize::MAX) ==> r is Ok,
            r matches Ok(v) ==> ({
                &&& v@.len() == target.memslots@.len()
                &&& forall|k: int|
                    #![trigger v@[k]]
                    0 <= k < v@.len() ==> v@[k].start == target.memslots@[k].userspace_addr && v@[
                        k
                    ].end == target.memslots@[k].userspace_addr + target.memslots@[k].memory_size
                        && v@[k].phys_addr == target.memslots@[k].guest_phys_addr
                        && v@[k].pathname@.len() == 0
            }),
    {
        if !self.attached {
            return Err(Error::NotAttached);
        }
        if !target.alive {
            return Err(Error::TargetGone);
        }
        let n = target.memslots.len();
        let mut v: Vec<crate::maps::Mapping> = Vec::new();
        let mut k: usize = 0;
        while k < n
            invariant
                self.attached,
                target.alive,
                k <= n,
                n == target.memslots@.len(),
                v@.len() == k,
                forall|j: int|
                    #![trigger v@[j]]
                    0 <= j < k ==> v@[j].start == target.memslots@[j].userspace_addr && v@[j].end
                        == target.memslots@[j].userspace_addr + target.memslots@[j].memory_size
                        && v@[j].phys_addr == target.memslots@[j].guest_phys_addr
                        && v@[j].pathname@.len() == 0,
            decreases n - k,
        {
            let s = target.memslots[k];
            if s.userspace_addr > (usize::MAX as u64) || s.memory_size > (usize::MAX as u64)
                - s.userspace_addr || s.guest_phys_addr > (usize::MAX as u64) {
                return Err(Error::KvmProtocol);
            }
            v.push(
                crate::maps::Mapping {
                    start: s.userspace_addr as usize,
                    end: (s.userspace_addr + s.memory_size) as usize,
                    phys_addr: s.guest_phys_addr as usize,
                    prot_flags: 0,
                    map_flags: 0,
                    pathname: Vec::new(),
                },
            );
            k = k + 1;
        }
        Ok(v)
    }

    /// Ask the target's KVM for a capability; the answer is 1 when the
    /// kernel has it and 0 when it does not.
    pub fn check_extension(&self, target: &TargetProcess, cap: u32) -> (r: Result<i32, Error>)
        ensures
            !self.attached ==> r == Err::<i32, Error>(Error::NotAttached),
            self.attached && !target.alive ==> r == Err::<i32, Error>(Error::TargetGone),
            self.attached && target.alive ==> r == Ok::<i32, Error>(
                if target.extensions@.contains(cap) {
                    1
                } else {
                    0
                },
            ),
    {
        if !self.attached {
            return Err(Error::NotAttached);
        }
        if !target.alive {
            return Err(Error::TargetGone);
        }
        let mut k: usize = 0;
        while k < target.extensions.len()
            invariant
                self.attached,
                target.alive,
                k <= target.extensions@.len(),
                forall|j: int| 0 <= j < k ==> target.extensions@[j] != cap,
            decreases target.extensions@.len() - k,
        {
            if target.extensions[k] == cap {
                proof {
                    assert(target.extensions@.contains(cap));
                }
                return Ok(1);
            }
            k = k + 1;
        }
        proof {
            assert(!target.extensions@.contains(cap));
        }
        Ok(0)
    }
}

/// Removing an entry keeps every other slot of a table with unique ids.
proof fn lemma_slot_table_after_remove(before: Seq<KvmMemSlot>, after: Seq<KvmMemSlot>, j: int)
    requires
        0 <= j < before.len(),
        after == before.remove(j),
        forall|a: int, b: int| 0 <= a < b < before.len() ==> before[a].slot != before[b].slot,
    ensures
        forall|a: int, b: int| 0 <= a < b < after.len() ==> after[a].slot != after[b].slot,
        !slot_present(after, before[j].slot),
        forall|s: u32| s != before[j].slot ==> (slot_present(after, s) <==> slot_present(before, s)),
        forall|s: u32|
            s != before[j].slot && slot_present(before, s) ==> slot_at(after, s) == slot_at(
                before,
                s,
            ),
{
    assert forall|a: int, b: int| 0 <= a < b < after.len() implies after[a].slot
        != after[b].slot by {
        let a2 = if a < j { a } else { a + 1 };
        let b2 = if b < j { b } else { b + 1 };
        assert(after[a] == before[a2] && after[b] == before[b2]);
    }
    assert forall|k: int| 0 <= k < after.len() implies #[trigger] after[k].slot
        != before[j].slot by {
        let k2 = if k < j { k } else { k + 1 };
        assert(after[k] == before[k2]);
    }
    assert forall|s: u32| s != before[j].slot && slot_present(before, s) implies slot_present(
        after,
        s,
    ) && slot_at(after, s) == slot_at(before, s) by {
        let k = choose|k: int| 0 <= k < before.len() && before[k].slot == s;
        let k2 = if k < j { k } else { k - 1 };
        assert(after[k2] == before[k]);
        let k3 = choose|k3: int| 0 <= k3 < after.len() && after[k3].slot == s;
        let k4 = if k3 < j { k3 } else { k3 + 1 };
        assert(after[k3] == before[k4]);
    }
    assert forall|s: u32| s != before[j].slot && slot_present(after, s) implies slot_present(
        before,
        s,
    ) by {
        let k = choose|k: int| 0 <= k < after.len() && after[k].slot == s;
        let k2 = if k < j { k } else { k + 1 };
        assert(before[k2] == after[k]);
    }
}

/// Appending a fresh slot id keeps every existing slot of the table.
proof fn lemma_slot_table_after_append(before: Seq<KvmMemSlot>, after: Seq<KvmMemSlot>, d: KvmMemSlot)
    requires
        after == before.push(d),
        forall|a: int, b: int| 0 <= a < b < before.len() ==> before[a].slot != before[b].slot,
        !slot_present(before, d.slot),
    ensures
        forall|a: int, b: int| 0 <= a < b < after.len() ==> after[a].slot != after[b].slot,
        slot_present(after, d.slot),
        slot_at(after, d.slot) == d,
        forall|s: u32| s != d.slot ==> (slot_present(after, s) <==> slot_present(before, s)),
        forall|s: u32|
            s != d.slot && slot_present(before, s) ==> slot_at(after, s) == slot_at(before, s),
{
    let n = before.len() as int;
    assert(after[n] == d);
    assert forall|a: int, b: int| 0 <= a < b < after.len() implies after[a].slot
        != after[b].slot by {
        if b < n {
            assert(after[a] == before[a] && after[b] == before[b]);
        } else {
            assert(after[a] == before[a] && after[b] == d);
            assert(!slot_present(before, d.slot));
        }
    }
    assert forall|s: u32| s != d.slot && slot_present(before, s) implies slot_present(after, s)
        && slot_at(after, s) == slot_at(before, s) by {
        let k = choose|k: int| 0 <= k < before.len() && before[k].slot == s;
        assert(after[k] == before[k]);
        let k3 = choose|k3: int| 0 <= k3 < after.len() && after[k3].slot == s;
        assert(k3 < n || after[k3] == d);
        assert(after[k3] == before[k3]);
    }
    assert forall|s: u32| s != d.slot && slot_present(after, s) implies slot_present(
        before,
        s,
    ) by {
        let k = choose|k: int| 0 <= k < after.len() && after[k].slot == s;
        assert(k < n || after[k] == d);
        assert(before[k] == after[k]);
    }
}

/// Replacing the entry that holds a slot id keeps every other slot.
proof fn lemma_slot_table_after_update(
    before: Seq<KvmMemSlot>,
    after: Seq<KvmMemSlot>,
    j: int,
    d: KvmMemSlot,
)
    requires
        0 <= j < before.len(),
        before[j].slot == d.slot,
        after == before.update(j, d),
        forall|a: int, b: int| 0 <= a < b < before.len() ==> before[a].slot != before[b].slot,
    ensures
        forall|a: int, b: int| 0 <= a < b < after.len() ==> after[a].slot != after[b].slot,
        slot_present(after, d.slot),
        slot_at(after, d.slot) == d,
        forall|s: u32| s != d.slot ==> (slot_present(after, s) <==> slot_present(before, s)),
        forall|s: u32|
            s != d.slot && slot_present(before, s) ==> slot_at(after, s) == slot_at(before, s),
{
    assert(after[j] == d);
    assert forall|a: int, b: int| 0 <= a < b < after.len() implies after[a].slot
        != after[b].slot by {
        assert(after[a] == if a == j { d } else { before[a] });
        assert(after[b] == if b == j { d } else { before[b] });
    }
    assert(slot_at(after, d.slot) == d);
    assert forall|s: u32| s != d.slot && slot_present(before, s) implies slot_present(after, s)
        && slot_at(after, s) == slot_at(before, s) by {
        let k = choose|k: int| 0 <= k < before.len() && before[k].slot == s;
        assert(after[k] == before[k]);
        let k3 = choose|k3: int| 0 <= k3 < after.len() && after[k3].slot == s;
        assert(after[k3] == if k3 == j { d } else { before[k3] });
    }
    assert forall|s: u32| s != d.slot && slot_present(after, s) implies slot_present(
        before,
        s,
    ) by {
        let k = choose|k: int| 0 <= k < after.len() && after[k].slot == s;
        assert(after[k] == if k == j { d } else { before[k] });
    }
}

/// `page_align` as a function of the length alone, for use in contracts.
pub open spec fn page_align_spec(length: usize) -> int {
    crate::page::spec_page_align(length as int)
}

} // verus!
