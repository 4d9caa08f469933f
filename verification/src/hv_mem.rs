//! Scoped memory allocations inside the target process.
//!
//! `HvMem` is a typed view of a remote anonymous mapping: a target-virtual
//! address, the allocation length, and the byte size of the typed value kept
//! there.  `VmMem` pairs a page-padded `HvMem` with the KVM memory-region
//! descriptor that registered it as guest-physical memory.  Both are
//! released explicitly: release is the model of drop, and consuming the
//! value makes a second unmap impossible.

use vstd::prelude::*;

use crate::error::Error;
use crate::target::TargetProcess;
use crate::tracee::encode_memory_region;
use crate::tracee::process_read;
use crate::tracee::process_write;
use crate::tracee::spec_decode_region;
use crate::tracee::Tracee;
use crate::tracee::KVM_SET_USER_MEMORY_REGION;
use crate::tracee::MEMORY_REGION_SIZE;
use crate::target::KvmMemSlot;

verus! {

/// A typed region of remote memory, addressed by its mapping base.
pub struct HvMem {
    /// Target-virtual address of the mapping.
    pub ptr: usize,
    /// Length of the allocation.
    pub len: usize,
    /// Byte size of the typed value; never exceeds `len`.
    pub ty_size: usize,
}

impl HvMem {
    /// The allocation is live in `t`: its mapping exists, has the allocated
    /// length, and the typed view fits inside it.
    pub open spec fn wf_in(self, t: TargetProcess) -> bool {
        &&& t.has_region(self.ptr as int)
        &&& t.region_bytes(self.ptr as int).len() == self.len
        &&& self.ty_size <= self.len
    }

    /// Read the typed value's bytes out of the target.
    pub fn read(&self, target: &TargetProcess) -> (r: Result<Vec<u8>, Error>)
        requires
            target.wf(),
            self.wf_in(*target),
        ensures
            !target.alive ==> r == Err::<Vec<u8>, Error>(Error::TargetGone),
            target.alive ==> r is Ok,
            r matches Ok(v) ==> v@ == target.region_bytes(self.ptr as int).take(
                self.ty_size as int,
            ),
    {
        process_read(target, self.ptr, self.ty_size)
    }

    /// Write the typed value's bytes into the target.  Padding bytes past
    /// the typed view keep their old contents.
    pub fn write(&self, target: &mut TargetProcess, val: &Vec<u8>) -> (r: Result<(), Error>)
        requires
            old(target).wf(),
            self.wf_in(*old(target)),
            val@.len() == self.ty_size,
        ensures
            final(target).wf(),
            r is Err ==> *final(target) == *old(target),
            !old(target).alive ==> r == Err::<(), Error>(Error::TargetGone),
            old(target).alive ==> r is Ok,
            r is Ok ==> ({
                &&& self.wf_in(*final(target))
                &&& final(target).region_bytes(self.ptr as int) == val@ + old(
                    target,
                ).region_bytes(self.ptr as int).skip(val@.len() as int)
                &&& forall|a: int|
                    a != self.ptr ==> (final(target).has_region(a) <==> old(target).has_region(a))
                &&& forall|a: int|
                    a != self.ptr && old(target).has_region(a) ==> final(target).region_bytes(a)
                        == old(target).region_bytes(a)
                &&& final(target).same_process_state(*old(target))
                &&& final(target).same_signal_state(*old(target))
                &&& final(target).memslots@ == old(target).memslots@
                &&& final(target).next_addr == old(target).next_addr
            }),
    {
        process_write(target, self.ptr, val)
    }

    /// Unmap the allocation in the target.  Consuming `self` makes this the
    /// one and only unmap of the region.
    pub fn release(self, tracee: &Tracee, target: &mut TargetProcess) -> (r: Result<(), Error>)
        requires
            old(target).wf(),
        ensures
            final(target).wf(),
            r is Err ==> *final(target) == *old(target),
            !tracee.attached ==> r == Err::<(), Error>(Error::NotAttached),
            tracee.attached && !old(target).alive ==> r == Err::<(), Error>(Error::TargetGone),
            tracee.attached && old(target).alive ==> r is Ok,
            r is Ok ==> ({
                &&& !final(target).has_region(self.ptr as int)
                &&& forall|a: int|
                    a != self.ptr ==> (final(target).has_region(a) <==> old(target).has_region(a))
                &&& forall|a: int|
                    a != self.ptr && old(target).has_region(a) ==> final(target).region_bytes(a)
                        == old(target).region_bytes(a)
                &&& final(target).same_process_state(*old(target))
                &&& final(target).same_signal_state(*old(target))
                &&& final(target).memslots@ == old(target).memslots@
                &&& final(target).next_addr == old(target).next_addr
            }),
    {
        tracee.munmap(target, self.ptr)
    }
}

/// Guest-physical memory attached to the VM, backed by an `HvMem`.
pub struct VmMem {
    /// The backing allocation mapped into the target.
    pub mem: HvMem,
    /// Holds the `kvm_userspace_memory_region` descriptor in target memory,
    /// kept for the deleting rewrite at release.
    pub ioctl_arg: HvMem,
    /// The descriptor that registered `mem` with KVM.
    pub region: KvmMemSlot,
}

impl VmMem {
    /// The pair is live in `t`: both allocations exist, the stored
    /// descriptor bytes decode to `region`, and the slot is registered.
    pub open spec fn wf_in(self, t: TargetProcess) -> bool {
        &&& self.mem.wf_in(t)
        &&& self.ioctl_arg.wf_in(t)
        &&& self.ioctl_arg.ty_size == MEMORY_REGION_SIZE
        &&& self.ioctl_arg.len == MEMORY_REGION_SIZE
        &&& self.mem.ptr != self.ioctl_arg.ptr
        &&& spec_decode_region(t.region_bytes(self.ioctl_arg.ptr as int)) == self.region
        &&& self.region.memory_size != 0
    }

    /// Remove the memory slot from the VM and free both allocations.
    ///
    /// The descriptor is first rewritten with `memory_size = 0` and
    /// re-issued, which deletes the slot; only then is the backing memory
    /// unmapped.  The order is load-bearing: KVM must never see a slot whose
    /// backing is gone.
    pub fn release(self, tracee: &Tracee, target: &mut TargetProcess) -> (r: Result<(), Error>)
        requires
            old(target).wf(),
            self.wf_in(*old(target)),
        ensures
            final(target).wf(),
            !tracee.attached ==> r == Err::<(), Error>(Error::NotAttached) && *final(target)
                == *old(target),
            tracee.attached && !old(target).alive ==> r == Err::<(), Error>(Error::TargetGone)
                && *final(target) == *old(target),
            tracee.attached && old(target).alive ==> r is Ok,
            r is Ok ==> ({
                &&& !final(target).has_slot(self.region.slot)
                &&& !final(target).has_region(self.mem.ptr as int)
                &&& !final(target).has_region(self.ioctl_arg.ptr as int)
                &&& forall|s: u32|
                    s != self.region.slot ==> (final(target).has_slot(s) <==> old(
                        target,
                    ).has_slot(s))
                &&& forall|s: u32|
                    s != self.region.slot && old(target).has_slot(s) ==> final(target).slot_entry(
                        s,
                    ) == old(target).slot_entry(s)
                &&& forall|a: int|
                    a != self.mem.ptr && a != self.ioctl_arg.ptr ==> (final(target).has_region(a)
                        <==> old(target).has_region(a))
                &&& forall|a: int|
                    a != self.mem.ptr && a != self.ioctl_arg.ptr && old(target).has_region(a)
                        ==> final(target).region_bytes(a) == old(target).region_bytes(a)
                &&& final(target).same_process_state(*old(target))
                &&& final(target).same_signal_state(*old(target))
                &&& final(target).next_addr == old(target).next_addr
            }),
    {
        if !tracee.attached {
            return Err(Error::NotAttached);
        }
        if !target.alive {
            return Err(Error::TargetGone);
        }
        let mut deleted = self.region;
        deleted.memory_size = 0;
        let arg_bytes = encode_memory_region(&deleted);
        self.ioctl_arg.write(target, &arg_bytes)?;
        let ghost t1 = *target;
        proof {
            assert(t1.region_bytes(self.ioctl_arg.ptr as int) =~= arg_bytes@);
            assert(spec_decode_region(t1.region_bytes(self.ioctl_arg.ptr as int)) == deleted);
        }
        let _ioctl_ret: i32 = tracee.vm_ioctl_with_ref(
            target,
            KVM_SET_USER_MEMORY_REGION,
            &self.ioctl_arg,
        )?;
        let ghost t2 = *target;
        self.mem.release(tracee, target)?;
        let ghost t3 = *target;
        self.ioctl_arg.release(tracee, target)?;
        proof {
            assert(!target.has_slot(self.region.slot));
            assert forall|s: u32| s != self.region.slot implies (target.has_slot(s) <==> old(
                target,
            ).has_slot(s)) by {
                assert(t1.has_slot(s) <==> old(target).has_slot(s));
                assert(t2.has_slot(s) <==> t1.has_slot(s));
                assert(t3.has_slot(s) <==> t2.has_slot(s));
                assert(target.has_slot(s) <==> t3.has_slot(s));
            }
            assert forall|s: u32| s != self.region.slot && old(target).has_slot(
                s,
            ) implies target.slot_entry(s) == old(target).slot_entry(s) by {
                assert(t1.memslots@ == old(target).memslots@);
                assert(t2.has_slot(s) && t2.slot_entry(s) == t1.slot_entry(s));
                assert(t3.memslots@ == t2.memslots@);
                assert(target.memslots@ == t3.memslots@);
            }
        }
        Ok(())
    }
}

} // verus!
