//! The attach driver: the ordered setup of an attach, and its teardown in
//! reverse.
//!
//! Setup: open the hypervisor handle, stop the tracee, stage guest-physical
//! memory for the in-guest loader, build the block device, register its
//! MMIO range and wire its irqfd to the device's interrupt line.  If a
//! shutdown was requested before the guest driver comes up, everything is
//! torn down in reverse — staged memory deregistered and freed, the irqfd
//! deassigned, tracee resumed — and the attach returns cleanly.  Otherwise
//! the caller holds a session: the device is ready for the guest driver,
//! and teardown runs the same reverse sequence later.

use vstd::prelude::*;

use crate::block::Block;
use crate::block::MmioConfig;
use crate::error::Error;
use crate::hv_mem::VmMem;
use crate::hypervisor::get_hypervisor;
use crate::hypervisor::spec_vcpu_entries;
use crate::hypervisor::spec_vcpus_ok;
use crate::hypervisor::spec_vm_fds;
use crate::hypervisor::FdInfo;
use crate::hypervisor::Hypervisor;
use crate::page::PAGE_SIZE;
use crate::router::ExitRouter;
use crate::router::MmioRange;
use crate::target::TargetProcess;

verus! {

/// Bytes staged in the target for the in-guest loader.
pub const STAGE1_AREA_SIZE: usize = 0x10000;

/// Length of the device's MMIO register range.
pub const MMIO_RANGE_LEN: u64 = 0x200;

/// The interrupt line handed to the device.
pub const DEVICE_GSI: u32 = 5;

/// What an attach asks for: the target process, the guest command, the path
/// of the backing file.
pub struct AttachOptions {
    pub pid: i32,
    pub command: Vec<Vec<u8>>,
    pub backing: Vec<u8>,
}

/// A running attach: the handle, the staged guest memory, the device, its
/// interrupt source and the exit routing, kept until teardown.
pub struct AttachSession {
    pub hv: Hypervisor,
    pub guest_mem: VmMem,
    pub device: Block,
    pub irq: crate::target::KvmIrqFd,
    pub router: ExitRouter,
}

/// The world is fit for an attach to go through: the descriptor table shows
/// one VM with usable VCPUs, the target runs untraced, and the model's
/// machine limits hold.
pub open spec fn spec_attach_viable(target: TargetProcess, fds: Seq<FdInfo>) -> bool {
    &&& spec_vcpus_ok(fds)
    &&& spec_vm_fds(fds).len() == 1
    &&& spec_vcpu_entries(fds).len() > 0
    &&& target.alive
    &&& !target.foreign_tracer
    &&& target.memslots@.len() <= u32::MAX
    &&& target.next_addr + STAGE1_AREA_SIZE + 8 * PAGE_SIZE <= usize::MAX
}

/// Attach to the hypervisor `opts.pid` whose descriptor table reads as
/// `fds`, with `disk` as the block device's backing bytes.
///
/// Setup order: open the handle, stop the tracee, stage guest-physical
/// memory, build the device, register its MMIO range and its irqfd.
/// `shutdown_requested` is the state of the shutdown channel after device
/// construction.  When it is set, the attach tears everything down in
/// reverse and returns cleanly: the staged memory slot is deregistered and
/// freed, the device's irqfd is deassigned, and the target threads run
/// again.  Otherwise the returned session holds the ready device.
pub fn attach(
    opts: &AttachOptions,
    target: &mut TargetProcess,
    fds: &Vec<FdInfo>,
    disk: Vec<u8>,
    read_only: bool,
    shutdown_requested: bool,
) -> (r: Result<Option<AttachSession>, Error>)
    requires
        old(target).wf(),
    ensures
        final(target).wf(),
        !spec_vcpus_ok(fds@) || spec_vm_fds(fds@).len() != 1 || spec_vcpu_entries(fds@).len() == 0
            ==> r == Err::<Option<AttachSession>, Error>(Error::Configuration) && *final(target)
            == *old(target),
        spec_attach_viable(*old(target), fds@) ==> r is Ok,
        spec_attach_viable(*old(target), fds@) && shutdown_requested ==> ({
            let slot = old(target).memslots@.len() as u32;
            let irq_entry = crate::target::KvmIrqFd { fd: 0, gsi: DEVICE_GSI };
            &&& r matches Ok(sess) && sess is None
            &&& !final(target).threads_stopped
            &&& final(target).alive
            &&& !final(target).has_slot(slot)
            &&& forall|s: u32|
                s != slot ==> (final(target).has_slot(s) <==> old(target).has_slot(s))
            &&& forall|s: u32|
                s != slot && old(target).has_slot(s) ==> final(target).slot_entry(s) == old(
                    target,
                ).slot_entry(s)
            &&& forall|a: int| final(target).has_region(a) <==> old(target).has_region(a)
            &&& forall|a: int|
                old(target).has_region(a) ==> final(target).region_bytes(a) == old(
                    target,
                ).region_bytes(a)
            &&& forall|k: int|
                0 <= k < final(target).irqfds@.len() ==> #[trigger] final(target).irqfds@[k]
                    != irq_entry && old(target).irqfds@.contains(final(target).irqfds@[k])
            &&& forall|j: int|
                0 <= j < old(target).irqfds@.len() && #[trigger] old(target).irqfds@[j]
                    != irq_entry ==> final(target).irqfds@.contains(old(target).irqfds@[j])
            &&& final(target).ioeventfds@ == old(target).ioeventfds@
        }),
        spec_attach_viable(*old(target), fds@) && !shutdown_requested ==> ({
            &&& r matches Ok(sess) && sess is Some
            &&& final(target).threads_stopped
            &&& final(target).has_irqfd(DEVICE_GSI)
            &&& (r matches Ok(sess) ==> ({
                let s = sess->Some_0;
                &&& s.hv.tracee.attached
                &&& s.guest_mem.wf_in(*final(target))
                &&& !s.device.device_activated
                &&& s.device.read_only == read_only
                &&& s.device.disk@ == disk@
                &&& s.irq.gsi == DEVICE_GSI
                &&& s.device.mmio.gsi == DEVICE_GSI
                &&& s.router.ranges@.len() == 1
                &&& s.router.ranges@[0] == (MmioRange {
                    base: s.device.mmio.base,
                    len: s.device.mmio.len,
                })
            }))
        }),
{
    let mut hv = match get_hypervisor(opts.pid, fds) {
        Ok(h) => h,
        Err(e) => {
            return Err(e);
        },
    };
    hv.stop(target)?;
    let ghost t1 = *target;
    let guest_mem = match hv.vm_add_mem(target, STAGE1_AREA_SIZE) {
        Ok(m) => m,
        Err(e) => {
            hv.resume(target)?;
            return Err(e);
        },
    };
    let ghost t2 = *target;
    let mmio = MmioConfig { base: crate::hypervisor::VM_MEM_GUEST_PHYS_ADDR + 0x1000_0000, len: MMIO_RANGE_LEN, gsi: DEVICE_GSI };
    let device = Block::new(disk, read_only, false, mmio);
    let mut router = ExitRouter::new();
    router.register(MmioRange { base: mmio.base, len: mmio.len });
    let irq = match hv.irqfd(target, DEVICE_GSI) {
        Ok(q) => q,
        Err(e) => {
            let cleanup: Result<(), Error> = guest_mem.release(&hv.tracee, target);
            proof {
                assert(cleanup is Ok);
            }
            hv.resume(target)?;
            return Err(e);
        },
    };
    let ghost t2a = *target;
    if shutdown_requested {
        proof {
            assert(guest_mem.wf_in(t2a));
        }
        guest_mem.release(&hv.tracee, target)?;
        let ghost t3 = *target;
        proof {
            if spec_attach_viable(*old(target), fds@) {
                assert(t1.next_addr == old(target).next_addr);
                assert(target.next_addr + 2 * PAGE_SIZE <= usize::MAX);
                assert(target.alive);
            }
        }
        hv.irqfd_release(target, irq)?;
        let ghost t4 = *target;
        hv.resume(target)?;
        proof {
            let slot = old(target).memslots@.len() as u32;
            let irq_entry = crate::target::KvmIrqFd { fd: 0, gsi: DEVICE_GSI };
            assert(t1 == (TargetProcess { threads_stopped: true, ..*old(target) }));
            assert(*target == (TargetProcess { threads_stopped: false, ..t4 }));
            assert(t1.regions == old(target).regions);
            assert(t1.memslots == old(target).memslots);
            assert(t1.irqfds == old(target).irqfds);
            assert(target.regions == t4.regions);
            assert(target.memslots == t4.memslots);
            assert(target.irqfds == t4.irqfds);
            assert(target.ioeventfds == t4.ioeventfds);
            assert forall|s: u32| s != slot implies (target.has_slot(s) <==> old(
                target,
            ).has_slot(s)) by {
                assert(t1.has_slot(s) <==> old(target).has_slot(s));
                assert(t2.has_slot(s) <==> t1.has_slot(s));
                assert(t2a.has_slot(s) <==> t2.has_slot(s));
                assert(t3.has_slot(s) <==> t2a.has_slot(s));
                assert(t4.has_slot(s) <==> t3.has_slot(s));
                assert(target.has_slot(s) <==> t4.has_slot(s));
            }
            assert forall|s: u32| s != slot && old(target).has_slot(s) implies target.slot_entry(
                s,
            ) == old(target).slot_entry(s) by {
                assert(t1.memslots@ == old(target).memslots@);
                assert(t2.has_slot(s) && t2.slot_entry(s) == t1.slot_entry(s));
                assert(t2a.memslots@ == t2.memslots@);
                assert(t3.slot_entry(s) == t2a.slot_entry(s));
                assert(t4.memslots@ == t3.memslots@);
                assert(target.memslots@ == t4.memslots@);
            }
            assert(!t3.has_slot(slot));
            assert(t4.memslots@ == t3.memslots@);
            assert(!target.has_slot(slot));
            assert forall|a: int| true implies (target.has_region(a) <==> old(target).has_region(
                a,
            )) by {
                assert(t1.has_region(a) <==> old(target).has_region(a));
                assert(target.has_region(a) <==> t4.has_region(a));
                assert(t4.has_region(a) <==> t3.has_region(a));
                if a == guest_mem.mem.ptr || a == guest_mem.ioctl_arg.ptr {
                    assert(!t1.has_region(a));
                    assert(!t3.has_region(a));
                } else {
                    assert(t2.has_region(a) <==> t1.has_region(a));
                    assert(t2a.has_region(a) <==> t2.has_region(a));
                    assert(t3.has_region(a) <==> t2a.has_region(a));
                }
            }
            assert forall|a: int| old(target).has_region(a) implies target.region_bytes(a) == old(
                target,
            ).region_bytes(a) by {
                assert(t1.has_region(a) <==> old(target).has_region(a));
                assert(t1.region_bytes(a) == old(target).region_bytes(a));
                assert(a != guest_mem.mem.ptr && a != guest_mem.ioctl_arg.ptr) by {
                    assert(!t1.has_region(guest_mem.mem.ptr as int));
                    assert(!t1.has_region(guest_mem.ioctl_arg.ptr as int));
                }
                assert(t2.region_bytes(a) == t1.region_bytes(a));
                assert(t2a.region_bytes(a) == t2.region_bytes(a));
                assert(t3.region_bytes(a) == t2a.region_bytes(a));
                assert(t4.region_bytes(a) == t3.region_bytes(a));
                assert(target.region_bytes(a) == t4.region_bytes(a));
            }
            assert(t2.irqfds@ == old(target).irqfds@);
            assert(t2a.irqfds@ == t2.irqfds@.push(irq_entry));
            assert(t3.irqfds@ == t2a.irqfds@);
            assert forall|k: int| 0 <= k < target.irqfds@.len() implies #[trigger] target.irqfds@[k]
                != irq_entry && old(target).irqfds@.contains(target.irqfds@[k]) by {
                assert(t4.irqfds@[k] != irq_entry);
                assert(t3.irqfds@.contains(t4.irqfds@[k]));
                let w = choose|w: int| 0 <= w < t3.irqfds@.len() && t3.irqfds@[w] == t4.irqfds@[k];
                if w < old(target).irqfds@.len() {
                    assert(old(target).irqfds@[w] == t4.irqfds@[k]);
                } else {
                    assert(t3.irqfds@[w] == irq_entry);
                }
            }
            assert forall|j: int| 0 <= j < old(target).irqfds@.len() && #[trigger] old(
                target,
            ).irqfds@[j] != irq_entry implies target.irqfds@.contains(old(target).irqfds@[j]) by {
                assert(t3.irqfds@[j] == old(target).irqfds@[j]);
                assert(t4.irqfds@.contains(t3.irqfds@[j]));
            }
            assert(t2.ioeventfds@ == old(target).ioeventfds@);
            assert(t2a.ioeventfds@ == t2.ioeventfds@);
            assert(t3.ioeventfds@ == t2a.ioeventfds@);
            assert(t4.ioeventfds@ == t3.ioeventfds@);
        }
        return Ok(None);
    }
    Ok(Some(AttachSession { hv, guest_mem, device, irq, router }))
}

} // verus!
