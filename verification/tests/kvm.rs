//! The tracee lifecycle and remote memory against a model target.

use vmsh::error::Error;
use vmsh::hv_mem::HvMem;
use vmsh::hypervisor::FdInfo;
use vmsh::hypervisor::get_hypervisor;
use vmsh::target::KvmMemSlot;
use vmsh::target::TargetProcess;
use vmsh::tracee::decode_memory_region;
use vmsh::tracee::encode_memory_region;
use vmsh::tracee::process_read;
use vmsh::tracee::process_write;
use vmsh::tracee::Tracee;
use vmsh::tracee::encode_irqfd;
use vmsh::tracee::KVM_CHECK_EXTENSION;
use vmsh::tracee::KVM_IRQFD;
use vmsh::tracee::KVM_SET_USER_MEMORY_REGION;

fn running_target() -> TargetProcess {
    TargetProcess::new_running(vec![4, 9])
}

fn vm_fds() -> Vec<FdInfo> {
    vec![
        FdInfo { fd_num: 7, name: b"anon_inode:kvm-vm".to_vec() },
        FdInfo { fd_num: 9, name: b"anon_inode:kvm-vcpu:0".to_vec() },
    ]
}

#[test]
fn attach_stops_threads_and_detach_resumes() {
    // Attach then detach leaves the target threads as they were: running.
    let mut target = running_target();
    let mut tracee = Tracee::new(1000, 7);
    assert!(!target.threads_stopped);
    tracee.attach(&mut target).unwrap();
    assert!(target.threads_stopped);
    assert!(tracee.attached);
    tracee.detach(&mut target);
    assert!(!target.threads_stopped);
    assert!(!tracee.attached);
}

#[test]
fn attach_twice_is_a_no_op() {
    let mut target = running_target();
    let mut tracee = Tracee::new(1000, 7);
    tracee.attach(&mut target).unwrap();
    tracee.attach(&mut target).unwrap();
    assert!(tracee.attached && target.threads_stopped);
}

#[test]
fn detach_when_detached_is_a_no_op() {
    let mut target = running_target();
    let mut tracee = Tracee::new(1000, 7);
    tracee.detach(&mut target);
    assert!(!tracee.attached && !target.threads_stopped);
}

#[test]
fn attach_fails_on_dead_target() {
    let mut target = running_target();
    target.alive = false;
    let mut tracee = Tracee::new(1000, 7);
    assert_eq!(tracee.attach(&mut target), Err(Error::TargetGone));
}

#[test]
fn attach_fails_on_foreign_tracer() {
    let mut target = running_target();
    target.foreign_tracer = true;
    let mut tracee = Tracee::new(1000, 7);
    assert_eq!(tracee.attach(&mut target), Err(Error::TransportError));
}

#[test]
fn remote_calls_need_an_attached_tracee() {
    let mut target = running_target();
    let tracee = Tracee::new(1000, 7);
    assert_eq!(tracee.mmap(&mut target, 64), Err(Error::NotAttached));
    assert_eq!(tracee.check_extension(&target, 4), Err(Error::NotAttached));
    let no_arg = HvMem { ptr: 0, len: 32, ty_size: 32 };
    assert_eq!(
        tracee.vm_ioctl_with_ref(&mut target, KVM_SET_USER_MEMORY_REGION, &no_arg),
        Err(Error::NotAttached)
    );
}

#[test]
fn mmap_returns_zeroed_memory() {
    let mut target = running_target();
    let mut tracee = Tracee::new(1000, 7);
    tracee.attach(&mut target).unwrap();
    let addr = tracee.mmap(&mut target, 16).unwrap();
    let bytes = process_read(&target, addr, 16).unwrap();
    assert_eq!(bytes, vec![0u8; 16]);
}

#[test]
fn process_write_then_read_round_trips() {
    let mut target = running_target();
    let mut tracee = Tracee::new(1000, 7);
    tracee.attach(&mut target).unwrap();
    let addr = tracee.mmap(&mut target, 8).unwrap();
    process_write(&mut target, addr, &vec![0xde, 0xad, 0xbe, 0xef]).unwrap();
    let bytes = process_read(&target, addr, 4).unwrap();
    assert_eq!(bytes, vec![0xde, 0xad, 0xbe, 0xef]);
    // The bytes past the write keep their old value.
    let tail = process_read(&target, addr, 8).unwrap();
    assert_eq!(&tail[4..], &[0, 0, 0, 0]);
}

#[test]
fn short_reads_are_transport_errors() {
    let mut target = running_target();
    let mut tracee = Tracee::new(1000, 7);
    tracee.attach(&mut target).unwrap();
    let addr = tracee.mmap(&mut target, 4).unwrap();
    assert_eq!(process_read(&target, addr, 5), Err(Error::TransportError));
    assert_eq!(process_read(&target, addr + 1, 1), Err(Error::TransportError));
}

#[test]
fn munmap_removes_the_mapping() {
    let mut target = running_target();
    let mut tracee = Tracee::new(1000, 7);
    tracee.attach(&mut target).unwrap();
    let addr = tracee.mmap(&mut target, 4).unwrap();
    tracee.munmap(&mut target, addr).unwrap();
    assert_eq!(process_read(&target, addr, 1), Err(Error::TransportError));
}

#[test]
fn check_extension_answers_from_capability_table() {
    let mut target = running_target();
    let mut tracee = Tracee::new(1000, 7);
    tracee.attach(&mut target).unwrap();
    assert_eq!(tracee.check_extension(&target, 4), Ok(1));
    assert_eq!(tracee.check_extension(&target, 5), Ok(0));
    assert_eq!(KVM_CHECK_EXTENSION, 0xAE03);
}

#[test]
fn memory_region_codec_round_trips() {
    let slot = KvmMemSlot {
        slot: 3,
        flags: 0,
        guest_phys_addr: 0xd000_0000,
        memory_size: 0x2000,
        userspace_addr: 0x7f00_1234_5000,
    };
    let bytes = encode_memory_region(&slot);
    assert_eq!(bytes.len(), 32);
    assert_eq!(decode_memory_region(&bytes), slot);
    // The encoding is little-endian: slot id in the first byte.
    assert_eq!(bytes[0], 3);
    assert_eq!(bytes[16], 0);
    assert_eq!(bytes[17], 0x20);
}

#[test]
fn alloc_mem_padded_requires_room_for_the_type() {
    // P2: a successful allocation is at least as large as the typed value.
    let mut target = running_target();
    let fds = vm_fds();
    let mut hv = get_hypervisor(1000, &fds).unwrap();
    hv.stop(&mut target).unwrap();
    assert_eq!(
        hv.alloc_mem_padded(&mut target, 64, 32).map(|m| m.ptr),
        Err(Error::Configuration)
    );
    let mem = hv.alloc_mem_padded(&mut target, 32, 64).unwrap();
    assert_eq!(mem.ty_size, 32);
    assert_eq!(mem.len, 64);
    let bytes = process_read(&target, mem.ptr, 64).unwrap();
    assert_eq!(bytes.len(), 64);
}

#[test]
fn hv_mem_write_and_read_round_trip() {
    let mut target = running_target();
    let fds = vm_fds();
    let mut hv = get_hypervisor(1000, &fds).unwrap();
    hv.stop(&mut target).unwrap();
    let mem: HvMem = hv.alloc_mem(&mut target, 4).unwrap();
    mem.write(&mut target, &vec![1, 2, 3, 4]).unwrap();
    assert_eq!(mem.read(&target).unwrap(), vec![1, 2, 3, 4]);
}

#[test]
fn hv_mem_release_unmaps_exactly_once() {
    // P2: the allocation is unmapped at release; consuming the value makes
    // a second unmap impossible by construction.
    let mut target = running_target();
    let fds = vm_fds();
    let mut hv = get_hypervisor(1000, &fds).unwrap();
    hv.stop(&mut target).unwrap();
    let mem = hv.alloc_mem(&mut target, 4).unwrap();
    let addr = mem.ptr;
    let regions_before = target.regions.len();
    mem.release(&hv.tracee, &mut target).unwrap();
    assert_eq!(target.regions.len(), regions_before - 1);
    assert_eq!(process_read(&target, addr, 1), Err(Error::TransportError));
}

#[test]
fn vm_add_mem_registers_a_slot() {
    let mut target = running_target();
    let fds = vm_fds();
    let mut hv = get_hypervisor(1000, &fds).unwrap();
    hv.stop(&mut target).unwrap();
    let vm_mem = hv.vm_add_mem(&mut target, 0x1000).unwrap();
    assert_eq!(vm_mem.region.slot, 0);
    assert_eq!(vm_mem.region.guest_phys_addr, 0xd000_0000);
    assert_eq!(vm_mem.region.memory_size, 0x2000);
    assert_eq!(target.memslots.len(), 1);
    assert_eq!(target.memslots[0], vm_mem.region);
}

#[test]
fn vm_mem_release_removes_the_slot() {
    // P3: after release, the memory-slot table no longer holds the slot id.
    let mut target = running_target();
    let fds = vm_fds();
    let mut hv = get_hypervisor(1000, &fds).unwrap();
    hv.stop(&mut target).unwrap();
    let vm_mem = hv.vm_add_mem(&mut target, 0x1000).unwrap();
    let slot_id = vm_mem.region.slot;
    vm_mem.release(&hv.tracee, &mut target).unwrap();
    assert!(target.memslots.iter().all(|s| s.slot != slot_id));
    assert!(target.regions.is_empty());
}

#[test]
fn set_user_memory_region_upserts_and_deletes() {
    let mut target = running_target();
    let mut tracee = Tracee::new(1000, 7);
    tracee.attach(&mut target).unwrap();
    let arg_addr = tracee.mmap(&mut target, 32).unwrap();
    let arg = HvMem { ptr: arg_addr, len: 32, ty_size: 32 };
    let slot = KvmMemSlot {
        slot: 4,
        flags: 0,
        guest_phys_addr: 0x1000,
        memory_size: 0x1000,
        userspace_addr: 0x2000,
    };
    process_write(&mut target, arg_addr, &encode_memory_region(&slot)).unwrap();
    assert_eq!(
        tracee.vm_ioctl_with_ref(&mut target, KVM_SET_USER_MEMORY_REGION, &arg),
        Ok(0)
    );
    assert_eq!(target.memslots, vec![slot]);
    // A size-zero rewrite deletes the slot.
    let mut deleted = slot;
    deleted.memory_size = 0;
    process_write(&mut target, arg_addr, &encode_memory_region(&deleted)).unwrap();
    tracee.vm_ioctl_with_ref(&mut target, KVM_SET_USER_MEMORY_REGION, &arg).unwrap();
    assert!(target.memslots.is_empty());
}

#[test]
fn unknown_ioctl_requests_are_refused() {
    let mut target = running_target();
    let mut tracee = Tracee::new(1000, 7);
    tracee.attach(&mut target).unwrap();
    let arg_addr = tracee.mmap(&mut target, 32).unwrap();
    let arg = HvMem { ptr: arg_addr, len: 32, ty_size: 32 };
    assert_eq!(
        tracee.vm_ioctl_with_ref(&mut target, 0x1234, &arg),
        Err(Error::KvmProtocol)
    );
}

#[test]
fn tracee_get_maps_lists_slots() {
    let mut target = running_target();
    let mut tracee = Tracee::new(1000, 7);
    tracee.attach(&mut target).unwrap();
    target.memslots.push(KvmMemSlot {
        slot: 0,
        flags: 0,
        guest_phys_addr: 0x4000,
        memory_size: 0x2000,
        userspace_addr: 0x9000,
    });
    let maps = tracee.get_maps(&target).unwrap();
    assert_eq!(maps.len(), 1);
    assert_eq!(maps[0].start, 0x9000);
    assert_eq!(maps[0].end, 0xb000);
    assert_eq!(maps[0].phys_addr, 0x4000);
}

#[test]
fn get_regs_converts_vcpu_state() {
    let mut target = running_target();
    let mut tracee = Tracee::new(1000, 7);
    tracee.attach(&mut target).unwrap();
    target.vcpu_states.push(vmsh::regs::VcpuState {
        regs: vmsh::regs::KvmRegs {
            rax: 0xabc, rbx: 0, rcx: 0, rdx: 0, rsi: 0, rdi: 0, rsp: 0x7000, rbp: 0,
            r8: 0, r9: 0, r10: 0, r11: 0, r12: 0, r13: 0, r14: 0, r15: 0,
            rip: 0x401000, rflags: 0x202,
        },
        sregs: vec![0x5a; 312],
        fpu: vmsh::regs::KvmFpu {
            fpr: vec![0u8; 128],
            fcw: 0x37f,
            fsw: 0,
            ftwx: 0,
            last_opcode: 0,
            last_ip: 0,
            last_dp: 0,
            xmm: vec![0u8; 256],
            mxcsr: 0x1f80,
        },
    });
    let vcpu = vmsh::hypervisor::VCPU { idx: 0, fd_num: 9 };
    let regs = tracee.get_regs(&target, &vcpu).unwrap();
    assert_eq!(regs.rax, 0xabc);
    assert_eq!(regs.orig_rax, 0xabc);
    assert_eq!(regs.rip, 0x401000);
    assert_eq!(regs.eflags, 0x202);
    assert_eq!(regs.cs, 0);
    let sregs = tracee.get_sregs(&target, &vcpu).unwrap();
    assert_eq!(sregs.len(), 312);
    assert!(sregs.iter().all(|&b| b == 0x5a));
    let fpu = tracee.get_fpu_regs(&target, &vcpu).unwrap();
    assert_eq!(fpu.cwd, 0x37f);
    assert_eq!(fpu.mxcsr, 0x1f80);
    // A VCPU index past the table is a protocol error.
    let bad = vmsh::hypervisor::VCPU { idx: 1, fd_num: 10 };
    assert_eq!(tracee.get_regs(&target, &bad).map(|_| ()), Err(Error::KvmProtocol));
}

#[test]
fn irqfd_registers_and_deassigns() {
    let mut target = running_target();
    let fds = vm_fds();
    let mut hv = get_hypervisor(1000, &fds).unwrap();
    hv.stop(&mut target).unwrap();
    let q = hv.irqfd(&mut target, 5).unwrap();
    assert_eq!(q.gsi, 5);
    assert_eq!(target.irqfds, vec![q]);
    // The scratch argument memory is gone again.
    assert!(target.regions.is_empty());
    hv.irqfd_release(&mut target, q).unwrap();
    assert!(target.irqfds.is_empty());
}

#[test]
fn ioeventfd_registers_a_doorbell() {
    let mut target = running_target();
    let fds = vm_fds();
    let mut hv = get_hypervisor(1000, &fds).unwrap();
    hv.stop(&mut target).unwrap();
    let q = hv.ioeventfd(&mut target, 0xd100_0050, 4, 0).unwrap();
    assert_eq!(q.addr, 0xd100_0050);
    assert_eq!(q.len, 4);
    assert_eq!(target.ioeventfds, vec![q]);
    assert!(target.regions.is_empty());
}

#[test]
fn irqfd_ioctl_goes_through_the_generic_entry() {
    let mut target = running_target();
    let mut tracee = Tracee::new(1000, 7);
    tracee.attach(&mut target).unwrap();
    let arg_addr = tracee.mmap(&mut target, 32).unwrap();
    let arg = HvMem { ptr: arg_addr, len: 32, ty_size: 32 };
    process_write(&mut target, arg_addr, &encode_irqfd(9, 7, 0)).unwrap();
    assert_eq!(tracee.vm_ioctl_with_ref(&mut target, KVM_IRQFD, &arg), Ok(0));
    assert_eq!(target.irqfds.len(), 1);
    assert_eq!(target.irqfds[0].fd, 9);
    assert_eq!(target.irqfds[0].gsi, 7);
    // Deassign through the same entry point.
    process_write(&mut target, arg_addr, &encode_irqfd(9, 7, 1)).unwrap();
    tracee.vm_ioctl_with_ref(&mut target, KVM_IRQFD, &arg).unwrap();
    assert!(target.irqfds.is_empty());
}
