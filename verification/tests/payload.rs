//! Payload placement, register conversion, exit routing, and the attach
//! driver's clean shutdown.

use vmsh::attach::attach;
use vmsh::attach::AttachOptions;
use vmsh::error::Error;
use vmsh::hypervisor::FdInfo;
use vmsh::loader::find_loadable;
use vmsh::loader::pack_command_strings;
use vmsh::loader::patch_relocation;
use vmsh::loader::build_upload_plan;
use vmsh::loader::plan_allocations;
use vmsh::loader::resolve_symbol;
use vmsh::loader::SymbolTable;
use vmsh::loader::LoadHeader;
use vmsh::loader::Loadable;
use vmsh::loader::MappedMemory;
use vmsh::regs::fpu_regs_from_kvm;
use vmsh::regs::regs_from_kvm;
use vmsh::regs::KvmFpu;
use vmsh::regs::KvmRegs;
use vmsh::router::ExitRoute;
use vmsh::router::ExitRouter;
use vmsh::router::MmioRange;
use vmsh::target::TargetProcess;

fn loadable_at(virt_start: usize, len: usize) -> Loadable {
    Loadable {
        content: vec![0u8; len],
        mapping: MappedMemory { virt_start, len, phys_start_host: 0x100000 },
        virt_offset: 0,
    }
}

#[test]
fn find_loadable_matches_containing_mapping() {
    let ls = vec![loadable_at(0x1000, 0x1000), loadable_at(0x3000, 0x1000)];
    assert_eq!(find_loadable(&ls, 0x1000), Some(0));
    assert_eq!(find_loadable(&ls, 0x1fff), Some(0));
    assert_eq!(find_loadable(&ls, 0x3000), Some(1));
    assert_eq!(find_loadable(&ls, 0x2000), None);
}

#[test]
fn plan_allocations_sorts_and_appends_string_table() {
    let vbase: usize = 0xffff_ffff_8100_0000;
    let headers = vec![
        LoadHeader { virtual_addr: 0x3000, mem_size: 0x800, is_execute: false, is_write: true },
        LoadHeader { virtual_addr: 0x1010, mem_size: 0x100, is_execute: true, is_write: false },
    ];
    let plan = plan_allocations(&headers, vbase, 0x1000).unwrap();
    assert_eq!(plan.len(), 3);
    // Sorted by start: the executable header at 0x1000 comes first.
    assert_eq!(plan[0].virt_start, vbase + 0x1000);
    assert_eq!(plan[0].virt_offset, 0x10);
    assert_eq!(plan[0].len, 0x1000);
    assert_eq!(plan[0].prot, 1 | 4);
    assert_eq!(plan[1].virt_start, vbase + 0x3000);
    assert_eq!(plan[1].len, 0x1000);
    assert_eq!(plan[1].prot, 1 | 2);
    // The string table follows the last allocation.
    assert_eq!(plan[2].virt_start, plan[1].virt_start + plan[1].len);
    assert_eq!(plan[2].len, 0x1000);
    assert_eq!(plan[2].prot, 1 | 2);
}

#[test]
fn plan_allocations_rejects_addresses_outside_kaslr_range() {
    let headers = vec![
        LoadHeader { virtual_addr: 0x1000, mem_size: 0x100, is_execute: false, is_write: false },
    ];
    assert_eq!(
        plan_allocations(&headers, 0x1000_0000, 0x1000).map(|_| ()),
        Err(Error::Configuration)
    );
    assert_eq!(plan_allocations(&Vec::new(), 0, 0).map(|_| ()), Err(Error::Configuration));
}

#[test]
fn pack_command_strings_builds_argv_table() {
    let command = vec![b"ls".to_vec(), b"-l".to_vec(), b"/tmp".to_vec()];
    let base: usize = 0x5000;
    let (strings, argv) = pack_command_strings(&command, base).unwrap();
    assert_eq!(strings, b"ls\0-l\0/tmp\0".to_vec());
    assert_eq!(argv, vec![0x5000, 0x5003, 0x5006, 0]);
}

#[test]
fn pack_command_strings_of_nothing_is_just_the_terminator() {
    let (strings, argv) = pack_command_strings(&Vec::new(), 0x5000).unwrap();
    assert!(strings.is_empty());
    assert_eq!(argv, vec![0]);
}

#[test]
fn patch_relocation_writes_little_endian_address() {
    let mut l = loadable_at(0x1000, 16);
    patch_relocation(&mut l, 4, 0x1122_3344_5566_7788).unwrap();
    assert_eq!(
        &l.content[4..12],
        &[0x88, 0x77, 0x66, 0x55, 0x44, 0x33, 0x22, 0x11]
    );
    assert_eq!(&l.content[0..4], &[0, 0, 0, 0]);
    // Out of range: refused, nothing changed.
    assert_eq!(patch_relocation(&mut l, 12, 1), Err(Error::Configuration));
}

#[test]
fn regs_conversion_copies_and_zeroes_segments() {
    let k = KvmRegs {
        rax: 1, rbx: 2, rcx: 3, rdx: 4, rsi: 5, rdi: 6, rsp: 7, rbp: 8,
        r8: 9, r9: 10, r10: 11, r11: 12, r12: 13, r13: 14, r14: 15, r15: 16,
        rip: 17, rflags: 18,
    };
    let r = regs_from_kvm(&k);
    assert_eq!(r.rax, 1);
    assert_eq!(r.orig_rax, 1);
    assert_eq!(r.eflags, 18);
    assert_eq!(r.rip, 17);
    assert_eq!(r.cs, 0);
    assert_eq!(r.fs_base, 0);
}

#[test]
fn fpu_conversion_reinterprets_bytes_as_words() {
    let mut fpr = vec![0u8; 128];
    fpr[0] = 0x78;
    fpr[1] = 0x56;
    fpr[2] = 0x34;
    fpr[3] = 0x12;
    let k = KvmFpu {
        fpr,
        fcw: 0x37f,
        fsw: 0,
        ftwx: 0xff,
        last_opcode: 0,
        last_ip: 0,
        last_dp: 0,
        xmm: vec![0u8; 256],
        mxcsr: 0x1f80,
    };
    let r = fpu_regs_from_kvm(&k);
    assert_eq!(r.cwd, 0x37f);
    assert_eq!(r.twd, 0xff);
    assert_eq!(r.st_space.len(), 32);
    assert_eq!(r.st_space[0], 0x1234_5678);
    assert_eq!(r.xmm_space.len(), 64);
    assert_eq!(r.mxcsr, 0x1f80);
    assert_eq!(r.mxcsr_mask, 0);
}

#[test]
fn exits_outside_registered_ranges_pass_through() {
    // An address in no device range is forwarded to the hypervisor.
    let mut router = ExitRouter::new();
    router.register(MmioRange { base: 0xd100_0000, len: 0x200 });
    assert_eq!(router.route(0xd100_0000), ExitRoute::Device(0));
    assert_eq!(router.route(0xd100_01ff), ExitRoute::Device(0));
    assert_eq!(router.route(0xd100_0200), ExitRoute::PassThrough);
    assert_eq!(router.route(0x3f8), ExitRoute::PassThrough);
}

fn attach_world() -> (TargetProcess, Vec<FdInfo>) {
    let target = TargetProcess::new_running(vec![4]);
    let fds = vec![
        FdInfo { fd_num: 7, name: b"anon_inode:kvm-vm".to_vec() },
        FdInfo { fd_num: 9, name: b"anon_inode:kvm-vcpu:0".to_vec() },
    ];
    (target, fds)
}

fn attach_opts() -> AttachOptions {
    AttachOptions {
        pid: 1000,
        command: vec![b"sh".to_vec()],
        backing: b"/tmp/disk.img".to_vec(),
    }
}

#[test]
fn shutdown_before_activation_leaves_no_trace() {
    // A shutdown raised after device construction but before activation:
    // the attach returns cleanly, the tracee is detached, and no memory
    // slot or mapping of ours remains.
    let (mut target, fds) = attach_world();
    let r = attach(&attach_opts(), &mut target, &fds, vec![0u8; 1024], false, true).unwrap();
    assert!(r.is_none());
    assert!(!target.threads_stopped);
    assert!(target.memslots.is_empty());
    assert!(target.regions.is_empty());
    assert!(target.irqfds.is_empty());
    assert!(target.ioeventfds.is_empty());
    assert!(target.alive);
}

#[test]
fn attach_without_shutdown_hands_back_a_ready_session() {
    let (mut target, fds) = attach_world();
    let sess = attach(&attach_opts(), &mut target, &fds, vec![7u8; 1024], false, false)
        .unwrap()
        .unwrap();
    assert!(target.threads_stopped);
    assert!(sess.hv.tracee.attached);
    assert!(!sess.device.device_activated);
    assert_eq!(sess.device.disk, vec![7u8; 1024]);
    assert_eq!(sess.irq.gsi, 5);
    assert_eq!(sess.router.ranges.len(), 1);
    assert_eq!(target.memslots.len(), 1);
    assert_eq!(target.irqfds.len(), 1);
}

#[test]
fn attach_rejects_target_without_vm() {
    let mut target = TargetProcess::new_running(Vec::new());
    let fds = vec![FdInfo { fd_num: 9, name: b"anon_inode:kvm-vcpu:0".to_vec() }];
    assert_eq!(
        attach(&attach_opts(), &mut target, &fds, Vec::new(), false, false).map(|_| ()),
        Err(Error::Configuration)
    );
}

#[test]
fn upload_plan_lists_sections_and_total() {
    let ls = vec![
        Loadable {
            content: vec![1u8; 100],
            mapping: MappedMemory { virt_start: 0x1000, len: 0x1000, phys_start_host: 0x70000 },
            virt_offset: 0x10,
        },
        Loadable {
            content: vec![2u8; 50],
            mapping: MappedMemory { virt_start: 0x3000, len: 0x1000, phys_start_host: 0x80000 },
            virt_offset: 0,
        },
    ];
    let (plan, total) = build_upload_plan(&ls).unwrap();
    assert_eq!(plan, vec![(0x70010, 100), (0x80000, 50)]);
    assert_eq!(total, 150);
}

#[test]
fn symbol_resolution_prefers_kernel_table() {
    let kernel = SymbolTable {
        entries: vec![(b"memcpy".to_vec(), 0x100), (b"printk".to_vec(), 0x200)],
    };
    let lib = SymbolTable {
        entries: vec![(b"memcpy".to_vec(), 0x900), (b"helper".to_vec(), 0x300)],
    };
    assert_eq!(resolve_symbol(&kernel, &lib, &b"memcpy".to_vec()), Some(0x100));
    assert_eq!(resolve_symbol(&kernel, &lib, &b"helper".to_vec()), Some(0x300));
    assert_eq!(resolve_symbol(&kernel, &lib, &b"missing".to_vec()), None);
}
