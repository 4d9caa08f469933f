//! Descriptor classification, decimal parsing, page arithmetic and mapping
//! resolution.

use vmsh::error::Error;
use vmsh::hypervisor::find_vm_fd;
use vmsh::hypervisor::get_hypervisor;
use vmsh::hypervisor::sort_vcpus;
use vmsh::hypervisor::FdInfo;
use vmsh::hypervisor::VCPU;
use vmsh::maps::find_mapping;
use vmsh::maps::get_vcpu_maps;
use vmsh::maps::resolve_memslots;
use vmsh::maps::Mapping;
use vmsh::maps::MemSlot;
use vmsh::page::page_align;
use vmsh::page::page_start;
use vmsh::parse::bytes_eq;
use vmsh::parse::parse_decimal;
use vmsh::parse::starts_with;

fn fd(num: i32, name: &[u8]) -> FdInfo {
    FdInfo { fd_num: num, name: name.to_vec() }
}

fn plain_mapping(start: usize, end: usize, name: &[u8]) -> Mapping {
    Mapping {
        start,
        end,
        phys_addr: 0,
        prot_flags: 3,
        map_flags: 1,
        pathname: name.to_vec(),
    }
}

#[test]
fn parse_decimal_reads_plain_numbers() {
    assert_eq!(parse_decimal(&b"123".to_vec(), 0), Some(123));
    assert_eq!(parse_decimal(&b"abc42".to_vec(), 3), Some(42));
    assert_eq!(parse_decimal(&b"0".to_vec(), 0), Some(0));
}

#[test]
fn parse_decimal_rejects_bad_input() {
    assert_eq!(parse_decimal(&b"".to_vec(), 0), None);
    assert_eq!(parse_decimal(&b"12x".to_vec(), 0), None);
    assert_eq!(parse_decimal(&b"99999999999999999999999".to_vec(), 0), None);
}

#[test]
fn byte_string_helpers_compare_exactly() {
    assert!(bytes_eq(&b"abc".to_vec(), &b"abc".to_vec()));
    assert!(!bytes_eq(&b"abc".to_vec(), &b"abd".to_vec()));
    assert!(starts_with(&b"abcdef".to_vec(), &b"abc".to_vec()));
    assert!(!starts_with(&b"ab".to_vec(), &b"abc".to_vec()));
}

#[test]
fn page_arithmetic_rounds_to_page_boundaries() {
    assert_eq!(page_start(0), 0);
    assert_eq!(page_start(4095), 0);
    assert_eq!(page_start(4096), 4096);
    assert_eq!(page_start(8191), 4096);
    assert_eq!(page_align(0), 0);
    assert_eq!(page_align(1), 4096);
    assert_eq!(page_align(4096), 4096);
    assert_eq!(page_align(4097), 8192);
}

#[test]
fn find_vm_fd_classifies_descriptors() {
    let fds = vec![
        fd(3, b"pipe:[44]"),
        fd(7, b"anon_inode:kvm-vm"),
        fd(9, b"anon_inode:kvm-vcpu:1"),
        fd(10, b"anon_inode:kvm-vcpu:0"),
    ];
    let (vms, vcpus) = find_vm_fd(&fds).unwrap();
    assert_eq!(vms, vec![7]);
    assert_eq!(
        vcpus,
        vec![VCPU { idx: 1, fd_num: 9 }, VCPU { idx: 0, fd_num: 10 }]
    );
}

#[test]
fn find_vm_fd_rejects_duplicate_vcpu_indices() {
    let fds = vec![
        fd(7, b"anon_inode:kvm-vm"),
        fd(9, b"anon_inode:kvm-vcpu:0"),
        fd(10, b"anon_inode:kvm-vcpu:0"),
    ];
    assert_eq!(find_vm_fd(&fds).map(|_| ()), Err(Error::Configuration));
}

#[test]
fn find_vm_fd_rejects_unparsable_vcpu_name() {
    let fds = vec![fd(9, b"anon_inode:kvm-vcpu:x1")];
    assert_eq!(find_vm_fd(&fds).map(|_| ()), Err(Error::Configuration));
}

#[test]
fn get_hypervisor_needs_exactly_one_vm() {
    let no_vm = vec![fd(9, b"anon_inode:kvm-vcpu:0")];
    assert_eq!(get_hypervisor(1, &no_vm).map(|_| ()), Err(Error::Configuration));
    let two_vms = vec![
        fd(7, b"anon_inode:kvm-vm"),
        fd(8, b"anon_inode:kvm-vm"),
        fd(9, b"anon_inode:kvm-vcpu:0"),
    ];
    assert_eq!(get_hypervisor(1, &two_vms).map(|_| ()), Err(Error::Configuration));
    let no_vcpu = vec![fd(7, b"anon_inode:kvm-vm")];
    assert_eq!(get_hypervisor(1, &no_vcpu).map(|_| ()), Err(Error::Configuration));
}

#[test]
fn get_hypervisor_sorts_vcpus_by_index() {
    let fds = vec![
        fd(7, b"anon_inode:kvm-vm"),
        fd(9, b"anon_inode:kvm-vcpu:2"),
        fd(10, b"anon_inode:kvm-vcpu:0"),
        fd(11, b"anon_inode:kvm-vcpu:1"),
    ];
    let hv = get_hypervisor(1000, &fds).unwrap();
    assert_eq!(hv.pid, 1000);
    assert_eq!(hv.vm_fd, 7);
    let idxs: Vec<usize> = hv.vcpus.iter().map(|v| v.idx).collect();
    assert_eq!(idxs, vec![0, 1, 2]);
    assert!(!hv.tracee.attached);
}

#[test]
fn sort_vcpus_orders_and_keeps_everything() {
    let v = vec![
        VCPU { idx: 5, fd_num: 1 },
        VCPU { idx: 1, fd_num: 2 },
        VCPU { idx: 3, fd_num: 3 },
    ];
    let sorted = sort_vcpus(v);
    assert_eq!(
        sorted,
        vec![
            VCPU { idx: 1, fd_num: 2 },
            VCPU { idx: 3, fd_num: 3 },
            VCPU { idx: 5, fd_num: 1 },
        ]
    );
}

#[test]
fn find_mapping_picks_the_first_covering_entry() {
    let maps = vec![
        plain_mapping(0x1000, 0x2000, b""),
        plain_mapping(0x2000, 0x3000, b"disk"),
    ];
    assert_eq!(find_mapping(&maps, 0x1000), Some(0));
    assert_eq!(find_mapping(&maps, 0x1fff), Some(0));
    assert_eq!(find_mapping(&maps, 0x2000), Some(1));
    assert_eq!(find_mapping(&maps, 0x3000), None);
}

#[test]
fn resolve_memslots_takes_metadata_from_covering_mapping() {
    let maps = vec![plain_mapping(0x10000, 0x40000, b"guest-ram")];
    let slots = vec![MemSlot { base_gfn: 2, npages: 4, userspace_addr: 0x12000 }];
    let out = resolve_memslots(&slots, &maps).unwrap();
    assert_eq!(out.len(), 1);
    assert_eq!(out[0].start, 0x12000);
    assert_eq!(out[0].end, 0x12000 + 4 * 4096);
    assert_eq!(out[0].phys_addr, 2 * 4096);
    assert_eq!(out[0].prot_flags, 3);
    assert_eq!(out[0].pathname, b"guest-ram".to_vec());
}

#[test]
fn resolve_memslots_fails_without_covering_mapping() {
    let maps = vec![plain_mapping(0x10000, 0x11000, b"")];
    let slots = vec![MemSlot { base_gfn: 0, npages: 1, userspace_addr: 0x20000 }];
    assert_eq!(resolve_memslots(&slots, &maps).map(|_| ()), Err(Error::KvmProtocol));
}

#[test]
fn memslot_views_compute_ranges() {
    let s = MemSlot { base_gfn: 3, npages: 2, userspace_addr: 0x8000 };
    assert_eq!(s.start(), 0x8000);
    assert_eq!(s.size(), 8192);
    assert_eq!(s.end(), 0x8000 + 8192);
    assert_eq!(s.physical_start(), 3 * 4096);
}

#[test]
fn get_vcpu_maps_filters_and_orders_by_index() {
    let maps = vec![
        plain_mapping(0x1000, 0x2000, b"anon_inode:kvm-vcpu:1"),
        plain_mapping(0x3000, 0x4000, b"[heap]"),
        plain_mapping(0x5000, 0x6000, b"anon_inode:kvm-vcpu:0"),
    ];
    let out = get_vcpu_maps(maps).unwrap();
    assert_eq!(out.len(), 2);
    assert_eq!(out[0].start, 0x5000);
    assert_eq!(out[1].start, 0x1000);
}

#[test]
fn get_vcpu_maps_rejects_unparsable_suffix() {
    let maps = vec![plain_mapping(0x1000, 0x2000, b"anon_inode:kvm-vcpu:zz")];
    assert_eq!(get_vcpu_maps(maps).map(|_| ()), Err(Error::Configuration));
}

#[test]
fn little_endian_fields_round_trip() {
    let mut buf = vec![0u8; 16];
    vmsh::bytes::write_u16_le(&mut buf, 0, 0xbeef);
    vmsh::bytes::write_u32_le(&mut buf, 2, 0xdead_beef);
    vmsh::bytes::write_u64_le(&mut buf, 6, 0x0102_0304_0506_0708);
    assert_eq!(vmsh::bytes::read_u16_le(&buf, 0), 0xbeef);
    assert_eq!(vmsh::bytes::read_u32_le(&buf, 2), 0xdead_beef);
    assert_eq!(vmsh::bytes::read_u64_le(&buf, 6), 0x0102_0304_0506_0708);
    assert_eq!(buf[0], 0xef);
    assert_eq!(buf[1], 0xbe);
    assert_eq!(buf[6], 0x08);
    assert_eq!(buf[13], 0x01);
}

#[test]
fn resolve_memslots_handles_several_slots() {
    let maps = vec![
        plain_mapping(0x10000, 0x20000, b"ram-a"),
        plain_mapping(0x30000, 0x40000, b"ram-b"),
    ];
    let slots = vec![
        MemSlot { base_gfn: 0, npages: 2, userspace_addr: 0x10000 },
        MemSlot { base_gfn: 2, npages: 2, userspace_addr: 0x30000 },
    ];
    let out = resolve_memslots(&slots, &maps).unwrap();
    assert_eq!(out.len(), 2);
    assert_eq!(out[0].pathname, b"ram-a".to_vec());
    assert_eq!(out[1].pathname, b"ram-b".to_vec());
    assert_eq!(out[1].phys_addr, 2 * 4096);
}
