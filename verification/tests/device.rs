//! Driving the block device as a VirtIO driver would: negotiation,
//! activation, requests through the rings, interrupts, reset.

use vmsh::block::Block;
use vmsh::block::MmioConfig;
use vmsh::block::CONFIG_SPACE_SIZE;
use vmsh::block::REG_CONFIG_SPACE;
use vmsh::block::REG_DEVICE_FEATURES;
use vmsh::block::REG_DEVICE_FEATURES_SEL;
use vmsh::block::REG_DEVICE_ID;
use vmsh::block::REG_DRIVER_FEATURES;
use vmsh::block::REG_DRIVER_FEATURES_SEL;
use vmsh::block::REG_INTERRUPT_ACK;
use vmsh::block::REG_INTERRUPT_STATUS;
use vmsh::block::REG_MAGIC;
use vmsh::block::REG_QUEUE_DESC_LOW;
use vmsh::block::REG_QUEUE_DEVICE_LOW;
use vmsh::block::REG_QUEUE_DRIVER_LOW;
use vmsh::block::REG_QUEUE_NOTIFY;
use vmsh::block::REG_QUEUE_NUM;
use vmsh::block::REG_QUEUE_NUM_MAX;
use vmsh::block::REG_QUEUE_READY;
use vmsh::block::REG_STATUS;
use vmsh::block::REG_VERSION;
use vmsh::guest_ram::GuestRam;
use vmsh::queue::VIRTIO_BLK_S_IOERR;
use vmsh::queue::VIRTIO_BLK_S_OK;
use vmsh::queue::VIRTIO_BLK_S_UNSUPP;
use vmsh::queue::VIRTIO_BLK_T_FLUSH;
use vmsh::queue::VIRTIO_BLK_T_GET_ID;
use vmsh::queue::VIRTIO_BLK_T_IN;
use vmsh::queue::VIRTIO_BLK_T_OUT;

const RAM_BASE: u64 = 0x1000;
const DESC_TABLE: u64 = 0x2000;
const AVAIL_RING: u64 = 0x3000;
const USED_RING: u64 = 0x4000;
const HEADER_BUF: u64 = 0x5000;
const DATA_BUF: u64 = 0x6000;
const STATUS_BUF: u64 = 0x7000;
const QSIZE: u64 = 256;

fn test_mmio() -> MmioConfig {
    MmioConfig { base: 0xd100_0000, len: 0x200, gsi: 5 }
}

fn test_disk(sectors: usize) -> Vec<u8> {
    let mut disk = vec![0u8; sectors * 512];
    for (i, b) in disk.iter_mut().enumerate() {
        *b = (i % 251) as u8;
    }
    disk
}

fn fresh_ram() -> GuestRam {
    GuestRam { base: RAM_BASE, mem: vec![0u8; 0x10000] }
}

/// Run the whole S1 negotiation on a fresh device and leave it activated.
fn negotiate_and_activate(dev: &mut Block) {
    dev.write_register(REG_STATUS, 1);
    dev.write_register(REG_STATUS, 3);
    // Read both feature words.
    dev.write_register(REG_DEVICE_FEATURES_SEL, 0);
    let low = dev.read_register(REG_DEVICE_FEATURES);
    dev.write_register(REG_DEVICE_FEATURES_SEL, 1);
    let high = dev.read_register(REG_DEVICE_FEATURES);
    // Acknowledge everything advertised.
    dev.write_register(REG_DRIVER_FEATURES_SEL, 0);
    dev.write_register(REG_DRIVER_FEATURES, low);
    dev.write_register(REG_DRIVER_FEATURES_SEL, 1);
    dev.write_register(REG_DRIVER_FEATURES, high);
    dev.write_register(REG_STATUS, 11);
    assert_eq!(dev.read_register(REG_STATUS), 11);
    // Queue 0: size, ring addresses, ready.
    dev.write_register(REG_QUEUE_NUM, QSIZE as u32);
    dev.write_register(REG_QUEUE_DESC_LOW, DESC_TABLE as u32);
    dev.write_register(REG_QUEUE_DRIVER_LOW, AVAIL_RING as u32);
    dev.write_register(REG_QUEUE_DEVICE_LOW, USED_RING as u32);
    dev.write_register(REG_QUEUE_READY, 1);
    dev.write_register(REG_STATUS, 15);
    assert!(dev.device_activated);
}

/// Put one three-descriptor request chain into the rings.
fn push_request(ram: &mut GuestRam, req_type: u32, sector: u64, data_len: u32, avail_idx: u16) {
    // Descriptor 0: header, read-only for the device, chains to 1.
    ram.write_u64(DESC_TABLE, HEADER_BUF);
    ram.write_u32(DESC_TABLE + 8, 16);
    ram.write_u16(DESC_TABLE + 12, 1);
    ram.write_u16(DESC_TABLE + 14, 1);
    // Descriptor 1: data, chains to 2.
    let data_flags: u16 = if req_type == VIRTIO_BLK_T_IN || req_type == VIRTIO_BLK_T_GET_ID {
        1 | 2
    } else {
        1
    };
    ram.write_u64(DESC_TABLE + 16, DATA_BUF);
    ram.write_u32(DESC_TABLE + 16 + 8, data_len);
    ram.write_u16(DESC_TABLE + 16 + 12, data_flags);
    ram.write_u16(DESC_TABLE + 16 + 14, 2);
    // Descriptor 2: status byte, device-writable, end of chain.
    ram.write_u64(DESC_TABLE + 32, STATUS_BUF);
    ram.write_u32(DESC_TABLE + 32 + 8, 1);
    ram.write_u16(DESC_TABLE + 32 + 12, 2);
    ram.write_u16(DESC_TABLE + 32 + 14, 0);
    // Request header.
    ram.write_u32(HEADER_BUF, req_type);
    ram.write_u64(HEADER_BUF + 8, sector);
    // Available ring: one entry pointing at chain head 0.
    ram.write_u16(AVAIL_RING + 4 + 2 * ((avail_idx as u64 - 1) % QSIZE), 0);
    ram.write_u16(AVAIL_RING + 2, avail_idx);
    // used_event: keep asking for interrupts.
    ram.write_u16(AVAIL_RING + 4 + 2 * QSIZE, avail_idx.wrapping_sub(1));
}

#[test]
fn feature_negotiation_reads_advertised_bits() {
    // S1: the device must advertise VERSION_1 + IN_ORDER + RING_EVENT_IDX,
    // which live at bit 32, bit 35 and bit 29 of the feature word.
    let mut dev = Block::new(test_disk(8), false, false, test_mmio());
    assert_eq!(dev.read_register(REG_MAGIC), 0x7472_6976);
    assert_eq!(dev.read_register(REG_VERSION), 2);
    assert_eq!(dev.read_register(REG_DEVICE_ID), 2);
    dev.write_register(REG_STATUS, 1);
    dev.write_register(REG_STATUS, 3);
    dev.write_register(REG_DEVICE_FEATURES_SEL, 0);
    assert_eq!(dev.read_register(REG_DEVICE_FEATURES), 0x2000_0000);
    dev.write_register(REG_DEVICE_FEATURES_SEL, 1);
    assert_eq!(dev.read_register(REG_DEVICE_FEATURES), 0x9);
    dev.write_register(REG_DRIVER_FEATURES_SEL, 0);
    dev.write_register(REG_DRIVER_FEATURES, 0x2000_0000);
    dev.write_register(REG_DRIVER_FEATURES_SEL, 1);
    dev.write_register(REG_DRIVER_FEATURES, 0x9);
    dev.write_register(REG_STATUS, 11);
    let status = dev.read_register(REG_STATUS);
    assert_eq!(status & 8, 8);
    assert_eq!(status, 11);
}

#[test]
fn read_only_device_advertises_ro_bit() {
    let dev = Block::new(test_disk(8), true, false, test_mmio());
    assert_ne!(dev.device_features & (1 << 5), 0);
}

#[test]
fn capacity_counts_sectors_of_backing() {
    let dev = Block::new(test_disk(8), false, false, test_mmio());
    // The first config-space bytes hold the capacity, little-endian.
    let mut cap: u64 = 0;
    for i in (0u64..8).rev() {
        cap = (cap << 8) | dev.read_config(REG_CONFIG_SPACE + i) as u64;
    }
    assert_eq!(cap, 8);
    assert_eq!(CONFIG_SPACE_SIZE, 32);
}

#[test]
fn queue_num_max_reports_queue_depth() {
    let dev = Block::new(test_disk(8), false, false, test_mmio());
    assert_eq!(dev.read_register(REG_QUEUE_NUM_MAX), 256);
}

#[test]
fn activation_requires_version_1() {
    // Without VERSION_1 in the driver features, DRIVER_OK must not activate.
    let mut dev = Block::new(test_disk(8), false, false, test_mmio());
    dev.write_register(REG_STATUS, 1);
    dev.write_register(REG_STATUS, 3);
    dev.write_register(REG_DRIVER_FEATURES_SEL, 0);
    dev.write_register(REG_DRIVER_FEATURES, 0x2000_0000);
    dev.write_register(REG_STATUS, 11);
    dev.write_register(REG_STATUS, 15);
    assert!(!dev.device_activated);
    assert_eq!(dev.read_register(REG_STATUS), 15);
}

#[test]
fn activation_is_one_shot_until_reset() {
    let mut dev = Block::new(test_disk(8), false, false, test_mmio());
    negotiate_and_activate(&mut dev);
    let before = dev.read_register(REG_STATUS);
    dev.write_register(REG_STATUS, 15);
    assert!(dev.device_activated);
    assert_eq!(dev.read_register(REG_STATUS), before);
}

#[test]
fn activate_and_read_sector_zero() {
    // S2: after negotiation, an IN request for sector 0 of length 512 ends
    // with 513 bytes written, status OK, and the data matching the backing.
    let disk = test_disk(8);
    let first_sector: Vec<u8> = disk[0..512].to_vec();
    let mut dev = Block::new(disk, false, false, test_mmio());
    negotiate_and_activate(&mut dev);
    let mut ram = fresh_ram();
    push_request(&mut ram, VIRTIO_BLK_T_IN, 0, 512, 1);
    dev.write_register(REG_QUEUE_NOTIFY, 0);
    assert!(dev.notified);
    let (entries, signalled) = dev.process_queue(&mut ram).unwrap();
    assert_eq!(entries.len(), 1);
    assert_eq!(entries[0].id, 0);
    assert_eq!(entries[0].len, 513);
    assert_eq!(entries[0].status, VIRTIO_BLK_S_OK);
    assert!(signalled);
    assert_eq!(ram.read_u8(STATUS_BUF), VIRTIO_BLK_S_OK);
    assert_eq!(ram.read_bytes(DATA_BUF, 512), first_sector);
    // The used ring holds the response: id 0, 513 bytes.
    assert_eq!(ram.read_u16(USED_RING + 2), 1);
    assert_eq!(ram.read_u32(USED_RING + 4), 0);
    assert_eq!(ram.read_u32(USED_RING + 8), 513);
}

#[test]
fn read_only_device_refuses_writes() {
    // S3: an OUT request on a read-only device ends with IOERR, the
    // used-buffer interrupt bit set, and the interrupt raised exactly once.
    let mut dev = Block::new(test_disk(8), true, false, test_mmio());
    negotiate_and_activate(&mut dev);
    let mut ram = fresh_ram();
    push_request(&mut ram, VIRTIO_BLK_T_OUT, 0, 512, 1);
    let (entries, signalled) = dev.process_queue(&mut ram).unwrap();
    assert_eq!(entries.len(), 1);
    assert_eq!(entries[0].status, VIRTIO_BLK_S_IOERR);
    assert_eq!(ram.read_u8(STATUS_BUF), VIRTIO_BLK_S_IOERR);
    assert!(signalled);
    assert_eq!(dev.read_register(REG_INTERRUPT_STATUS) & 1, 1);
    assert_eq!(dev.irq_signals, 1);
}

#[test]
fn write_then_read_round_trips() {
    // A sector written through the device comes back unchanged.
    let mut dev = Block::new(test_disk(8), false, false, test_mmio());
    negotiate_and_activate(&mut dev);
    let mut ram = fresh_ram();
    let payload: Vec<u8> = (0..512).map(|i| (255 - (i % 256)) as u8).collect();
    ram.write_bytes(DATA_BUF, &payload);
    push_request(&mut ram, VIRTIO_BLK_T_OUT, 3, 512, 1);
    let (entries, _) = dev.process_queue(&mut ram).unwrap();
    assert_eq!(entries[0].status, VIRTIO_BLK_S_OK);
    assert_eq!(entries[0].len, 1);
    // Now read it back.
    ram.write_bytes(DATA_BUF, &vec![0u8; 512]);
    push_request(&mut ram, VIRTIO_BLK_T_IN, 3, 512, 2);
    let (entries, _) = dev.process_queue(&mut ram).unwrap();
    assert_eq!(entries[0].status, VIRTIO_BLK_S_OK);
    assert_eq!(ram.read_bytes(DATA_BUF, 512), payload);
}

#[test]
fn out_of_range_sector_is_ioerr() {
    let mut dev = Block::new(test_disk(8), false, false, test_mmio());
    negotiate_and_activate(&mut dev);
    let mut ram = fresh_ram();
    push_request(&mut ram, VIRTIO_BLK_T_IN, 8, 512, 1);
    let (entries, _) = dev.process_queue(&mut ram).unwrap();
    assert_eq!(entries[0].status, VIRTIO_BLK_S_IOERR);
}

#[test]
fn flush_without_negotiation_is_unsupported() {
    let mut dev = Block::new(test_disk(8), false, false, test_mmio());
    negotiate_and_activate(&mut dev);
    let mut ram = fresh_ram();
    push_request(&mut ram, VIRTIO_BLK_T_FLUSH, 0, 0, 1);
    let (entries, _) = dev.process_queue(&mut ram).unwrap();
    assert_eq!(entries[0].status, VIRTIO_BLK_S_UNSUPP);
}

#[test]
fn unknown_request_type_is_unsupported() {
    let mut dev = Block::new(test_disk(8), false, false, test_mmio());
    negotiate_and_activate(&mut dev);
    let mut ram = fresh_ram();
    push_request(&mut ram, 77, 0, 16, 1);
    let (entries, _) = dev.process_queue(&mut ram).unwrap();
    assert_eq!(entries[0].status, VIRTIO_BLK_S_UNSUPP);
}

#[test]
fn get_id_returns_serial() {
    let mut dev = Block::new(test_disk(8), false, false, test_mmio());
    negotiate_and_activate(&mut dev);
    let mut ram = fresh_ram();
    push_request(&mut ram, VIRTIO_BLK_T_GET_ID, 0, 20, 1);
    let (entries, _) = dev.process_queue(&mut ram).unwrap();
    assert_eq!(entries[0].status, VIRTIO_BLK_S_OK);
    assert_eq!(entries[0].len, 21);
    let id = ram.read_bytes(DATA_BUF, 5);
    assert_eq!(id, b"vmsh0".to_vec());
}

#[test]
fn interrupt_ack_clears_only_acknowledged_bits() {
    // The used-buffer bit set by the device goes away only through a write
    // to interrupt-ack with a matching mask.
    let mut dev = Block::new(test_disk(8), false, false, test_mmio());
    negotiate_and_activate(&mut dev);
    let mut ram = fresh_ram();
    push_request(&mut ram, VIRTIO_BLK_T_IN, 0, 512, 1);
    dev.process_queue(&mut ram).unwrap();
    assert_eq!(dev.read_register(REG_INTERRUPT_STATUS), 1);
    // Unrelated register writes leave the bit alone.
    dev.write_register(REG_QUEUE_NOTIFY, 0);
    dev.write_register(REG_DEVICE_FEATURES_SEL, 1);
    assert_eq!(dev.read_register(REG_INTERRUPT_STATUS), 1);
    // An ack of a different bit leaves it alone; the matching ack clears.
    dev.write_register(REG_INTERRUPT_ACK, 2);
    assert_eq!(dev.read_register(REG_INTERRUPT_STATUS), 1);
    dev.write_register(REG_INTERRUPT_ACK, 1);
    assert_eq!(dev.read_register(REG_INTERRUPT_STATUS), 0);
}

#[test]
fn used_event_suppresses_interrupt() {
    // With RING_EVENT_IDX negotiated and used_event far ahead, no interrupt
    // is raised for the batch.
    let mut dev = Block::new(test_disk(8), false, false, test_mmio());
    negotiate_and_activate(&mut dev);
    let mut ram = fresh_ram();
    push_request(&mut ram, VIRTIO_BLK_T_IN, 0, 512, 1);
    // used_event = 5: the device's new used index 1 has not passed it.
    ram.write_u16(AVAIL_RING + 4 + 2 * QSIZE, 5);
    let (entries, signalled) = dev.process_queue(&mut ram).unwrap();
    assert_eq!(entries.len(), 1);
    assert!(!signalled);
    assert_eq!(dev.irq_signals, 0);
    assert_eq!(dev.read_register(REG_INTERRUPT_STATUS), 0);
}

#[test]
fn reset_allows_full_reactivation() {
    // Resetting the device returns it to a state from which the whole
    // activation sequence succeeds again.
    let mut dev = Block::new(test_disk(8), false, false, test_mmio());
    negotiate_and_activate(&mut dev);
    dev.write_register(REG_STATUS, 0);
    assert!(!dev.device_activated);
    assert_eq!(dev.read_register(REG_STATUS), 0);
    assert_eq!(dev.read_register(REG_INTERRUPT_STATUS), 0);
    negotiate_and_activate(&mut dev);
    assert!(dev.device_activated);
}

#[test]
fn failed_status_is_terminal_until_reset() {
    let mut dev = Block::new(test_disk(8), false, false, test_mmio());
    dev.write_register(REG_STATUS, 1);
    dev.write_register(REG_STATUS, 128);
    let after_fail = dev.read_register(REG_STATUS);
    assert_eq!(after_fail & 128, 128);
    dev.write_register(REG_STATUS, 3);
    assert_eq!(dev.read_register(REG_STATUS), after_fail);
    dev.write_register(REG_STATUS, 0);
    assert_eq!(dev.read_register(REG_STATUS), 0);
}

#[test]
fn missing_status_descriptor_yields_empty_used_entry() {
    // A chain of one descriptor has no status byte to write: the used entry
    // reports zero bytes.
    let mut dev = Block::new(test_disk(8), false, false, test_mmio());
    negotiate_and_activate(&mut dev);
    let mut ram = fresh_ram();
    ram.write_u64(DESC_TABLE, HEADER_BUF);
    ram.write_u32(DESC_TABLE + 8, 16);
    ram.write_u16(DESC_TABLE + 12, 0);
    ram.write_u16(DESC_TABLE + 14, 0);
    ram.write_u16(AVAIL_RING + 4, 0);
    ram.write_u16(AVAIL_RING + 2, 1);
    let (entries, _) = dev.process_queue(&mut ram).unwrap();
    assert_eq!(entries.len(), 1);
    assert_eq!(entries[0].len, 0);
    assert_eq!(entries[0].status, VIRTIO_BLK_S_UNSUPP);
}

#[test]
fn wrong_header_length_is_unsupported() {
    let mut dev = Block::new(test_disk(8), false, false, test_mmio());
    negotiate_and_activate(&mut dev);
    let mut ram = fresh_ram();
    push_request(&mut ram, VIRTIO_BLK_T_IN, 0, 512, 1);
    // Break the header descriptor's length.
    ram.write_u32(DESC_TABLE + 8, 8);
    let (entries, _) = dev.process_queue(&mut ram).unwrap();
    assert_eq!(entries[0].status, VIRTIO_BLK_S_UNSUPP);
    assert_eq!(ram.read_u8(STATUS_BUF), VIRTIO_BLK_S_UNSUPP);
}

#[test]
fn responses_keep_available_order() {
    // Two chains in one batch produce used entries in consumption order.
    let mut dev = Block::new(test_disk(8), false, false, test_mmio());
    negotiate_and_activate(&mut dev);
    let mut ram = fresh_ram();
    // Chain A: descriptors 0..=2, header for sector 0.
    push_request(&mut ram, VIRTIO_BLK_T_IN, 0, 512, 1);
    // Chain B: descriptors 3..=5, header at a second buffer, sector 1.
    let header2 = HEADER_BUF + 0x100;
    let data2 = DATA_BUF + 0x400;
    let status2 = STATUS_BUF + 0x10;
    ram.write_u64(DESC_TABLE + 48, header2);
    ram.write_u32(DESC_TABLE + 48 + 8, 16);
    ram.write_u16(DESC_TABLE + 48 + 12, 1);
    ram.write_u16(DESC_TABLE + 48 + 14, 4);
    ram.write_u64(DESC_TABLE + 64, data2);
    ram.write_u32(DESC_TABLE + 64 + 8, 512);
    ram.write_u16(DESC_TABLE + 64 + 12, 1 | 2);
    ram.write_u16(DESC_TABLE + 64 + 14, 5);
    ram.write_u64(DESC_TABLE + 80, status2);
    ram.write_u32(DESC_TABLE + 80 + 8, 1);
    ram.write_u16(DESC_TABLE + 80 + 12, 2);
    ram.write_u16(DESC_TABLE + 80 + 14, 0);
    ram.write_u32(header2, VIRTIO_BLK_T_IN);
    ram.write_u64(header2 + 8, 1);
    ram.write_u16(AVAIL_RING + 4, 0);
    ram.write_u16(AVAIL_RING + 4 + 2, 3);
    ram.write_u16(AVAIL_RING + 2, 2);
    let (entries, _) = dev.process_queue(&mut ram).unwrap();
    assert_eq!(entries.len(), 2);
    assert_eq!(entries[0].id, 0);
    assert_eq!(entries[1].id, 3);
    assert_eq!(entries[0].avail_slot, 0);
    assert_eq!(entries[1].avail_slot, 1);
    assert_eq!(entries[0].used_slot, 0);
    assert_eq!(entries[1].used_slot, 1);
    // The used ring itself shows A at slot 0, B at slot 1.
    assert_eq!(ram.read_u32(USED_RING + 4), 0);
    assert_eq!(ram.read_u32(USED_RING + 12), 3);
    assert_eq!(ram.read_u16(USED_RING + 2), 2);
}

#[test]
fn mmio_entry_points_read_and_write_registers() {
    let mut dev = Block::new(test_disk(8), false, false, test_mmio());
    let mut data = vec![0u8; 4];
    dev.mmio_read(REG_MAGIC, &mut data);
    assert_eq!(data, vec![0x76, 0x69, 0x72, 0x74]);
    dev.mmio_write(REG_STATUS, &vec![1, 0, 0, 0]);
    assert_eq!(dev.read_register(REG_STATUS), 1);
    let mut one = vec![0u8; 1];
    dev.mmio_read(REG_CONFIG_SPACE + 12, &mut one);
    assert_eq!(one[0], b'v');
    // Misaligned or mis-sized accesses change nothing.
    let mut odd = vec![0u8; 3];
    dev.mmio_read(REG_MAGIC, &mut odd);
    assert_eq!(odd, vec![0u8; 3]);
}

#[test]
fn device_type_is_block() {
    let dev = Block::new(test_disk(1), false, false, test_mmio());
    assert_eq!(dev.device_type(), 2);
}

#[test]
fn queue_notify_marks_doorbell_pending() {
    let mut dev = Block::new(test_disk(1), false, false, test_mmio());
    assert!(!dev.notified);
    dev.queue_notify(0);
    assert!(dev.notified);
}

#[test]
fn empty_batch_raises_no_interrupt() {
    let mut dev = Block::new(test_disk(8), false, false, test_mmio());
    negotiate_and_activate(&mut dev);
    let mut ram = fresh_ram();
    let (entries, signalled) = dev.process_queue(&mut ram).unwrap();
    assert!(entries.is_empty());
    assert!(!signalled);
    assert_eq!(dev.irq_signals, 0);
    assert_eq!(dev.read_register(REG_INTERRUPT_STATUS), 0);
}

#[test]
fn ring_counters_wrap_at_sixteen_bits() {
    let mut dev = Block::new(test_disk(8), false, false, test_mmio());
    negotiate_and_activate(&mut dev);
    dev.queue.next_avail = 65535;
    dev.queue.next_used = 65535;
    let mut ram = fresh_ram();
    push_request(&mut ram, VIRTIO_BLK_T_IN, 0, 512, 0);
    // The chain sits in the wrapped slot 65535 % 256.
    ram.write_u16(AVAIL_RING + 4 + 2 * (65535 % QSIZE), 0);
    ram.write_u16(AVAIL_RING + 2, 0);
    let (entries, _) = dev.process_queue(&mut ram).unwrap();
    assert_eq!(entries.len(), 1);
    assert_eq!(entries[0].avail_slot, 65535);
    assert_eq!(entries[0].used_slot, 65535);
    assert_eq!(dev.queue.next_avail, 0);
    assert_eq!(dev.queue.next_used, 0);
    assert_eq!(ram.read_u16(USED_RING + 2), 0);
}
