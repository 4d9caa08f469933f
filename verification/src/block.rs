//! The VirtIO-MMIO block device: register map and status state machine.
//!
//! Register offsets, widths and feature-bit positions follow the VirtIO 1.x
//! MMIO transport, little-endian.  The device advertises `VERSION_1`,
//! `IN_ORDER` and `RING_EVENT_IDX`, plus `BLK_F_RO` when the backing is
//! read-only and `BLK_F_FLUSH` when asked to.  Status bits accumulate; a
//! write of zero resets the device; a write carrying `FAILED` is terminal
//! until reset.  Writing `DRIVER_OK` activates the device, which fails when
//! `VERSION_1` was not acknowledged or the device is already activated.

use vstd::prelude::*;

use crate::QUEUE_MAX_SIZE;

verus! {

/// Feature bit: the device is VirtIO 1.x (no legacy driver support).
pub const VIRTIO_F_VERSION_1: u64 = 32;

/// Feature bit: event-index interrupt suppression on the rings.
pub const VIRTIO_F_RING_EVENT_IDX: u64 = 29;

/// Feature bit: the device uses buffers in the order they were made
/// available.
pub const VIRTIO_F_IN_ORDER: u64 = 35;

/// Feature bit: the block backing is read-only.
pub const VIRTIO_BLK_F_RO: u64 = 5;

/// Feature bit: the device supports flush requests.
pub const VIRTIO_BLK_F_FLUSH: u64 = 9;

/// Status bit: the driver noticed the device.
pub const STATUS_ACKNOWLEDGE: u8 = 1;

/// Status bit: the driver can drive the device.
pub const STATUS_DRIVER: u8 = 2;

/// Status bit: the driver is ready; the device activates.
pub const STATUS_DRIVER_OK: u8 = 4;

/// Status bit: feature negotiation is complete.
pub const STATUS_FEATURES_OK: u8 = 8;

/// Status bit: the driver gave up on the device.
pub const STATUS_FAILED: u8 = 128;

/// Interrupt-status bit: the device used a buffer.
pub const INT_USED_BUFFER: u32 = 1;

/// VirtIO-MMIO register offsets.
pub const REG_MAGIC: u64 = 0x0;

pub const REG_VERSION: u64 = 0x4;

pub const REG_DEVICE_ID: u64 = 0x8;

pub const REG_VENDOR_ID: u64 = 0xc;

pub const REG_DEVICE_FEATURES: u64 = 0x10;

pub const REG_DEVICE_FEATURES_SEL: u64 = 0x14;

pub const REG_DRIVER_FEATURES: u64 = 0x20;

pub const REG_DRIVER_FEATURES_SEL: u64 = 0x24;

pub const REG_QUEUE_SEL: u64 = 0x30;

pub const REG_QUEUE_NUM_MAX: u64 = 0x34;

pub const REG_QUEUE_NUM: u64 = 0x38;

pub const REG_QUEUE_READY: u64 = 0x44;

pub const REG_QUEUE_NOTIFY: u64 = 0x50;

pub const REG_INTERRUPT_STATUS: u64 = 0x60;

pub const REG_INTERRUPT_ACK: u64 = 0x64;

pub const REG_STATUS: u64 = 0x70;

pub const REG_QUEUE_DESC_LOW: u64 = 0x80;

pub const REG_QUEUE_DESC_HIGH: u64 = 0x84;

pub const REG_QUEUE_DRIVER_LOW: u64 = 0x90;

pub const REG_QUEUE_DRIVER_HIGH: u64 = 0x94;

pub const REG_QUEUE_DEVICE_LOW: u64 = 0xa0;

pub const REG_QUEUE_DEVICE_HIGH: u64 = 0xa4;

pub const REG_CONFIG_GENERATION: u64 = 0xfc;

/// First byte of the device-specific configuration space.
pub const REG_CONFIG_SPACE: u64 = 0x100;

/// The MMIO magic value, `virt` in little-endian.
pub const MMIO_MAGIC_VALUE: u32 = 0x74726976;

/// The MMIO transport version: modern, 2.
pub const MMIO_VERSION: u32 = 2;

/// The VirtIO device id of a block device.
pub const BLOCK_DEVICE_ID: u32 = 2;

/// Byte length of the device configuration space: capacity, vendor id,
/// serial.
pub const CONFIG_SPACE_SIZE: usize = 32;

/// Bytes of one disk sector.
pub const SECTOR_SIZE: usize = 512;

/// The single virtqueue's registers and counters.
#[derive(Clone, Copy, Debug, PartialEq, Eq, Structural)]
pub struct QueueState {
    /// Queue size chosen by the driver.
    pub size: u16,
    /// The driver marked the queue ready.
    pub ready: bool,
    /// Guest-physical address of the descriptor table.
    pub desc_addr: u64,
    /// Guest-physical address of the available ring.
    pub avail_addr: u64,
    /// Guest-physical address of the used ring.
    pub used_addr: u64,
    /// Next available-ring slot the device will consume (free-running).
    pub next_avail: u16,
    /// Next used-ring slot the device will produce (free-running).
    pub next_used: u16,
}

/// Placement of the device on the MMIO bus.
#[derive(Clone, Copy, Debug, PartialEq, Eq, Structural)]
pub struct MmioConfig {
    /// Guest-physical base of the register range.
    pub base: u64,
    /// Length of the register range.
    pub len: u64,
    /// The interrupt line assigned to the device.
    pub gsi: u32,
}

/// The block device.
pub struct Block {
    /// Features the device advertises.
    pub device_features: u64,
    /// Features the driver acknowledged.
    pub driver_features: u64,
    /// Which 32-bit word of the device features is read.
    pub device_features_sel: u32,
    /// Which 32-bit word of the driver features is written.
    pub driver_features_sel: u32,
    /// Which queue the queue registers address; the device has queue 0 only.
    pub queue_sel: u32,
    /// The single queue.
    pub queue: QueueState,
    /// Pending interrupt reasons.
    pub interrupt_status: u32,
    /// The device status byte.
    pub status: u8,
    /// Bumped when the configuration space changes.
    pub config_generation: u32,
    /// Device-specific configuration: capacity, vendor id, serial.
    pub config_space: Vec<u8>,
    /// Activation is one-shot until reset.
    pub device_activated: bool,
    /// The backing is read-only.
    pub read_only: bool,
    /// Placement on the MMIO bus.
    pub mmio: MmioConfig,
    /// The backing disk image.
    pub disk: Vec<u8>,
    /// Times the device raised its interrupt.
    pub irq_signals: u64,
    /// A queue-notify doorbell has not been served yet.
    pub notified: bool,
}

/// Mask of the four status bits a complete activation sequence sets.
pub const STATUS_ALL_SET: u8 = 15;

/// Mask of the acknowledged `VERSION_1` bit inside the 64-bit feature word.
pub const VERSION_1_MASK: u64 = 0x1_0000_0000;

impl Block {
    /// The device invariant: an activated device has seen the full
    /// activation sequence and a `VERSION_1` driver, and the configuration
    /// space keeps its shape.
    pub open spec fn wf(self) -> bool {
        &&& self.device_activated ==> (self.status & STATUS_ALL_SET == STATUS_ALL_SET
            && self.driver_features & VERSION_1_MASK != 0)
        &&& self.config_space@.len() == CONFIG_SPACE_SIZE
    }
}

/// The feature word a block device advertises.
pub open spec fn spec_device_features(read_only: bool, advertise_flush: bool) -> u64 {
    (1u64 << VIRTIO_F_VERSION_1) | (1u64 << VIRTIO_F_IN_ORDER) | (1u64 << VIRTIO_F_RING_EVENT_IDX)
        | (if read_only {
        1u64 << VIRTIO_BLK_F_RO
    } else {
        0
    }) | (if advertise_flush {
        1u64 << VIRTIO_BLK_F_FLUSH
    } else {
        0
    })
}

/// A reset device: status and negotiation state cleared, activation undone.
/// The advertised features, the configuration space and the backing stay.
pub open spec fn spec_reset(d: Block) -> Block {
    Block {
        driver_features: 0,
        device_features_sel: 0,
        driver_features_sel: 0,
        queue_sel: 0,
        queue: QueueState {
            size: QUEUE_MAX_SIZE,
            ready: false,
            desc_addr: 0,
            avail_addr: 0,
            used_addr: 0,
            next_avail: 0,
            next_used: 0,
        },
        interrupt_status: 0,
        status: 0,
        device_activated: false,
        notified: false,
        ..d
    }
}

/// Activation: one-shot, and only for a `VERSION_1` driver.
pub open spec fn spec_try_activate(d: Block) -> Block {
    if !d.device_activated && d.driver_features & VERSION_1_MASK != 0 {
        Block { device_activated: true, ..d }
    } else {
        d
    }
}

/// A write to the status register.  Zero resets; bits accumulate and are
/// never taken away; a status carrying `FAILED` is terminal until reset;
/// gaining `DRIVER_OK` after the three negotiation bits activates.
pub open spec fn spec_write_status(d: Block, v: u8) -> Block {
    if v == 0 {
        spec_reset(d)
    } else if d.status & STATUS_FAILED != 0 {
        d
    } else {
        let ns = d.status | v;
        let d2 = Block { status: ns, ..d };
        if ns & STATUS_ALL_SET == STATUS_ALL_SET {
            spec_try_activate(d2)
        } else {
            d2
        }
    }
}

/// A write to a device register, as a transition of the device state.
/// Driver features are accepted only until the driver sets `FEATURES_OK`.
pub open spec fn spec_write_register(d: Block, offset: u64, v: u32) -> Block {
    if offset == REG_DEVICE_FEATURES_SEL {
        Block { device_features_sel: v, ..d }
    } else if offset == REG_DRIVER_FEATURES {
        if d.status & STATUS_FEATURES_OK != 0 {
            d
        } else if d.driver_features_sel == 0 {
            Block { driver_features: (d.driver_features & 0xffff_ffff_0000_0000) | (v as u64), ..d }
        } else if d.driver_features_sel == 1 {
            Block { driver_features: (d.driver_features & 0xffff_ffff) | ((v as u64) << 32), ..d }
        } else {
            d
        }
    } else if offset == REG_DRIVER_FEATURES_SEL {
        Block { driver_features_sel: v, ..d }
    } else if offset == REG_QUEUE_SEL {
        Block { queue_sel: v, ..d }
    } else if offset == REG_QUEUE_NUM {
        if d.queue_sel == 0 {
            Block { queue: QueueState { size: (v & 0xffff) as u16, ..d.queue }, ..d }
        } else {
            d
        }
    } else if offset == REG_QUEUE_READY {
        if d.queue_sel == 0 {
            Block { queue: QueueState { ready: v == 1, ..d.queue }, ..d }
        } else {
            d
        }
    } else if offset == REG_QUEUE_NOTIFY {
        Block { notified: true, ..d }
    } else if offset == REG_INTERRUPT_ACK {
        Block { interrupt_status: d.interrupt_status & !v, ..d }
    } else if offset == REG_STATUS {
        spec_write_status(d, (v & 0xff) as u8)
    } else if offset == REG_QUEUE_DESC_LOW {
        if d.queue_sel == 0 {
            Block {
                queue: QueueState {
                    desc_addr: (d.queue.desc_addr & 0xffff_ffff_0000_0000) | (v as u64),
                    ..d.queue
                },
                ..d
            }
        } else {
            d
        }
    } else if offset == REG_QUEUE_DESC_HIGH {
        if d.queue_sel == 0 {
            Block {
                queue: QueueState {
                    desc_addr: (d.queue.desc_addr & 0xffff_ffff) | ((v as u64) << 32),
                    ..d.queue
                },
                ..d
            }
        } else {
            d
        }
    } else if offset == REG_QUEUE_DRIVER_LOW {
        if d.queue_sel == 0 {
            Block {
                queue: QueueState {
                    avail_addr: (d.queue.avail_addr & 0xffff_ffff_0000_0000) | (v as u64),
                    ..d.queue
                },
                ..d
            }
        } else {
            d
        }
    } else if offset == REG_QUEUE_DRIVER_HIGH {
        if d.queue_sel == 0 {
            Block {
                queue: QueueState {
                    avail_addr: (d.queue.avail_addr & 0xffff_ffff) | ((v as u64) << 32),
                    ..d.queue
                },
                ..d
            }
        } else {
            d
        }
    } else if offset == REG_QUEUE_DEVICE_LOW {
        if d.queue_sel == 0 {
            Block {
                queue: QueueState {
                    used_addr: (d.queue.used_addr & 0xffff_ffff_0000_0000) | (v as u64),
                    ..d.queue
                },
                ..d
            }
        } else {
            d
        }
    } else if offset == REG_QUEUE_DEVICE_HIGH {
        if d.queue_sel == 0 {
            Block {
                queue: QueueState {
                    used_addr: (d.queue.used_addr & 0xffff_ffff) | ((v as u64) << 32),
                    ..d.queue
                },
                ..d
            }
        } else {
            d
        }
    } else {
        d
    }
}

/// A read of a device register.
pub open spec fn spec_read_register(d: Block, offset: u64) -> u32 {
    if offset == REG_MAGIC {
        MMIO_MAGIC_VALUE
    } else if offset == REG_VERSION {
        MMIO_VERSION
    } else if offset == REG_DEVICE_ID {
        BLOCK_DEVICE_ID
    } else if offset == REG_VENDOR_ID {
        0
    } else if offset == REG_DEVICE_FEATURES {
        if d.device_features_sel == 0 {
            (d.device_features & 0xffff_ffff) as u32
        } else if d.device_features_sel == 1 {
            ((d.device_features >> 32) & 0xffff_ffff) as u32
        } else {
            0
        }
    } else if offset == REG_QUEUE_NUM_MAX {
        if d.queue_sel == 0 {
            QUEUE_MAX_SIZE as u32
        } else {
            0
        }
    } else if offset == REG_QUEUE_READY {
        if d.queue_sel == 0 && d.queue.ready {
            1
        } else {
            0
        }
    } else if offset == REG_INTERRUPT_STATUS {
        d.interrupt_status
    } else if offset == REG_STATUS {
        d.status as u32
    } else if offset == REG_CONFIG_GENERATION {
        d.config_generation
    } else {
        0
    }
}

impl Block {
    /// Read a device register.
    pub fn read_register(&self, offset: u64) -> (r: u32)
        ensures
            r == spec_read_register(*self, offset),
    {
        if offset == REG_MAGIC {
            MMIO_MAGIC_VALUE
        } else if offset == REG_VERSION {
            MMIO_VERSION
        } else if offset == REG_DEVICE_ID {
            BLOCK_DEVICE_ID
        } else if offset == REG_VENDOR_ID {
            0
        } else if offset == REG_DEVICE_FEATURES {
            if self.device_features_sel == 0 {
                (self.device_features & 0xffff_ffff) as u32
            } else if self.device_features_sel == 1 {
                ((self.device_features >> 32u64) & 0xffff_ffff) as u32
            } else {
                0
            }
        } else if offset == REG_QUEUE_NUM_MAX {
            if self.queue_sel == 0 {
                QUEUE_MAX_SIZE as u32
            } else {
                0
            }
        } else if offset == REG_QUEUE_READY {
            if self.queue_sel == 0 && self.queue.ready {
                1
            } else {
                0
            }
        } else if offset == REG_INTERRUPT_STATUS {
            self.interrupt_status
        } else if offset == REG_STATUS {
            self.status as u32
        } else if offset == REG_CONFIG_GENERATION {
            self.config_generation
        } else {
            0
        }
    }

    /// Read one byte of the device configuration space.
    pub fn read_config(&self, offset: u64) -> (r: u8)
        requires
            self.wf(),
            REG_CONFIG_SPACE <= offset < REG_CONFIG_SPACE + CONFIG_SPACE_SIZE,
        ensures
            r == self.config_space@[offset - REG_CONFIG_SPACE],
    {
        self.config_space[(offset - REG_CONFIG_SPACE) as usize]
    }

    /// Write a device register.
    pub fn write_register(&mut self, offset: u64, v: u32)
        requires
            old(self).wf(),
        ensures
            *final(self) == spec_write_register(*old(self), offset, v),
            final(self).wf(),
    {
        proof {
            assert(v & 0xff < 256 && v & 0xffff < 0x10000) by (bit_vector);
            let s = old(self).status;
            assert(s & 15u8 == 15u8 ==> s & 8u8 != 0) by (bit_vector);
        }
        if offset == REG_DEVICE_FEATURES_SEL {
            self.device_features_sel = v;
        } else if offset == REG_DRIVER_FEATURES {
            if self.status & STATUS_FEATURES_OK != 0 {
            } else if self.driver_features_sel == 0 {
                self.driver_features = (self.driver_features & 0xffff_ffff_0000_0000) | (v as u64);
            } else if self.driver_features_sel == 1 {
                self.driver_features = (self.driver_features & 0xffff_ffff) | ((v as u64) << 32u64);
            }
        } else if offset == REG_DRIVER_FEATURES_SEL {
            self.driver_features_sel = v;
        } else if offset == REG_QUEUE_SEL {
            self.queue_sel = v;
        } else if offset == REG_QUEUE_NUM {
            if self.queue_sel == 0 {
                self.queue.size = (v & 0xffff) as u16;
            }
        } else if offset == REG_QUEUE_READY {
            if self.queue_sel == 0 {
                self.queue.ready = v == 1;
            }
        } else if offset == REG_QUEUE_NOTIFY {
            self.notified = true;
        } else if offset == REG_INTERRUPT_ACK {
            self.interrupt_status = self.interrupt_status & !v;
        } else if offset == REG_STATUS {
            self.write_status((v & 0xff) as u8);
        } else if offset == REG_QUEUE_DESC_LOW {
            if self.queue_sel == 0 {
                self.queue.desc_addr = (self.queue.desc_addr & 0xffff_ffff_0000_0000) | (v as u64);
            }
        } else if offset == REG_QUEUE_DESC_HIGH {
            if self.queue_sel == 0 {
                self.queue.desc_addr = (self.queue.desc_addr & 0xffff_ffff) | ((v as u64)
                    << 32u64);
            }
        } else if offset == REG_QUEUE_DRIVER_LOW {
            if self.queue_sel == 0 {
                self.queue.avail_addr = (self.queue.avail_addr & 0xffff_ffff_0000_0000) | (
                v as u64);
            }
        } else if offset == REG_QUEUE_DRIVER_HIGH {
            if self.queue_sel == 0 {
                self.queue.avail_addr = (self.queue.avail_addr & 0xffff_ffff) | ((v as u64)
                    << 32u64);
            }
        } else if offset == REG_QUEUE_DEVICE_LOW {
            if self.queue_sel == 0 {
                self.queue.used_addr = (self.queue.used_addr & 0xffff_ffff_0000_0000) | (v as u64);
            }
        } else if offset == REG_QUEUE_DEVICE_HIGH {
            if self.queue_sel == 0 {
                self.queue.used_addr = (self.queue.used_addr & 0xffff_ffff) | ((v as u64)
                    << 32u64);
            }
        }
    }

    /// Write the status byte; see `spec_write_status`.
    fn write_status(&mut self, v: u8)
        requires
            old(self).wf(),
        ensures
            *final(self) == spec_write_status(*old(self), v),
            final(self).wf(),
    {
        proof {
            lemma_status_bits(v, old(self).status);
        }
        if v == 0 {
            self.driver_features = 0;
            self.device_features_sel = 0;
            self.driver_features_sel = 0;
            self.queue_sel = 0;
            self.queue = QueueState {
                size: QUEUE_MAX_SIZE,
                ready: false,
                desc_addr: 0,
                avail_addr: 0,
                used_addr: 0,
                next_avail: 0,
                next_used: 0,
            };
            self.interrupt_status = 0;
            self.status = 0;
            self.device_activated = false;
            self.notified = false;
        } else if self.status & STATUS_FAILED != 0 {
        } else {
            let ns = self.status | v;
            self.status = ns;
            if ns & STATUS_ALL_SET == STATUS_ALL_SET {
                if !self.device_activated && self.driver_features & VERSION_1_MASK != 0 {
                    self.device_activated = true;
                }
            }
        }
    }
}

/// Facts about the status byte: accumulation keeps old bits, and either the
/// old status had `DRIVER_OK` or it did not.
proof fn lemma_status_bits(v: u8, s: u8)
    ensures
        (s | v) & STATUS_DRIVER_OK != 0 <==> (s & STATUS_DRIVER_OK != 0 || v & STATUS_DRIVER_OK
            != 0),
        s & STATUS_DRIVER_OK != 0 && (s | v) & STATUS_ALL_SET == STATUS_ALL_SET ==> s
            & STATUS_ALL_SET != STATUS_ALL_SET || (s | v) & STATUS_DRIVER_OK != 0,
        s & STATUS_ALL_SET == STATUS_ALL_SET ==> (s | v) & STATUS_ALL_SET == STATUS_ALL_SET,
{
    assert(((s | v) & 4u8 != 0 <==> (s & 4u8 != 0 || v & 4u8 != 0)) && (s & 15u8 == 15u8 ==> (s
        | v) & 15u8 == 15u8)) by (bit_vector);
}

/// An activated device has seen the full activation sequence: all four
/// status bits are set and the driver acknowledged `VERSION_1`.
pub proof fn lemma_activated_implies_negotiated(d: Block)
    requires
        d.wf(),
        d.device_activated,
    ensures
        d.status & (STATUS_ACKNOWLEDGE | STATUS_DRIVER | STATUS_FEATURES_OK | STATUS_DRIVER_OK) == (
        STATUS_ACKNOWLEDGE | STATUS_DRIVER | STATUS_FEATURES_OK | STATUS_DRIVER_OK),
        d.driver_features & (1u64 << VIRTIO_F_VERSION_1) != 0,
{
    assert((1u8 | 2u8 | 8u8 | 4u8) == 15u8) by (bit_vector);
    assert((1u64 << 32u64) == 0x1_0000_0000u64) by (bit_vector);
}

/// Register writes never clear a pending interrupt bit, except a write to
/// the interrupt-ack register or a full reset.
pub proof fn lemma_interrupt_cleared_only_by_ack(d: Block, offset: u64, v: u32)
    requires
        offset != REG_INTERRUPT_ACK,
        !(offset == REG_STATUS && v & 0xff == 0),
    ensures
        spec_write_register(d, offset, v).interrupt_status & d.interrupt_status
            == d.interrupt_status,
{
    assert(v & 0xff < 256) by (bit_vector);
    let r = spec_write_register(d, offset, v);
    assert(r.interrupt_status == d.interrupt_status);
    assert(d.interrupt_status & d.interrupt_status == d.interrupt_status) by (bit_vector);
}

/// A write to interrupt-ack clears exactly the acknowledged bits.
pub proof fn lemma_interrupt_ack_clears_mask(d: Block, v: u32)
    ensures
        spec_write_register(d, REG_INTERRUPT_ACK, v).interrupt_status == d.interrupt_status & !v,
{
}

/// Failure modes of device activation.
#[derive(Clone, Copy, Debug, PartialEq, Eq, Structural)]
pub enum ActivateError {
    /// Activation is one-shot until reset.
    AlreadyActivated,
    /// The driver did not acknowledge `VERSION_1`; the value is the feature
    /// word it did acknowledge.
    BadFeatures(u64),
}

/// The 20-byte serial the device reports: `vmsh0`, zero-padded.
pub open spec fn spec_serial() -> Seq<u8> {
    seq![
        0x76u8, 0x6du8, 0x73u8, 0x68u8, 0x30u8, 0u8, 0u8, 0u8, 0u8, 0u8, 0u8, 0u8, 0u8, 0u8, 0u8,
        0u8, 0u8, 0u8, 0u8, 0u8,
    ]
}

/// The serial as bytes.
pub fn serial_bytes() -> (v: Vec<u8>)
    ensures
        v@ == spec_serial(),
{
    let v = vec![
        0x76u8, 0x6du8, 0x73u8, 0x68u8, 0x30u8, 0u8, 0u8, 0u8, 0u8, 0u8, 0u8, 0u8, 0u8, 0u8, 0u8,
        0u8, 0u8, 0u8, 0u8, 0u8,
    ];
    proof {
        assert(v@ =~= spec_serial());
    }
    v
}

/// Build the device configuration space from the backing file's size:
/// the capacity in 512-byte sectors, the vendor id, the serial.
pub fn build_config_space(file_size: u64) -> (b: Vec<u8>)
    ensures
        b@.len() == CONFIG_SPACE_SIZE,
        crate::bytes::le64(b@, 0) == file_size / 512,
        crate::bytes::le32(b@, 8) == 0,
        b@.subrange(12, CONFIG_SPACE_SIZE as int) == spec_serial(),
{
    let mut b = crate::bytes::zero_bytes(CONFIG_SPACE_SIZE);
    crate::bytes::write_u64_le(&mut b, 0, file_size / (SECTOR_SIZE as u64));
    crate::bytes::write_u32_le(&mut b, 8, 0);
    let serial = serial_bytes();
    let mut k: usize = 0;
    let ghost b_pre = b@;
    while k < 20
        invariant
            k <= 20,
            b@.len() == CONFIG_SPACE_SIZE,
            serial@ == spec_serial(),
            forall|j: int| 0 <= j < 12 ==> b@[j] == b_pre[j],
            forall|j: int| 12 <= j < 12 + k ==> b@[j] == spec_serial()[j - 12],
            forall|j: int| 12 + k <= j < CONFIG_SPACE_SIZE ==> b@[j] == b_pre[j],
        decreases 20 - k,
    {
        b[12 + k] = serial[k];
        k = k + 1;
    }
    proof {
        assert(b@.subrange(12, CONFIG_SPACE_SIZE as int) =~= spec_serial());
    }
    b
}

impl Block {
    /// A block device over `disk`, advertising `VERSION_1`, `IN_ORDER` and
    /// `RING_EVENT_IDX`, plus `BLK_F_RO` when read-only and `BLK_F_FLUSH`
    /// when asked for.  The capacity is the disk's size in 512-byte sectors.
    pub fn new(disk: Vec<u8>, read_only: bool, advertise_flush: bool, mmio: MmioConfig) -> (d:
        Block)
        ensures
            d.wf(),
            d.device_features == spec_device_features(read_only, advertise_flush),
            d.driver_features == 0,
            d.status == 0,
            !d.device_activated,
            d.interrupt_status == 0,
            d.read_only == read_only,
            d.mmio == mmio,
            d.disk@ == disk@,
            d.irq_signals == 0,
            !d.notified,
            d.queue.size == QUEUE_MAX_SIZE,
            !d.queue.ready,
            d.queue.next_avail == 0 && d.queue.next_used == 0,
            crate::bytes::le64(d.config_space@, 0) == disk@.len() as u64 / 512,
            d.config_space@.subrange(12, CONFIG_SPACE_SIZE as int) == spec_serial(),
    {
        let len64 = disk.len() as u64;
        let config_space = build_config_space(len64);
        let mut device_features: u64 = (1u64 << VIRTIO_F_VERSION_1) | (1u64 << VIRTIO_F_IN_ORDER)
            | (1u64 << VIRTIO_F_RING_EVENT_IDX);
        if read_only {
            device_features = device_features | (1u64 << VIRTIO_BLK_F_RO);
        }
        if advertise_flush {
            device_features = device_features | (1u64 << VIRTIO_BLK_F_FLUSH);
        }
        proof {
            let base = (1u64 << 32u64) | (1u64 << 35u64) | (1u64 << 29u64);
            assert(base | 0u64 == base && (base | (1u64 << 5u64)) | 0u64 == base | (1u64 << 5u64))
                by (bit_vector);
        }
        Block {
            device_features,
            driver_features: 0,
            device_features_sel: 0,
            driver_features_sel: 0,
            queue_sel: 0,
            queue: QueueState {
                size: QUEUE_MAX_SIZE,
                ready: false,
                desc_addr: 0,
                avail_addr: 0,
                used_addr: 0,
                next_avail: 0,
                next_used: 0,
            },
            interrupt_status: 0,
            status: 0,
            config_generation: 0,
            config_space,
            device_activated: false,
            read_only,
            mmio,
            disk,
            irq_signals: 0,
            notified: false,
        }
    }

    /// The VirtIO device class: a block device.
    pub fn device_type(&self) -> (r: u32)
        ensures
            r == BLOCK_DEVICE_ID,
    {
        BLOCK_DEVICE_ID
    }

    /// A doorbell rang for queue `val`; the device has one queue, so any
    /// notify marks it pending for the queue handler.
    pub fn queue_notify(&mut self, val: u32)
        ensures
            *final(self) == (Block { notified: true, ..*old(self) }),
    {
        let _which: u32 = val;
        self.notified = true;
    }

    /// Activate the device: one-shot, and only for a `VERSION_1` driver.
    ///
    /// This is the `DRIVER_OK` step of the status machine, so the full
    /// status sequence must have been written.
    pub fn activate(&mut self) -> (r: Result<(), ActivateError>)
        requires
            old(self).wf(),
            old(self).status & STATUS_ALL_SET == STATUS_ALL_SET,
        ensures
            final(self).wf(),
            old(self).device_activated ==> r == Err::<(), ActivateError>(
                ActivateError::AlreadyActivated,
            ) && *final(self) == *old(self),
            !old(self).device_activated && old(self).driver_features & VERSION_1_MASK == 0 ==> r
                == Err::<(), ActivateError>(ActivateError::BadFeatures(old(self).driver_features))
                && *final(self) == *old(self),
            !old(self).device_activated && old(self).driver_features & VERSION_1_MASK != 0 ==> r
                is Ok && *final(self) == (Block { device_activated: true, ..*old(self) }),
    {
        if self.device_activated {
            return Err(ActivateError::AlreadyActivated);
        }
        if self.driver_features & VERSION_1_MASK == 0 {
            return Err(ActivateError::BadFeatures(self.driver_features));
        }
        self.device_activated = true;
        Ok(())
    }

    /// Reset the device: status zero, negotiation and activation undone.
    pub fn reset(&mut self)
        requires
            old(self).wf(),
        ensures
            *final(self) == spec_reset(*old(self)),
            final(self).wf(),
    {
        self.write_status(0);
    }

    /// Serve an MMIO read: four-byte reads inside the register window read a
    /// register; one-byte reads inside the configuration window read a
    /// configuration byte; anything else leaves the buffer untouched.
    pub fn mmio_read(&mut self, offset: u64, data: &mut Vec<u8>)
        requires
            old(self).wf(),
        ensures
            *final(self) == *old(self),
            offset < REG_CONFIG_SPACE && old(data)@.len() == 4 ==> final(data)@.len() == 4
                && crate::bytes::le32(final(data)@, 0) == spec_read_register(*old(self), offset),
            REG_CONFIG_SPACE <= offset < REG_CONFIG_SPACE + CONFIG_SPACE_SIZE && old(data)@.len()
                == 1 ==> final(data)@.len() == 1 && final(data)@[0] == old(self).config_space@[offset - REG_CONFIG_SPACE],
            !(offset < REG_CONFIG_SPACE && old(data)@.len() == 4) && !(REG_CONFIG_SPACE <= offset
                < REG_CONFIG_SPACE + CONFIG_SPACE_SIZE && old(data)@.len() == 1) ==> final(data)@
                == old(data)@,
    {
        if offset < REG_CONFIG_SPACE && data.len() == 4 {
            let v = self.read_register(offset);
            crate::bytes::write_u32_le(data, 0, v);
        } else if offset >= REG_CONFIG_SPACE && offset < REG_CONFIG_SPACE + (
        CONFIG_SPACE_SIZE as u64) && data.len() == 1 {
            let b = self.read_config(offset);
            data[0] = b;
            proof {
                assert(final(data)@ =~= old(data)@.update(0, b));
            }
        }
    }

    /// Serve an MMIO write: four-byte writes inside the register window
    /// write a register; everything else, the read-only configuration space
    /// included, is ignored.
    pub fn mmio_write(&mut self, offset: u64, data: &Vec<u8>)
        requires
            old(self).wf(),
        ensures
            final(self).wf(),
            offset < REG_CONFIG_SPACE && data@.len() == 4 ==> *final(self) == spec_write_register(
                *old(self),
                offset,
                crate::bytes::le32(data@, 0),
            ),
            !(offset < REG_CONFIG_SPACE && data@.len() == 4) ==> *final(self) == *old(self),
    {
        if offset < REG_CONFIG_SPACE && data.len() == 4 {
            let v = crate::bytes::read_u32_le(data, 0);
            self.write_register(offset, v);
        }
    }
}

/// A reset device activates again: the full status sequence, with
/// `VERSION_1` acknowledged and the queue made ready, ends activated.
pub proof fn lemma_reset_enables_reactivation(d: Block)
    requires
        d.wf(),
    ensures
        ({
            let d0 = spec_reset(d);
            let d1 = spec_write_register(d0, REG_STATUS, 1);
            let d2 = spec_write_register(d1, REG_STATUS, 3);
            let d3 = spec_write_register(d2, REG_DRIVER_FEATURES_SEL, 1);
            let d4 = spec_write_register(d3, REG_DRIVER_FEATURES, 1);
            let d5 = spec_write_register(d4, REG_STATUS, 11);
            let d6 = spec_write_register(d5, REG_QUEUE_READY, 1);
            let d7 = spec_write_register(d6, REG_STATUS, 15);
            d7.device_activated && d7.status & STATUS_ALL_SET == STATUS_ALL_SET
        }),
{
    assert((1u32 & 0xffu32) == 1u32 && (3u32 & 0xffu32) == 3u32 && (11u32 & 0xffu32) == 11u32 && (
    15u32 & 0xffu32) == 15u32) by (bit_vector);
    assert((0u8 | 1u8) == 1u8 && (1u8 | 3u8) == 3u8 && (3u8 | 11u8) == 11u8 && (11u8 | 15u8)
        == 15u8) by (bit_vector);
    assert((1u8 & 15u8) != 15u8 && (3u8 & 15u8) != 15u8 && (11u8 & 15u8) != 15u8 && (15u8 & 15u8)
        == 15u8) by (bit_vector);
    assert((0u8 & 128u8) == 0u8 && (1u8 & 128u8) == 0u8 && (3u8 & 128u8) == 0u8 && (11u8 & 128u8)
        == 0u8) by (bit_vector);
    assert((1u8 & 8u8) == 0u8 && (3u8 & 8u8) == 0u8) by (bit_vector);
    assert(((0u64 & 0xffff_ffffu64) | ((1u64) << 32u64)) & 0x1_0000_0000u64 != 0u64)
        by (bit_vector);
}


} // verus!
