//! Hot-attach of a VirtIO block device to a running KVM hypervisor process.
//!
//! The crate is organised around a model of the remote world: the hypervisor
//! process (its address space, its KVM memory-slot table, the run state of its
//! threads) is a value that the library's operations read and update.  The
//! contracts state, over that model, what attaching, allocating remote memory,
//! registering guest-physical memory and driving the VirtIO-MMIO block device
//! do; the process-control syscalls that realise the model transitions live
//! outside the library.

use vstd::prelude::*;

pub mod attach;
pub mod block;
pub mod bytes;
pub mod error;
pub mod guest_ram;
pub mod hv_mem;
pub mod hypervisor;
pub mod loader;
pub mod maps;
pub mod page;
pub mod parse;
pub mod queue;
pub mod regs;
pub mod router;
pub mod target;
pub mod tracee;

verus! {

/// Queue depth advertised by the block device's single virtqueue.
pub const QUEUE_MAX_SIZE: u16 = 256;

} // verus!
