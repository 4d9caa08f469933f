//! Model of the hypervisor process as seen from outside.
//!
//! The library's remote operations — injected `mmap`/`munmap`, cross-process
//! memory copies, KVM ioctls — are specified as transitions of this value.
//! The syscalls that realise a transition against a live process are issued
//! by the surrounding program; everything the library proves about remote
//! memory and the memory-slot table is stated over this model.

use vstd::prelude::*;

use crate::page::PAGE_SIZE;

verus! {

/// One anonymous shared mapping established in the target by a remote `mmap`.
#[derive(Debug)]
pub struct HostRegion {
    /// Target-virtual address of the first byte.
    pub addr: usize,
    /// Contents of the mapping.
    pub bytes: Vec<u8>,
}

/// A slot id occurs in a table.
pub open spec fn slot_present(t: Seq<KvmMemSlot>, s: u32) -> bool {
    exists|i: int| 0 <= i < t.len() && t[i].slot == s
}

/// The entry of a table holding slot id `s`.
pub open spec fn slot_at(t: Seq<KvmMemSlot>, s: u32) -> KvmMemSlot {
    t[choose|i: int| 0 <= i < t.len() && t[i].slot == s]
}

/// One entry of the target VM's KVM memory-slot table.
#[derive(Clone, Copy, Debug, PartialEq, Eq, Structural)]
pub struct KvmMemSlot {
    pub slot: u32,
    pub flags: u32,
    pub guest_phys_addr: u64,
    pub memory_size: u64,
    pub userspace_addr: u64,
}

/// One irqfd registration: an event descriptor wired to an interrupt line.
#[derive(Clone, Copy, Debug, PartialEq, Eq, Structural)]
pub struct KvmIrqFd {
    pub fd: u32,
    pub gsi: u32,
}

/// One ioeventfd registration: a doorbell match on a guest-physical write.
#[derive(Clone, Copy, Debug, PartialEq, Eq, Structural)]
pub struct KvmIoEventFd {
    pub datamatch: u64,
    pub addr: u64,
    pub len: u32,
    pub fd: u32,
    pub flags: u32,
}

/// The remote world: one hypervisor process and its VM's kernel-side state.
#[derive(Debug)]
pub struct TargetProcess {
    /// The process has not exited.
    pub alive: bool,
    /// Another tracer already holds the process, so an attach must fail.
    pub foreign_tracer: bool,
    /// The designated target threads are held at a syscall-safe stop.
    pub threads_stopped: bool,
    /// Mappings created in the target by this system.
    pub regions: Vec<HostRegion>,
    /// Next target-virtual address a remote `mmap` will return.
    pub next_addr: usize,
    /// The VM's registered memory slots.
    pub memslots: Vec<KvmMemSlot>,
    /// KVM capability numbers the target's kernel reports as available.
    pub extensions: Vec<u32>,
    /// Register state of each VCPU, by VCPU index.
    pub vcpu_states: Vec<crate::regs::VcpuState>,
    /// The VM's irqfd registrations.
    pub irqfds: Vec<KvmIrqFd>,
    /// The VM's ioeventfd registrations.
    pub ioeventfds: Vec<KvmIoEventFd>,
}

impl TargetProcess {
    /// Region addresses are unique, live below `next_addr`, and `next_addr`
    /// is page-aligned with room to grow.
    pub open spec fn wf(self) -> bool {
        &&& forall|i: int, j: int|
            0 <= i < j < self.regions@.len() ==> self.regions@[i].addr != self.regions@[j].addr
        &&& forall|i: int|
            0 <= i < self.regions@.len() ==> #[trigger] self.regions@[i].addr < self.next_addr
        &&& self.next_addr % PAGE_SIZE == 0
        &&& self.next_addr >= PAGE_SIZE
        &&& forall|i: int, j: int|
            0 <= i < j < self.memslots@.len() ==> self.memslots@[i].slot != self.memslots@[j].slot
    }

    /// A mapping with base address `a` exists.
    pub open spec fn has_region(self, a: int) -> bool {
        exists|i: int| 0 <= i < self.regions@.len() && self.regions@[i].addr == a
    }

    /// Index of the mapping with base address `a`.
    pub open spec fn region_index(self, a: int) -> int {
        choose|i: int| 0 <= i < self.regions@.len() && self.regions@[i].addr == a
    }

    /// Contents of the mapping with base address `a`.
    pub open spec fn region_bytes(self, a: int) -> Seq<u8> {
        self.regions@[self.region_index(a)].bytes@
    }

    /// A memory slot with id `s` is registered.
    pub open spec fn has_slot(self, s: u32) -> bool {
        slot_present(self.memslots@, s)
    }

    /// Index of the memory slot with id `s`.
    pub open spec fn slot_index(self, s: u32) -> int {
        choose|i: int| 0 <= i < self.memslots@.len() && self.memslots@[i].slot == s
    }

    /// The registered entry for slot id `s`.
    pub open spec fn slot_entry(self, s: u32) -> KvmMemSlot {
        slot_at(self.memslots@, s)
    }

    /// An irqfd for interrupt line `gsi` is registered.
    pub open spec fn has_irqfd(self, gsi: u32) -> bool {
        exists|i: int| 0 <= i < self.irqfds@.len() && self.irqfds@[i].gsi == gsi
    }

    /// An ioeventfd doorbell is registered for a write of `datamatch` at
    /// `addr`.
    pub open spec fn has_ioeventfd(self, addr: u64, datamatch: u64) -> bool {
        exists|i: int|
            0 <= i < self.ioeventfds@.len() && (#[trigger] self.ioeventfds@[i]).addr == addr
                && self.ioeventfds@[i].datamatch == datamatch
    }

    /// The signal registrations, which only the irqfd and ioeventfd ioctls
    /// touch.
    pub open spec fn same_signal_state(self, other: TargetProcess) -> bool {
        &&& self.irqfds@ == other.irqfds@
        &&& self.ioeventfds@ == other.ioeventfds@
    }

    /// The parts a remote memory operation never touches.
    pub open spec fn same_process_state(self, other: TargetProcess) -> bool {
        &&& self.alive == other.alive
        &&& self.foreign_tracer == other.foreign_tracer
        &&& self.threads_stopped == other.threads_stopped
        &&& self.extensions@ == other.extensions@
    }

    /// A fresh model of a running, untraced process with no slots of ours.
    pub fn new_running(extensions: Vec<u32>) -> (t: TargetProcess)
        ensures
            t.wf(),
            t.alive,
            !t.foreign_tracer,
            !t.threads_stopped,
            t.regions@.len() == 0,
            t.memslots@.len() == 0,
            t.extensions@ == extensions@,
            t.irqfds@.len() == 0,
            t.ioeventfds@.len() == 0,
    {
        TargetProcess {
            alive: true,
            foreign_tracer: false,
            threads_stopped: false,
            regions: Vec::new(),
            next_addr: PAGE_SIZE,
            memslots: Vec::new(),
            extensions,
            vcpu_states: Vec::new(),
            irqfds: Vec::new(),
            ioeventfds: Vec::new(),
        }
    }

    /// Index of the mapping based at `addr`, if one exists.
    pub fn find_region(&self, addr: usize) -> (r: Option<usize>)
        ensures
            match r {
                Some(i) => i < self.regions@.len() && self.regions@[i as int].addr == addr
                    && self.has_region(addr as int),
                None => !self.has_region(addr as int),
            },
    {
        let mut i: usize = 0;
        while i < self.regions.len()
            invariant
                i <= self.regions@.len(),
                forall|k: int| 0 <= k < i ==> self.regions@[k].addr != addr,
            decreases self.regions@.len() - i,
        {
            if self.regions[i].addr == addr {
                return Some(i);
            }
            i = i + 1;
        }
        None
    }

    /// Index of the memory slot with id `s`, if one is registered.
    pub fn find_slot(&self, s: u32) -> (r: Option<usize>)
        ensures
            match r {
                Some(i) => i < self.memslots@.len() && self.memslots@[i as int].slot == s
                    && self.has_slot(s),
                None => !self.has_slot(s),
            },
    {
        let mut i: usize = 0;
        while i < self.memslots.len()
            invariant
                i <= self.memslots@.len(),
                forall|k: int| 0 <= k < i ==> self.memslots@[k].slot != s,
            decreases self.memslots@.len() - i,
        {
            if self.memslots[i].slot == s {
                return Some(i);
            }
            i = i + 1;
        }
        None
    }
}

} // verus!
