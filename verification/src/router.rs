//! Routing of KVM exits during interposition.
//!
//! The interposer sees every exit of the captured VCPU.  An MMIO exit whose
//! address falls into a registered device range is handled here; every
//! other exit is passed through to the hypervisor unchanged.

use vstd::prelude::*;

verus! {

/// One registered MMIO range: a device's registers plus its device memory.
#[derive(Clone, Copy, Debug, PartialEq, Eq, Structural)]
pub struct MmioRange {
    /// First guest-physical address of the range.
    pub base: u64,
    /// Length of the range.
    pub len: u64,
}

impl MmioRange {
    /// `addr` falls inside the range.
    pub open spec fn spec_contains(self, addr: u64) -> bool {
        self.base <= addr && addr - self.base < self.len
    }
}

/// Where an exit goes: to the device owning its range, or back to the
/// hypervisor.
#[derive(Clone, Copy, Debug, PartialEq, Eq, Structural)]
pub enum ExitRoute {
    /// Handled by the device registered under this index.
    Device(usize),
    /// Forwarded to the hypervisor unchanged.
    PassThrough,
}

/// The exit router: the registered device ranges, in registration order.
pub struct ExitRouter {
    pub ranges: Vec<MmioRange>,
}

impl ExitRouter {
    /// A router with no ranges: everything passes through.
    pub fn new() -> (r: ExitRouter)
        ensures
            r.ranges@.len() == 0,
    {
        ExitRouter { ranges: Vec::new() }
    }

    /// Register a device range.
    pub fn register(&mut self, range: MmioRange)
        ensures
            final(self).ranges@ == old(self).ranges@.push(range),
    {
        self.ranges.push(range);
    }

    /// Route one MMIO exit: the first registered range holding the address
    /// takes it; an address in no range passes through, so the guest
    /// observes the uninstrumented hypervisor's behaviour for it.
    pub fn route(&self, addr: u64) -> (r: ExitRoute)
        ensures
            match r {
                ExitRoute::Device(i) => i < self.ranges@.len() && self.ranges@[
                    i as int
                ].spec_contains(addr) && forall|j: int|
                    0 <= j < i ==> !(#[trigger] self.ranges@[j]).spec_contains(addr),
                ExitRoute::PassThrough => forall|j: int|
                    0 <= j < self.ranges@.len() ==> !(#[trigger] self.ranges@[j]).spec_contains(
                        addr,
                    ),
            },
    {
        let n = self.ranges.len();
        let mut i: usize = 0;
        while i < n
            invariant
                i <= n,
                n == self.ranges@.len(),
                forall|j: int| 0 <= j < i ==> !(#[trigger] self.ranges@[j]).spec_contains(addr),
            decreases n - i,
        {
            let rg = self.ranges[i];
            if rg.base <= addr && addr - rg.base < rg.len {
                return ExitRoute::Device(i);
            }
            i = i + 1;
        }
        ExitRoute::PassThrough
    }
}

} // verus!
