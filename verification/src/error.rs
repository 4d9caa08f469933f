//! Error kinds shared across the crate.

use vstd::prelude::*;

verus! {

/// What went wrong, grouped by subsystem.
///
/// `Configuration` covers bad arguments and an unusable target (no VM,
/// several VMs, no VCPUs).  `NotAttached`, `TargetGone` and `TransportError`
/// are the three ways a remote operation against the hypervisor process can
/// fail.  `KvmProtocol` is an unexpected answer from KVM, `VirtioProtocol` a
/// malformed queue or a refused activation, `Backend` a host-file failure and
/// `Shutdown` a requested stop.
#[derive(Clone, Copy, Debug, PartialEq, Eq, Structural)]
pub enum Error {
    Configuration,
    NotAttached,
    TargetGone,
    TransportError,
    KvmProtocol,
    VirtioProtocol,
    Backend,
    Shutdown,
}

} // verus!
