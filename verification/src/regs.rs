//! CPU register views: the KVM layouts, and the debugger-facing layout they
//! convert into.
//!
//! The raw structs mirror the kernel's `kvm_regs` and `kvm_fpu` field for
//! field, as plain values; the conversions fill the debugger layout exactly
//! as stated.

use vstd::prelude::*;

use crate::bytes::le32;

verus! {

/// The general-purpose registers as KVM returns them.
#[derive(Clone, Copy, Debug, PartialEq, Eq, Structural)]
pub struct KvmRegs {
    pub rax: u64,
    pub rbx: u64,
    pub rcx: u64,
    pub rdx: u64,
    pub rsi: u64,
    pub rdi: u64,
    pub rsp: u64,
    pub rbp: u64,
    pub r8: u64,
    pub r9: u64,
    pub r10: u64,
    pub r11: u64,
    pub r12: u64,
    pub r13: u64,
    pub r14: u64,
    pub r15: u64,
    pub rip: u64,
    pub rflags: u64,
}

/// The floating-point state as KVM returns it, bytes held flat: `fpr` is
/// the 8 x 16-byte x87 registers, `xmm` the 16 x 16-byte vector registers.
#[derive(Debug)]
pub struct KvmFpu {
    pub fpr: Vec<u8>,
    pub fcw: u16,
    pub fsw: u16,
    pub ftwx: u8,
    pub last_opcode: u16,
    pub last_ip: u64,
    pub last_dp: u64,
    pub xmm: Vec<u8>,
    pub mxcsr: u32,
}

/// The debugger-facing register layout.
#[derive(Clone, Copy, Debug, PartialEq, Eq, Structural)]
pub struct Regs {
    pub r15: u64,
    pub r14: u64,
    pub r13: u64,
    pub r12: u64,
    pub rbp: u64,
    pub rbx: u64,
    pub r11: u64,
    pub r10: u64,
    pub r9: u64,
    pub r8: u64,
    pub rax: u64,
    pub rcx: u64,
    pub rdx: u64,
    pub rsi: u64,
    pub rdi: u64,
    pub orig_rax: u64,
    pub rip: u64,
    pub cs: u64,
    pub eflags: u64,
    pub rsp: u64,
    pub ss: u64,
    pub fs_base: u64,
    pub gs_base: u64,
    pub ds: u64,
    pub es: u64,
    pub fs: u64,
    pub gs: u64,
}

/// The debugger-facing floating-point layout: the x87 and vector registers
/// reinterpreted as little-endian 32-bit words.
#[derive(Debug)]
pub struct FpuRegs {
    pub cwd: u16,
    pub swd: u16,
    pub twd: u16,
    pub fop: u16,
    pub last_ip: u64,
    pub last_dp: u64,
    pub mxcsr: u32,
    pub mxcsr_mask: u32,
    pub st_space: Vec<u32>,
    pub xmm_space: Vec<u32>,
}

/// The debugger layout a KVM register set converts into: segment and base
/// registers read zero, `orig_rax` repeats `rax`.
pub open spec fn spec_regs_of(k: KvmRegs) -> Regs {
    Regs {
        r15: k.r15,
        r14: k.r14,
        r13: k.r13,
        r12: k.r12,
        rbp: k.rbp,
        rbx: k.rbx,
        r11: k.r11,
        r10: k.r10,
        r9: k.r9,
        r8: k.r8,
        rax: k.rax,
        rcx: k.rcx,
        rdx: k.rdx,
        rsi: k.rsi,
        rdi: k.rdi,
        orig_rax: k.rax,
        rip: k.rip,
        cs: 0,
        eflags: k.rflags,
        rsp: k.rsp,
        ss: 0,
        fs_base: 0,
        gs_base: 0,
        ds: 0,
        es: 0,
        fs: 0,
        gs: 0,
    }
}

/// Convert KVM's register layout into the debugger layout.  Segment and
/// base registers are not carried by `kvm_regs`, so they read zero;
/// `orig_rax` repeats `rax`.
pub fn regs_from_kvm(k: &KvmRegs) -> (r: Regs)
    ensures
        r == spec_regs_of(*k),
{
    Regs {
        r15: k.r15,
        r14: k.r14,
        r13: k.r13,
        r12: k.r12,
        rbp: k.rbp,
        rbx: k.rbx,
        r11: k.r11,
        r10: k.r10,
        r9: k.r9,
        r8: k.r8,
        rax: k.rax,
        rcx: k.rcx,
        rdx: k.rdx,
        rsi: k.rsi,
        rdi: k.rdi,
        orig_rax: k.rax,
        rip: k.rip,
        cs: 0,
        eflags: k.rflags,
        rsp: k.rsp,
        ss: 0,
        fs_base: 0,
        gs_base: 0,
        ds: 0,
        es: 0,
        fs: 0,
        gs: 0,
    }
}

/// Reinterpret flat bytes as little-endian 32-bit words.
pub fn words_from_bytes(b: &Vec<u8>) -> (r: Vec<u32>)
    requires
        b@.len() % 4 == 0,
    ensures
        r@.len() * 4 == b@.len(),
        forall|i: int| 0 <= i < r@.len() ==> r@[i] == le32(b@, 4 * i),
{
    let n = b.len();
    let mut r: Vec<u32> = Vec::new();
    let mut k: usize = 0;
    while 4 * k < n
        invariant
            4 * k <= n,
            n == b@.len(),
            n % 4 == 0,
            r@.len() == k,
            forall|i: int| 0 <= i < k ==> r@[i] == le32(b@, 4 * i),
        decreases n - 4 * k,
    {
        let w = crate::bytes::read_u32_le(b, 4 * k);
        r.push(w);
        k = k + 1;
    }
    r
}

/// Convert KVM's floating-point layout into the debugger layout: the x87
/// bytes become 32 words, the vector bytes 64 words, `mxcsr_mask` reads
/// zero and the tag byte widens.
pub fn fpu_regs_from_kvm(k: &KvmFpu) -> (r: FpuRegs)
    requires
        k.fpr@.len() == 128,
        k.xmm@.len() == 256,
    ensures
        r.cwd == k.fcw && r.swd == k.fsw && r.twd == k.ftwx && r.fop == k.last_opcode,
        r.last_ip == k.last_ip && r.last_dp == k.last_dp,
        r.mxcsr == k.mxcsr && r.mxcsr_mask == 0,
        r.st_space@.len() == 32,
        forall|i: int| 0 <= i < 32 ==> r.st_space@[i] == le32(k.fpr@, 4 * i),
        r.xmm_space@.len() == 64,
        forall|i: int| 0 <= i < 64 ==> r.xmm_space@[i] == le32(k.xmm@, 4 * i),
{
    FpuRegs {
        cwd: k.fcw,
        swd: k.fsw,
        twd: k.ftwx as u16,
        fop: k.last_opcode,
        last_ip: k.last_ip,
        last_dp: k.last_dp,
        mxcsr: k.mxcsr,
        mxcsr_mask: 0,
        st_space: words_from_bytes(&k.fpr),
        xmm_space: words_from_bytes(&k.xmm),
    }
}

/// One VCPU's register state as the target's kernel holds it.
#[derive(Debug)]
pub struct VcpuState {
    /// General-purpose registers.
    pub regs: KvmRegs,
    /// The special registers, as the raw `kvm_sregs` bytes.
    pub sregs: Vec<u8>,
    /// Floating-point state.
    pub fpu: KvmFpu,
}

} // verus!
