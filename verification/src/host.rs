//! Asking the host processor.
use vstd::prelude::*;

verus! {

/// A host processor can answer the CPUID leaf `leaf`, sub-leaf 0, with these registers.
///
/// What a host answers depends on the machine: nothing is said of which answers are possible.
pub uninterp spec fn host_may_report(leaf: u32, eax: u32, ebx: u32, ecx: u32, edx: u32) -> bool;

/// Calls `core::arch::x86_64::__cpuid`, which executes the instruction CPUID for the leaf `leaf`
/// and the sub-leaf 0, and returns the registers EAX, EBX, ECX and EDX in this order.
///
/// Claimed is only that the host has given this answer to this leaf.
#[verifier::external_body]
pub(crate) fn host_cpuid(leaf: u32) -> (r: (u32, u32, u32, u32))
    ensures
        host_may_report(leaf, r.0, r.1, r.2, r.3),
{
    let regs = core::arch::x86_64::__cpuid(leaf);
    (regs.eax, regs.ebx, regs.ecx, regs.edx)
}

} // verus!
