//! The CPUID entries that KVM exchanges with a hypervisor.
use vstd::prelude::*;

verus! {

/// A CPUID entry: what the guest reads for one leaf and sub-leaf.
///
/// The fields are those of `kvm_bindings::kvm_cpuid_entry2`.
#[derive(Clone, Copy, Debug, PartialEq, Eq)]
pub struct CpuidEntry {
    /// The leaf.
    pub function: u32,
    /// The sub-leaf.
    pub index: u32,
    /// How KVM matches the entry.
    pub flags: u32,
    /// Register EAX.
    pub eax: u32,
    /// Register EBX.
    pub ebx: u32,
    /// Register ECX.
    pub ecx: u32,
    /// Register EDX.
    pub edx: u32,
    /// Unused.
    pub padding: [u32; 3],
}

/// The CPUID entries of one virtual CPU, as KVM takes and gives them: the `kvm_cpuid2` of
/// `kvm_bindings` with its flexible array of entries.
#[verifier::external_body]
pub struct CpuId(pub kvm_bindings::CpuId);

/// The entries that `cpuid` holds, in order.
pub uninterp spec fn cpuid_entries(cpuid: CpuId) -> Seq<CpuidEntry>;

/// Calls `FamStructWrapper::as_slice` and copies each entry, field by field.
///
/// Claimed is that the slice holds the entries, in order.
#[verifier::external_body]
pub(crate) fn load_entries(cpuid: &CpuId) -> (entries: Vec<CpuidEntry>)
    ensures
        entries@ == cpuid_entries(*cpuid),
{
    cpuid.0.as_slice().iter().map(|e| CpuidEntry {
        function: e.function,
        index: e.index,
        flags: e.flags,
        eax: e.eax,
        ebx: e.ebx,
        ecx: e.ecx,
        edx: e.edx,
        padding: e.padding,
    }).collect()
}

/// Calls `FamStructWrapper::as_mut_slice` and copies `entry`, field by field, to place `i`.
///
/// Claimed is that the entry at `i` is replaced and that there is no other change to the entries.
#[verifier::external_body]
pub(crate) fn store_entry(cpuid: &mut CpuId, i: usize, entry: CpuidEntry)
    requires
        i < cpuid_entries(*old(cpuid)).len(),
    ensures
        cpuid_entries(*final(cpuid)) == cpuid_entries(*old(cpuid)).update(i as int, entry),
{
    cpuid.0.as_mut_slice()[i] = kvm_bindings::kvm_cpuid_entry2 {
        function: entry.function,
        index: entry.index,
        flags: entry.flags,
        eax: entry.eax,
        ebx: entry.ebx,
        ecx: entry.ecx,
        edx: entry.edx,
        padding: entry.padding,
    };
}

} // verus!
