//! Leaf 0x1: feature information.
use crate::bit_helper::BitRange;
use vstd::prelude::*;

verus! {

/// EBX: the initial APIC ID.
#[verifier::allow_in_spec]
pub fn ebx_apicid_bitrange() -> BitRange
    returns
        (BitRange { msb_index: 31, lsb_index: 24 }),
{
    BitRange { msb_index: 31, lsb_index: 24 }
}

/// EBX: the maximum number of addressable IDs for logical processors in the package.
#[verifier::allow_in_spec]
pub fn ebx_cpu_count_bitrange() -> BitRange
    returns
        (BitRange { msb_index: 23, lsb_index: 16 }),
{
    BitRange { msb_index: 23, lsb_index: 16 }
}

/// EBX: the size of a cache line that CLFLUSH flushes, in units of 8 bytes.
#[verifier::allow_in_spec]
pub fn ebx_clflush_size_bitrange() -> BitRange
    returns
        (BitRange { msb_index: 15, lsb_index: 8 }),
{
    BitRange { msb_index: 15, lsb_index: 8 }
}

/// ECX: the local APIC timer supports the TSC deadline mode.
pub const ECX_TSC_DEADLINE_TIMER_BITINDEX: u32 = 24;

/// ECX: the processor is a guest of a hypervisor.
pub const ECX_HYPERVISOR_BITINDEX: u32 = 31;

/// EDX: the number in `ebx_cpu_count_bitrange` is valid for the package.
pub const EDX_HTT: u32 = 28;

} // verus!
