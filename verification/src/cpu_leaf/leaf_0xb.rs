//! Leaf 0xB: extended topology enumeration.
use crate::bit_helper::BitRange;
use vstd::prelude::*;

verus! {

/// ECX: the level is invalid.
pub const LEVEL_TYPE_INVALID: u32 = 0;

/// ECX: the level of the hyperthreads.
pub const LEVEL_TYPE_THREAD: u32 = 1;

/// ECX: the level of the cores.
pub const LEVEL_TYPE_CORE: u32 = 2;

/// EAX: by how much to shift an x2APIC ID to get the ID of the next level.
#[verifier::allow_in_spec]
pub fn eax_apicid_bitrange() -> BitRange
    returns
        (BitRange { msb_index: 4, lsb_index: 0 }),
{
    BitRange { msb_index: 4, lsb_index: 0 }
}

/// EBX: the number of logical processors at the level.
#[verifier::allow_in_spec]
pub fn ebx_num_logical_processors_bitrange() -> BitRange
    returns
        (BitRange { msb_index: 15, lsb_index: 0 }),
{
    BitRange { msb_index: 15, lsb_index: 0 }
}

/// ECX: the type of the level.
#[verifier::allow_in_spec]
pub fn ecx_level_type_bitrange() -> BitRange
    returns
        (BitRange { msb_index: 15, lsb_index: 8 }),
{
    BitRange { msb_index: 15, lsb_index: 8 }
}

/// ECX: the number of the level.
#[verifier::allow_in_spec]
pub fn ecx_level_number_bitrange() -> BitRange
    returns
        (BitRange { msb_index: 7, lsb_index: 0 }),
{
    BitRange { msb_index: 7, lsb_index: 0 }
}

} // verus!
