//! Leaf 0x4: deterministic cache parameters.
use crate::bit_helper::BitRange;
use vstd::prelude::*;

verus! {

/// EAX: the level of the cache.
#[verifier::allow_in_spec]
pub fn eax_cache_level_bitrange() -> BitRange
    returns
        (BitRange { msb_index: 7, lsb_index: 5 }),
{
    BitRange { msb_index: 7, lsb_index: 5 }
}

/// EAX: the maximum number of addressable IDs for logical processors that share the cache,
/// less one.
#[verifier::allow_in_spec]
pub fn eax_max_addr_ids_sharing_cache_bitrange() -> BitRange
    returns
        (BitRange { msb_index: 25, lsb_index: 14 }),
{
    BitRange { msb_index: 25, lsb_index: 14 }
}

/// EAX: the maximum number of addressable IDs for processor cores in the package, less one.
#[verifier::allow_in_spec]
pub fn eax_max_addr_ids_in_package_bitrange() -> BitRange
    returns
        (BitRange { msb_index: 31, lsb_index: 26 }),
{
    BitRange { msb_index: 31, lsb_index: 26 }
}

} // verus!
