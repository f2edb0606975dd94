//! Leaf 0x6: thermal and power management.
use vstd::prelude::*;

verus! {

/// EAX: Turbo Boost is available.
pub const EAX_TURBO_BOOST_BITINDEX: u32 = 1;

/// ECX: the processor supports the performance-energy bias preference.
pub const ECX_EPB_BITINDEX: u32 = 3;

} // verus!
