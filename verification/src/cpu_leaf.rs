//! Places and values in the registers of the CPUID leaves.
pub mod leaf_0x1;
pub mod leaf_0x4;
pub mod leaf_0x6;
pub mod leaf_0xb;
