//! What each CPUID leaf of the guest tells.
use crate::bit_helper::{
    field, read_bits_in_range, with_bit, with_field, write_bit, write_bits_in_range,
};
use crate::brand_string::{leaf_register, BrandString, Reg, FIRST_LEAF, LAST_LEAF};
use crate::cpu_leaf::{leaf_0x1, leaf_0x4, leaf_0x6, leaf_0xb};
use crate::kvm::CpuidEntry;
use vstd::prelude::*;

verus! {

/// Size of the cache line that CLFLUSH flushes, in units of 8 bytes.
pub const EBX_CLFLUSH_CACHELINE: u32 = 8;

/// By how much the x2APIC ID is shifted at the level of the cores to get the ID of the next
/// level. This allows for 64 logical processors in a package.
pub const LEAFBH_INDEX1_APICID: u32 = 6;

/// The largest number of virtual CPUs that the cache parameters of the guest can tell.
pub const MAX_CACHE_LEAF_CPUS: u8 = 64;

/// The largest number of virtual CPUs whose maximum number of addressable IDs is an `u8`.
pub const MAX_ADDRESSABLE_CPUS: u8 = 128;

/// A virtual CPU of a guest.
#[derive(Clone, Copy, Debug, PartialEq, Eq)]
pub struct Vcpu {
    /// The index of the virtual CPU.
    pub cpu_id: u8,
    /// How many virtual CPUs the guest has.
    pub cpu_count: u8,
    /// Hyperthreading is on.
    pub ht_enabled: bool,
}

impl Vcpu {
    /// Two virtual CPUs share a core: 1 if they do, 0 if not.
    pub open spec fn smt(self) -> u32 {
        if self.cpu_count > 1 && self.ht_enabled {
            1
        } else {
            0
        }
    }

    /// The other virtual CPUs of the guest.
    pub open spec fn others(self) -> u32 {
        (self.cpu_count - 1) as u32
    }
}

/// The maximum number of addressable logical CPUs of a guest with `cpu_count` virtual CPUs: the
/// closest power of 2 that is higher than or equal to the count.
pub open spec fn max_addressable(cpu_count: u8) -> int {
    if cpu_count <= 1 {
        1
    } else if cpu_count <= 2 {
        2
    } else if cpu_count <= 4 {
        4
    } else if cpu_count <= 8 {
        8
    } else if cpu_count <= 16 {
        16
    } else if cpu_count <= 32 {
        32
    } else if cpu_count <= 64 {
        64
    } else if cpu_count <= 128 {
        128
    } else {
        256
    }
}

/// The number of virtual CPUs can be told in an entry of the leaf `function`: the cache
/// parameters have six bits for the number of the other virtual CPUs.
pub open spec fn count_fits(cpu_count: u8, function: u32) -> bool {
    function == 0x4 ==> 1 <= cpu_count <= MAX_CACHE_LEAF_CPUS
}

/// Leaf 0x1, feature information.
///
/// The guest runs under a hypervisor and has the TSC deadline timer. It gets its APIC ID and the
/// number of addressable IDs, which is valid where there is more than one virtual CPU.
pub open spec fn feature_entry(e: CpuidEntry, vcpu: Vcpu) -> CpuidEntry {
    CpuidEntry {
        ebx: with_field(
            with_field(
                with_field(e.ebx, leaf_0x1::ebx_apicid_bitrange(), vcpu.cpu_id as u32),
                leaf_0x1::ebx_clflush_size_bitrange(),
                EBX_CLFLUSH_CACHELINE,
            ),
            leaf_0x1::ebx_cpu_count_bitrange(),
            max_addressable(vcpu.cpu_count) as u32,
        ),
        ecx: with_bit(
            with_bit(e.ecx, leaf_0x1::ECX_TSC_DEADLINE_TIMER_BITINDEX, true),
            leaf_0x1::ECX_HYPERVISOR_BITINDEX,
            true,
        ),
        edx: with_bit(e.edx, leaf_0x1::EDX_HTT, vcpu.cpu_count > 1),
        ..e
    }
}

/// Leaf 0x4, deterministic cache parameters.
///
/// The first two levels of cache are shared by the hyperthreads of a core, the third one by all
/// virtual CPUs, and all cores are in one package.
pub open spec fn cache_entry(e: CpuidEntry, vcpu: Vcpu) -> CpuidEntry {
    let level = field(e.eax, leaf_0x4::eax_cache_level_bitrange());
    let shared = if level == 1 || level == 2 {
        with_field(e.eax, leaf_0x4::eax_max_addr_ids_sharing_cache_bitrange(), vcpu.smt())
    } else if level == 3 {
        with_field(e.eax, leaf_0x4::eax_max_addr_ids_sharing_cache_bitrange(), vcpu.others())
    } else {
        e.eax
    };
    CpuidEntry {
        eax: with_field(shared, leaf_0x4::eax_max_addr_ids_in_package_bitrange(), vcpu.others()),
        ..e
    }
}

/// Leaf 0x6, thermal and power management: no Turbo Boost and no energy preference.
pub open spec fn power_entry(e: CpuidEntry) -> CpuidEntry {
    CpuidEntry {
        eax: with_bit(e.eax, leaf_0x6::EAX_TURBO_BOOST_BITINDEX, false),
        ecx: with_bit(e.ecx, leaf_0x6::ECX_EPB_BITINDEX, false),
        ..e
    }
}

/// Leaf 0xA, architectural performance monitoring: none.
pub open spec fn performance_entry(e: CpuidEntry) -> CpuidEntry {
    CpuidEntry { eax: 0, ebx: 0, ecx: 0, edx: 0, ..e }
}

/// Leaf 0xB, extended topology.
///
/// Sub-leaf 0 is the level of the hyperthreads, sub-leaf 1 that of the cores, and there are no
/// other levels. With one virtual CPU the first level is that of the cores and the second one is
/// invalid. Each sub-leaf tells the x2APIC ID.
pub open spec fn topology_entry(e: CpuidEntry, vcpu: Vcpu) -> CpuidEntry {
    if e.index == 0 {
        CpuidEntry {
            eax: with_field(0, leaf_0xb::eax_apicid_bitrange(), vcpu.smt()),
            ebx: with_field(
                0,
                leaf_0xb::ebx_num_logical_processors_bitrange(),
                (1 + vcpu.smt()) as u32,
            ),
            ecx: with_field(
                0,
                leaf_0xb::ecx_level_type_bitrange(),
                if vcpu.cpu_count == 1 {
                    leaf_0xb::LEVEL_TYPE_CORE
                } else {
                    leaf_0xb::LEVEL_TYPE_THREAD
                },
            ),
            edx: vcpu.cpu_id as u32,
            ..e
        }
    } else if e.index == 1 {
        CpuidEntry {
            eax: with_field(0, leaf_0xb::eax_apicid_bitrange(), LEAFBH_INDEX1_APICID),
            ebx: if vcpu.cpu_count == 1 {
                0
            } else {
                with_field(
                    0,
                    leaf_0xb::ebx_num_logical_processors_bitrange(),
                    vcpu.cpu_count as u32,
                )
            },
            ecx: with_field(
                with_field(0, leaf_0xb::ecx_level_number_bitrange(), 1),
                leaf_0xb::ecx_level_type_bitrange(),
                if vcpu.cpu_count == 1 {
                    leaf_0xb::LEVEL_TYPE_INVALID
                } else {
                    leaf_0xb::LEVEL_TYPE_CORE
                },
            ),
            edx: vcpu.cpu_id as u32,
            ..e
        }
    } else {
        CpuidEntry { eax: 0, ebx: 0, ecx: e.index, edx: vcpu.cpu_id as u32, ..e }
    }
}

/// Leaves 0x80000002 to 0x80000004, which spell the brand string `brand`.
pub open spec fn brand_entry(e: CpuidEntry, brand: Seq<u8>) -> CpuidEntry {
    CpuidEntry {
        eax: leaf_register(brand, e.function, Reg::EAX),
        ebx: leaf_register(brand, e.function, Reg::EBX),
        ecx: leaf_register(brand, e.function, Reg::ECX),
        edx: leaf_register(brand, e.function, Reg::EDX),
        ..e
    }
}

/// The entry `e` as the virtual CPU `vcpu` of a guest with the brand string `brand` gets it.
pub open spec fn filtered(e: CpuidEntry, vcpu: Vcpu, brand: Seq<u8>) -> CpuidEntry {
    if e.function == 0x1 {
        feature_entry(e, vcpu)
    } else if e.function == 0x4 {
        cache_entry(e, vcpu)
    } else if e.function == 0x6 {
        power_entry(e)
    } else if e.function == 0xa {
        performance_entry(e)
    } else if e.function == 0xb {
        topology_entry(e, vcpu)
    } else if FIRST_LEAF <= e.function <= LAST_LEAF {
        brand_entry(e, brand)
    } else {
        e
    }
}

/// The largest numbers that the ranges of the leaves can hold.
pub proof fn lemma_capacities()
    ensures
        leaf_0x1::ebx_apicid_bitrange().max_value() == 0xff,
        leaf_0x1::ebx_cpu_count_bitrange().max_value() == 0xff,
        leaf_0x1::ebx_clflush_size_bitrange().max_value() == 0xff,
        leaf_0x4::eax_cache_level_bitrange().max_value() == 0x7,
        leaf_0x4::eax_max_addr_ids_sharing_cache_bitrange().max_value() == 0xfff,
        leaf_0x4::eax_max_addr_ids_in_package_bitrange().max_value() == 0x3f,
        leaf_0xb::eax_apicid_bitrange().max_value() == 0x1f,
        leaf_0xb::ebx_num_logical_processors_bitrange().max_value() == 0xffff,
        leaf_0xb::ecx_level_type_bitrange().max_value() == 0xff,
        leaf_0xb::ecx_level_number_bitrange().max_value() == 0xff,
{
    assert(0xffff_ffffu32 >> 16u32 == 0xffff && 0xffff_ffffu32 >> 20u32 == 0xfff && 0xffff_ffffu32
        >> 24u32 == 0xff && 0xffff_ffffu32 >> 26u32 == 0x3f && 0xffff_ffffu32 >> 27u32 == 0x1f
        && 0xffff_ffffu32 >> 29u32 == 0x7) by (bit_vector);
}

/// Adapts an entry of the leaf 0x1.
fn filter_feature_entry(e: CpuidEntry, vcpu: Vcpu, max_addr_cpu: u8) -> (r: CpuidEntry)
    requires
        max_addr_cpu == max_addressable(vcpu.cpu_count),
    ensures
        r == feature_entry(e, vcpu),
{
    proof {
        lemma_capacities();
    }
    let mut r = e;
    r.ecx = write_bit(r.ecx, leaf_0x1::ECX_TSC_DEADLINE_TIMER_BITINDEX, true);
    r.ecx = write_bit(r.ecx, leaf_0x1::ECX_HYPERVISOR_BITINDEX, true);
    r.ebx = write_bits_in_range(r.ebx, &leaf_0x1::ebx_apicid_bitrange(), vcpu.cpu_id as u32);
    r.ebx = write_bits_in_range(
        r.ebx,
        &leaf_0x1::ebx_clflush_size_bitrange(),
        EBX_CLFLUSH_CACHELINE,
    );
    r.ebx = write_bits_in_range(r.ebx, &leaf_0x1::ebx_cpu_count_bitrange(), max_addr_cpu as u32);
    // The number of addressable IDs is valid for the package where the bit is set.
    r.edx = write_bit(r.edx, leaf_0x1::EDX_HTT, vcpu.cpu_count > 1);
    r
}

/// Adapts an entry of the leaf 0x4.
fn filter_cache_entry(e: CpuidEntry, vcpu: Vcpu) -> (r: CpuidEntry)
    requires
        1 <= vcpu.cpu_count <= MAX_CACHE_LEAF_CPUS,
    ensures
        r == cache_entry(e, vcpu),
{
    proof {
        lemma_capacities();
    }
    let others: u32 = (vcpu.cpu_count - 1) as u32;
    let mut r = e;
    match read_bits_in_range(r.eax, &leaf_0x4::eax_cache_level_bitrange()) {
        1 | 2 => {
            // The L1 and L2 caches are shared by at most two hyperthreads.
            let smt: u32 = if vcpu.cpu_count > 1 && vcpu.ht_enabled {
                1
            } else {
                0
            };
            r.eax = write_bits_in_range(
                r.eax,
                &leaf_0x4::eax_max_addr_ids_sharing_cache_bitrange(),
                smt,
            );
        },
        3 => {
            // The L3 cache is shared by all the logical threads.
            r.eax = write_bits_in_range(
                r.eax,
                &leaf_0x4::eax_max_addr_ids_sharing_cache_bitrange(),
                others,
            );
        },
        _ => {},
    }
    // All the cores are in the same socket.
    r.eax = write_bits_in_range(r.eax, &leaf_0x4::eax_max_addr_ids_in_package_bitrange(), others);
    r
}

/// Adapts an entry of the leaf 0x6.
fn filter_power_entry(e: CpuidEntry) -> (r: CpuidEntry)
    ensures
        r == power_entry(e),
{
    let mut r = e;
    r.eax = write_bit(r.eax, leaf_0x6::EAX_TURBO_BOOST_BITINDEX, false);
    // The guest does not choose frequencies.
    r.ecx = write_bit(r.ecx, leaf_0x6::ECX_EPB_BITINDEX, false);
    r
}

/// Adapts an entry of the leaf 0xB.
fn filter_topology_entry(e: CpuidEntry, vcpu: Vcpu) -> (r: CpuidEntry)
    ensures
        r == topology_entry(e, vcpu),
{
    proof {
        lemma_capacities();
    }
    let mut r = e;
    r.eax = 0;
    r.ebx = 0;
    r.ecx = 0;
    // The x2APIC ID has 32 bits, where the APIC ID has 8.
    r.edx = vcpu.cpu_id as u32;
    match e.index {
        // The level of the threads.
        0 => {
            // A core has at most two hyperthreads, which one bit tells apart.
            let smt: u32 = if vcpu.cpu_count > 1 && vcpu.ht_enabled {
                1
            } else {
                0
            };
            r.eax = write_bits_in_range(r.eax, &leaf_0xb::eax_apicid_bitrange(), smt);
            r.ebx = write_bits_in_range(
                r.ebx,
                &leaf_0xb::ebx_num_logical_processors_bitrange(),
                1 + smt,
            );
            let level: u32 = if vcpu.cpu_count == 1 {
                leaf_0xb::LEVEL_TYPE_CORE
            } else {
                leaf_0xb::LEVEL_TYPE_THREAD
            };
            r.ecx = write_bits_in_range(r.ecx, &leaf_0xb::ecx_level_type_bitrange(), level);
        },
        // The level of the cores.
        1 => {
            r.eax = write_bits_in_range(
                r.eax,
                &leaf_0xb::eax_apicid_bitrange(),
                LEAFBH_INDEX1_APICID,
            );
            r.ecx = write_bits_in_range(r.ecx, &leaf_0xb::ecx_level_number_bitrange(), e.index);
            if vcpu.cpu_count == 1 {
                r.ecx = write_bits_in_range(
                    r.ecx,
                    &leaf_0xb::ecx_level_type_bitrange(),
                    leaf_0xb::LEVEL_TYPE_INVALID,
                );
            } else {
                r.ebx = write_bits_in_range(
                    r.ebx,
                    &leaf_0xb::ebx_num_logical_processors_bitrange(),
                    vcpu.cpu_count as u32,
                );
                r.ecx = write_bits_in_range(
                    r.ecx,
                    &leaf_0xb::ecx_level_type_bitrange(),
                    leaf_0xb::LEVEL_TYPE_CORE,
                );
            }
        },
        // There are no other levels.
        level => {
            r.ecx = level;
        },
    }
    r
}

/// Adapts an entry to the virtual CPU `vcpu` of a guest with the brand string `brand`.
pub fn filter_entry(e: CpuidEntry, vcpu: Vcpu, max_addr_cpu: u8, brand: &BrandString) -> (r:
    CpuidEntry)
    requires
        max_addr_cpu == max_addressable(vcpu.cpu_count),
        count_fits(vcpu.cpu_count, e.function),
    ensures
        r == filtered(e, vcpu, brand@),
{
    match e.function {
        0x1 => filter_feature_entry(e, vcpu, max_addr_cpu),
        0x4 => filter_cache_entry(e, vcpu),
        0x6 => filter_power_entry(e),
        // No performance monitoring unit.
        0xa => CpuidEntry { eax: 0, ebx: 0, ecx: 0, edx: 0, ..e },
        0xb => filter_topology_entry(e, vcpu),
        0x8000_0002..=0x8000_0004 => CpuidEntry {
            eax: brand.get_reg_for_leaf(e.function, Reg::EAX),
            ebx: brand.get_reg_for_leaf(e.function, Reg::EBX),
            ecx: brand.get_reg_for_leaf(e.function, Reg::ECX),
            edx: brand.get_reg_for_leaf(e.function, Reg::EDX),
            ..e
        },
        _ => e,
    }
}

} // verus!
