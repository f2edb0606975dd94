//! What holds of the filtered entries.
use crate::bit_helper::{
    bit, field, lemma_bits_determine, lemma_field_determines_bits, lemma_with_bit,
    lemma_with_field, lemma_with_field_commutes, lemma_with_field_frame, with_bit, with_field,
    BitRange, MAX_BIT_INDEX,
};
use crate::brand_string::{FIRST_LEAF, LAST_LEAF};
use crate::cpu_leaf::{leaf_0x1, leaf_0x4, leaf_0x6, leaf_0xb};
use crate::filter::{
    count_fits, filtered, lemma_capacities, max_addressable, Vcpu, EBX_CLFLUSH_CACHELINE,
    LEAFBH_INDEX1_APICID, MAX_ADDRESSABLE_CPUS,
};
use crate::kvm::CpuidEntry;
use crate::{count_allowed, filtered_entries, is_power_of_two};
use vstd::arithmetic::power2::{lemma2_to64, lemma_pow2_strictly_increases, pow2};
use vstd::prelude::*;

verus! {

/// The maximum number of addressable logical CPUs is a power of 2, not less than the number of
/// CPUs, and no smaller power of 2 will do. Unless it is 1, it is less than twice that number.
pub proof fn law_max_addressable(cpu_count: u8, p: int)
    requires
        exists|k: nat| p == #[trigger] pow2(k),
        cpu_count <= p,
    ensures
        is_power_of_two(max_addressable(cpu_count)),
        exists|k: nat| max_addressable(cpu_count) == #[trigger] pow2(k),
        cpu_count <= max_addressable(cpu_count),
        max_addressable(cpu_count) == 1 || max_addressable(cpu_count) < 2 * cpu_count,
        max_addressable(cpu_count) <= p,
{
    lemma2_to64();
    let m = max_addressable(cpu_count);
    let e: nat = if m == 1 {
        0
    } else if m == 2 {
        1
    } else if m == 4 {
        2
    } else if m == 8 {
        3
    } else if m == 16 {
        4
    } else if m == 32 {
        5
    } else if m == 64 {
        6
    } else if m == 128 {
        7
    } else {
        8
    };
    assert(m == pow2(e));
    let k = choose|k: nat| p == #[trigger] pow2(k);
    if k < e {
        let below: nat = (e - 1) as nat;
        if k < below {
            lemma_pow2_strictly_increases(k, below);
        }
        assert(2 * pow2(below) == pow2(e));
    } else if e < k {
        lemma_pow2_strictly_increases(e, k);
    }
}

/// More CPUs never have fewer addressable IDs.
pub proof fn law_max_addressable_monotone(a: u8, b: u8)
    requires
        a <= b,
    ensures
        max_addressable(a) <= max_addressable(b),
{
}

/// Filtering keeps what identifies an entry: its leaf, its sub-leaf, its flags and its padding.
pub proof fn law_identity_kept(e: CpuidEntry, vcpu: Vcpu, brand: Seq<u8>)
    ensures
        filtered(e, vcpu, brand).function == e.function,
        filtered(e, vcpu, brand).index == e.index,
        filtered(e, vcpu, brand).flags == e.flags,
        filtered(e, vcpu, brand).padding == e.padding,
{
}

/// An entry of a leaf other than 0x1, 0x4, 0x6, 0xA, 0xB and those of the brand string is left as
/// it is.
pub proof fn law_other_leaves_untouched(e: CpuidEntry, vcpu: Vcpu, brand: Seq<u8>)
    requires
        e.function != 0x1 && e.function != 0x4 && e.function != 0x6 && e.function != 0xa,
        e.function != 0xb,
        !(FIRST_LEAF <= e.function <= LAST_LEAF),
    ensures
        filtered(e, vcpu, brand) == e,
{
}

/// Each entry is filtered for itself: filtering two lists of entries one after the other is
/// filtering each of them.
pub proof fn law_entries_independent(
    a: Seq<CpuidEntry>,
    b: Seq<CpuidEntry>,
    vcpu: Vcpu,
    brand: Seq<u8>,
)
    ensures
        filtered_entries(a + b, vcpu, brand) == filtered_entries(a, vcpu, brand)
            + filtered_entries(b, vcpu, brand),
{
    assert(filtered_entries(a + b, vcpu, brand) =~= filtered_entries(a, vcpu, brand)
        + filtered_entries(b, vcpu, brand));
}

/// What leaf 0x1 tells: EBX the APIC ID, the size of a cache line and the number of addressable
/// IDs, ECX a hypervisor and the TSC deadline timer, EDX whether the number of addressable IDs is
/// valid, and all else as before.
pub proof fn law_feature_leaf(e: CpuidEntry, vcpu: Vcpu, brand: Seq<u8>)
    requires
        e.function == 0x1,
        vcpu.cpu_count <= MAX_ADDRESSABLE_CPUS,
    ensures
        ({
            let r = filtered(e, vcpu, brand);
            &&& r.eax == e.eax
            &&& field(r.ebx, leaf_0x1::ebx_apicid_bitrange()) == vcpu.cpu_id
            &&& field(r.ebx, leaf_0x1::ebx_clflush_size_bitrange()) == EBX_CLFLUSH_CACHELINE
            &&& field(r.ebx, leaf_0x1::ebx_cpu_count_bitrange()) == max_addressable(vcpu.cpu_count)
            &&& forall|i: u32| i < 8 ==> #[trigger] bit(r.ebx, i) == bit(e.ebx, i)
            &&& bit(r.ecx, leaf_0x1::ECX_TSC_DEADLINE_TIMER_BITINDEX)
            &&& bit(r.ecx, leaf_0x1::ECX_HYPERVISOR_BITINDEX)
            &&& forall|i: u32|
                i <= MAX_BIT_INDEX && i != leaf_0x1::ECX_TSC_DEADLINE_TIMER_BITINDEX && i
                    != leaf_0x1::ECX_HYPERVISOR_BITINDEX ==> #[trigger] bit(r.ecx, i) == bit(
                    e.ecx,
                    i,
                )
            &&& bit(r.edx, leaf_0x1::EDX_HTT) == (vcpu.cpu_count > 1)
            &&& forall|i: u32|
                i <= MAX_BIT_INDEX && i != leaf_0x1::EDX_HTT ==> #[trigger] bit(r.edx, i) == bit(
                    e.edx,
                    i,
                )
        }),
{
    lemma_capacities();
    let (ra, rb, rc) = (
        leaf_0x1::ebx_apicid_bitrange(),
        leaf_0x1::ebx_clflush_size_bitrange(),
        leaf_0x1::ebx_cpu_count_bitrange(),
    );
    let (va, vb, vc) = (
        vcpu.cpu_id as u32,
        EBX_CLFLUSH_CACHELINE,
        max_addressable(vcpu.cpu_count) as u32,
    );
    let x = with_field(e.ebx, ra, va);
    let y = with_field(x, rb, vb);
    lemma_with_field(e.ebx, ra, va);
    lemma_with_field(x, rb, vb);
    lemma_with_field(y, rc, vc);
    lemma_with_field_frame(x, rb, vb, ra);
    lemma_with_field_frame(y, rc, vc, ra);
    lemma_with_field_frame(y, rc, vc, rb);
    let r = filtered(e, vcpu, brand);
    assert forall|i: u32| i < 8 implies #[trigger] bit(r.ebx, i) == bit(e.ebx, i) by {
        assert(bit(y, i) == bit(x, i));
        assert(bit(x, i) == bit(e.ebx, i));
    }
    let c = with_bit(e.ecx, leaf_0x1::ECX_TSC_DEADLINE_TIMER_BITINDEX, true);
    lemma_with_bit(e.ecx, leaf_0x1::ECX_TSC_DEADLINE_TIMER_BITINDEX, true);
    lemma_with_bit(c, leaf_0x1::ECX_HYPERVISOR_BITINDEX, true);
    assert forall|i: u32|
        i <= MAX_BIT_INDEX && i != leaf_0x1::ECX_TSC_DEADLINE_TIMER_BITINDEX && i
            != leaf_0x1::ECX_HYPERVISOR_BITINDEX implies #[trigger] bit(r.ecx, i) == bit(e.ecx, i) by {
        assert(bit(c, i) == bit(e.ecx, i));
    }
    lemma_with_bit(e.edx, leaf_0x1::EDX_HTT, vcpu.cpu_count > 1);
}

/// What leaf 0x4 tells in EAX: caches of the levels 1 and 2 are shared by the hyperthreads of a
/// core, caches of level 3 by all virtual CPUs, all virtual CPUs are in the package, and all else
/// is as before, the level of the cache included.
pub proof fn law_cache_leaf(e: CpuidEntry, vcpu: Vcpu, brand: Seq<u8>)
    requires
        e.function == 0x4,
        count_fits(vcpu.cpu_count, e.function),
    ensures
        ({
            let r = filtered(e, vcpu, brand);
            let level = field(e.eax, leaf_0x4::eax_cache_level_bitrange());
            let sharing = leaf_0x4::eax_max_addr_ids_sharing_cache_bitrange();
            &&& r.ebx == e.ebx && r.ecx == e.ecx && r.edx == e.edx
            &&& field(r.eax, leaf_0x4::eax_cache_level_bitrange()) == level
            &&& field(r.eax, leaf_0x4::eax_max_addr_ids_in_package_bitrange()) + 1
                == vcpu.cpu_count
            &&& field(r.eax, sharing) == if level == 1 || level == 2 {
                vcpu.smt()
            } else if level == 3 {
                vcpu.others()
            } else {
                field(e.eax, sharing)
            }
            &&& forall|i: u32| i < 14 ==> #[trigger] bit(r.eax, i) == bit(e.eax, i)
        }),
{
    lemma_capacities();
    let level = field(e.eax, leaf_0x4::eax_cache_level_bitrange());
    let (rl, rs, rp) = (
        leaf_0x4::eax_cache_level_bitrange(),
        leaf_0x4::eax_max_addr_ids_sharing_cache_bitrange(),
        leaf_0x4::eax_max_addr_ids_in_package_bitrange(),
    );
    let v = if level == 3 {
        vcpu.others()
    } else {
        vcpu.smt()
    };
    let x = if 1 <= level <= 3 {
        with_field(e.eax, rs, v)
    } else {
        e.eax
    };
    let r = filtered(e, vcpu, brand);
    assert(r.eax == with_field(x, rp, vcpu.others()));
    lemma_with_field(e.eax, rs, v);
    lemma_with_field(x, rp, vcpu.others());
    lemma_with_field_frame(e.eax, rs, v, rl);
    lemma_with_field_frame(x, rp, vcpu.others(), rl);
    lemma_with_field_frame(x, rp, vcpu.others(), rs);
    assert forall|i: u32| i < 14 implies #[trigger] bit(r.eax, i) == bit(e.eax, i) by {
        assert(bit(x, i) == bit(e.eax, i));
    }
}

/// Leaf 0x6 tells neither Turbo Boost nor an energy preference, and all else as before.
pub proof fn law_power_leaf(e: CpuidEntry, vcpu: Vcpu, brand: Seq<u8>)
    requires
        e.function == 0x6,
    ensures
        ({
            let r = filtered(e, vcpu, brand);
            &&& r.ebx == e.ebx && r.edx == e.edx
            &&& !bit(r.eax, leaf_0x6::EAX_TURBO_BOOST_BITINDEX)
            &&& forall|i: u32|
                i <= MAX_BIT_INDEX && i != leaf_0x6::EAX_TURBO_BOOST_BITINDEX ==> #[trigger] bit(
                    r.eax,
                    i,
                ) == bit(e.eax, i)
            &&& !bit(r.ecx, leaf_0x6::ECX_EPB_BITINDEX)
            &&& forall|i: u32|
                i <= MAX_BIT_INDEX && i != leaf_0x6::ECX_EPB_BITINDEX ==> #[trigger] bit(r.ecx, i)
                    == bit(e.ecx, i)
        }),
{
    lemma_with_bit(e.eax, leaf_0x6::EAX_TURBO_BOOST_BITINDEX, false);
    lemma_with_bit(e.ecx, leaf_0x6::ECX_EPB_BITINDEX, false);
}

/// Leaf 0xA tells no performance monitoring: all of its registers are 0.
pub proof fn law_performance_leaf(e: CpuidEntry, vcpu: Vcpu, brand: Seq<u8>)
    requires
        e.function == 0xa,
    ensures
        ({
            let r = filtered(e, vcpu, brand);
            r.eax == 0 && r.ebx == 0 && r.ecx == 0 && r.edx == 0
        }),
{
}

/// What leaf 0xB tells, whatever the entry held before. EDX is the x2APIC ID. Sub-leaf 0 has the
/// number of hyperthreads of a core in EBX and the shift to the ID of the core in EAX. Sub-leaf 1
/// has the number of virtual CPUs in EBX, unless there is only one, and level number 1 in ECX.
/// Other sub-leaves have nothing but their own number in ECX.
pub proof fn law_topology_leaf(e: CpuidEntry, vcpu: Vcpu, brand: Seq<u8>)
    requires
        e.function == 0xb,
    ensures
        ({
            let r = filtered(e, vcpu, brand);
            &&& r.edx == vcpu.cpu_id
            &&& e.index == 0 ==> {
                &&& r.eax == vcpu.smt()
                &&& r.ebx == 1 + vcpu.smt()
                &&& r.ecx == 0x100 * if vcpu.cpu_count == 1 {
                    leaf_0xb::LEVEL_TYPE_CORE
                } else {
                    leaf_0xb::LEVEL_TYPE_THREAD
                }
            }
            &&& e.index == 1 ==> {
                &&& r.eax == LEAFBH_INDEX1_APICID
                &&& r.ebx == if vcpu.cpu_count == 1 {
                    0
                } else {
                    vcpu.cpu_count as u32
                }
                &&& r.ecx == 1 + 0x100 * if vcpu.cpu_count == 1 {
                    leaf_0xb::LEVEL_TYPE_INVALID
                } else {
                    leaf_0xb::LEVEL_TYPE_CORE
                }
            }
            &&& e.index > 1 ==> r.eax == 0 && r.ebx == 0 && r.ecx == e.index
        }),
{
    assert forall|range: BitRange, v: u32| #[trigger]
        with_field(0, range, v) == v << range.lsb_index by {
        let m = range.mask();
        let w = v << range.lsb_index;
        assert((0u32 & !m) | w == w) by (bit_vector);
    }
    assert forall|v: u32| #[trigger] (v << 0u32) == v by {
        assert(v << 0u32 == v) by (bit_vector);
    }
    let m = leaf_0xb::ecx_level_type_bitrange().mask();
    assert(1u32 << 8u32 == 0x100 && 2u32 << 8u32 == 0x200 && 0u32 << 8u32 == 0) by (bit_vector);
    assert((1u32 & !m) | 0x200 == 0x201 && (1u32 & !m) | 0 == 1) by (bit_vector)
        requires
            m == (0xffff_ffffu32 << 8u32) & (0xffff_ffffu32 >> 16u32),
    ;
}

/// Nothing is left of an earlier filtering: an entry that was filtered for another virtual CPU, or
/// another guest, before is filtered as if it had not been.
pub proof fn law_last_filter_wins(
    e: CpuidEntry,
    earlier: Vcpu,
    earlier_brand: Seq<u8>,
    vcpu: Vcpu,
    brand: Seq<u8>,
)
    requires
        earlier.cpu_count <= MAX_ADDRESSABLE_CPUS,
        vcpu.cpu_count <= MAX_ADDRESSABLE_CPUS,
        count_fits(earlier.cpu_count, e.function),
        count_fits(vcpu.cpu_count, e.function),
    ensures
        filtered(filtered(e, earlier, earlier_brand), vcpu, brand) == filtered(e, vcpu, brand),
{
    let first = filtered(e, earlier, earlier_brand);
    let r = filtered(first, vcpu, brand);
    let t = filtered(e, vcpu, brand);
    if e.function == 0x1 {
        law_feature_leaf(e, earlier, earlier_brand);
        law_feature_leaf(first, vcpu, brand);
        law_feature_leaf(e, vcpu, brand);
        lemma_field_determines_bits(r.ebx, t.ebx, leaf_0x1::ebx_apicid_bitrange());
        lemma_field_determines_bits(r.ebx, t.ebx, leaf_0x1::ebx_clflush_size_bitrange());
        lemma_field_determines_bits(r.ebx, t.ebx, leaf_0x1::ebx_cpu_count_bitrange());
        assert forall|i: u32| i <= MAX_BIT_INDEX implies #[trigger] bit(r.ebx, i) == bit(t.ebx, i) by {
            if i < 8 {
                assert(bit(r.ebx, i) == bit(first.ebx, i));
            }
        }
        lemma_bits_determine(r.ebx, t.ebx);
        lemma_bits_determine(r.ecx, t.ecx);
        lemma_bits_determine(r.edx, t.edx);
    } else if e.function == 0x4 {
        law_cache_leaf(e, earlier, earlier_brand);
        law_cache_leaf(first, vcpu, brand);
        law_cache_leaf(e, vcpu, brand);
        let sharing = leaf_0x4::eax_max_addr_ids_sharing_cache_bitrange();
        lemma_field_determines_bits(r.eax, t.eax, sharing);
        lemma_field_determines_bits(
            r.eax,
            t.eax,
            leaf_0x4::eax_max_addr_ids_in_package_bitrange(),
        );
        assert forall|i: u32| i <= MAX_BIT_INDEX implies #[trigger] bit(r.eax, i) == bit(t.eax, i) by {
            if i < 14 {
                assert(bit(r.eax, i) == bit(first.eax, i));
            }
        }
        lemma_bits_determine(r.eax, t.eax);
    } else if e.function == 0x6 {
        law_power_leaf(e, earlier, earlier_brand);
        law_power_leaf(first, vcpu, brand);
        law_power_leaf(e, vcpu, brand);
        lemma_bits_determine(r.eax, t.eax);
        lemma_bits_determine(r.ecx, t.ecx);
    }
}

/// Filtering twice is filtering once.
pub proof fn law_filter_idempotent(e: CpuidEntry, vcpu: Vcpu, brand: Seq<u8>)
    requires
        vcpu.cpu_count <= MAX_ADDRESSABLE_CPUS,
        count_fits(vcpu.cpu_count, e.function),
    ensures
        filtered(filtered(e, vcpu, brand), vcpu, brand) == filtered(e, vcpu, brand),
{
    law_last_filter_wins(e, vcpu, brand, vcpu, brand);
}

/// Filtering a list of entries twice is filtering it once.
pub proof fn law_filter_entries_idempotent(
    entries: Seq<CpuidEntry>,
    vcpu: Vcpu,
    brand: Seq<u8>,
)
    requires
        vcpu.cpu_count <= MAX_ADDRESSABLE_CPUS,
        count_allowed(vcpu.cpu_count, entries),
    ensures
        count_allowed(vcpu.cpu_count, filtered_entries(entries, vcpu, brand)),
        filtered_entries(filtered_entries(entries, vcpu, brand), vcpu, brand) == filtered_entries(
            entries,
            vcpu,
            brand,
        ),
{
    let once = filtered_entries(entries, vcpu, brand);
    assert forall|i: int| 0 <= i < entries.len() implies filtered(
        #[trigger] once[i],
        vcpu,
        brand,
    ) == once[i] by {
        assert(count_fits(vcpu.cpu_count, entries[i].function));
        law_filter_idempotent(entries[i], vcpu, brand);
    }
    assert forall|i: int| 0 <= i < once.len() implies count_fits(
        vcpu.cpu_count,
        (#[trigger] once[i]).function,
    ) by {
        assert(count_fits(vcpu.cpu_count, entries[i].function));
    }
    assert(filtered_entries(once, vcpu, brand) =~= once);
}

/// Two virtual CPUs of one guest get the same entries, but for the APIC ID in EBX of leaf 0x1 and
/// the x2APIC ID in EDX of leaf 0xB.
pub proof fn law_only_apic_ids_differ(e: CpuidEntry, a: Vcpu, b: Vcpu, brand: Seq<u8>)
    requires
        a.cpu_count == b.cpu_count,
        a.ht_enabled == b.ht_enabled,
        a.cpu_count <= MAX_ADDRESSABLE_CPUS,
    ensures
        ({
            let x = filtered(e, a, brand);
            let y = filtered(e, b, brand);
            &&& e.function != 0x1 && e.function != 0xb ==> x == y
            &&& e.function == 0x1 ==> {
                &&& (CpuidEntry { ebx: 0, ..x }) == (CpuidEntry { ebx: 0, ..y })
                &&& forall|i: u32| i < 24 ==> #[trigger] bit(x.ebx, i) == bit(y.ebx, i)
            }
            &&& e.function == 0xb ==> (CpuidEntry { edx: 0, ..x }) == (CpuidEntry { edx: 0, ..y })
        }),
{
    if e.function == 0x1 {
        lemma_capacities();
        let (rx, rb, rc) = (
            leaf_0x1::ebx_apicid_bitrange(),
            leaf_0x1::ebx_clflush_size_bitrange(),
            leaf_0x1::ebx_cpu_count_bitrange(),
        );
        let c = max_addressable(a.cpu_count) as u32;
        // The APIC ID may as well be written last.
        let rest = with_field(with_field(e.ebx, rb, EBX_CLFLUSH_CACHELINE), rc, c);
        lemma_apic_id_last(e.ebx, a.cpu_id, c);
        lemma_apic_id_last(e.ebx, b.cpu_id, c);
        lemma_with_field(rest, rx, a.cpu_id as u32);
        lemma_with_field(rest, rx, b.cpu_id as u32);
        let x = filtered(e, a, brand);
        let y = filtered(e, b, brand);
        assert forall|i: u32| i < 24 implies #[trigger] bit(x.ebx, i) == bit(y.ebx, i) by {
            assert(bit(x.ebx, i) == bit(rest, i));
            assert(bit(y.ebx, i) == bit(rest, i));
        }
    }
}

/// In EBX of leaf 0x1 the APIC ID may be written last.
proof fn lemma_apic_id_last(ebx: u32, cpu_id: u8, max: u32)
    requires
        max <= 0xff,
    ensures
        ({
            let (rx, rb, rc) = (
                leaf_0x1::ebx_apicid_bitrange(),
                leaf_0x1::ebx_clflush_size_bitrange(),
                leaf_0x1::ebx_cpu_count_bitrange(),
            );
            with_field(
                with_field(with_field(ebx, rx, cpu_id as u32), rb, EBX_CLFLUSH_CACHELINE),
                rc,
                max,
            ) == with_field(
                with_field(with_field(ebx, rb, EBX_CLFLUSH_CACHELINE), rc, max),
                rx,
                cpu_id as u32,
            )
        }),
{
    lemma_capacities();
    let (rx, rb, rc) = (
        leaf_0x1::ebx_apicid_bitrange(),
        leaf_0x1::ebx_clflush_size_bitrange(),
        leaf_0x1::ebx_cpu_count_bitrange(),
    );
    lemma_with_field_commutes(ebx, rx, cpu_id as u32, rb, EBX_CLFLUSH_CACHELINE);
    lemma_with_field_commutes(
        with_field(ebx, rb, EBX_CLFLUSH_CACHELINE),
        rx,
        cpu_id as u32,
        rc,
        max,
    );
}

} // verus!
