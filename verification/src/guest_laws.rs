//! What a guest reads after the entries were set up, in numbers.
//!
//! The registers are taken apart by shifts and masks here, and the bits are those of the manual of
//! the processor.
use crate::bit_helper::{field, with_field};
use crate::brand_laws::law_leaf_register_bytes;
use crate::brand_string::{self, Reg};
use crate::cpu_leaf::{leaf_0x1, leaf_0x4, leaf_0x6};
use crate::filter::{filtered, max_addressable, Vcpu};
use crate::kvm::CpuidEntry;
use crate::laws::{law_max_addressable, law_topology_leaf};
use crate::{count_allowed, filter_outcome, Error, Result};
use vstd::arithmetic::power2::pow2;
use vstd::prelude::*;

verus! {

/// The list keeps its length, and the entry at every place is filtered.
pub proof fn law_every_entry_is_filtered(
    before: Seq<CpuidEntry>,
    cpu_id: u8,
    cpu_count: u8,
    ht_enabled: bool,
    brand: Seq<u8>,
    brand_error: Option<brand_string::Error>,
    after: Seq<CpuidEntry>,
    r: Result<()>,
)
    requires
        filter_outcome(
            before,
            (Vcpu { cpu_id, cpu_count, ht_enabled }),
            brand,
            brand_error,
            after,
            r,
        ),
        cpu_count <= 128,
    ensures
        after.len() == before.len(),
        forall|i: int|
            0 <= i < before.len() ==> #[trigger] after[i] == filtered(
                before[i],
                (Vcpu { cpu_id, cpu_count, ht_enabled }),
                brand,
            ),
{
}

/// More than 128 virtual CPUs are refused and nothing changes. Otherwise the result is `Ok`, unless
/// there was an error with the brand string, which is handed on.
pub proof fn law_result(
    before: Seq<CpuidEntry>,
    cpu_id: u8,
    cpu_count: u8,
    ht_enabled: bool,
    brand: Seq<u8>,
    brand_error: Option<brand_string::Error>,
    after: Seq<CpuidEntry>,
    r: Result<()>,
)
    requires
        filter_outcome(
            before,
            (Vcpu { cpu_id, cpu_count, ht_enabled }),
            brand,
            brand_error,
            after,
            r,
        ),
    ensures
        cpu_count > 128 ==> after == before && r == Err::<(), Error>(Error::VcpuCountOverflow),
        cpu_count <= 128 && brand_error is None ==> r is Ok,
        cpu_count <= 128 && brand_error is Some ==> r == Err::<(), Error>(
            Error::CreateBrandString(brand_error->0),
        ),
{
}

/// The entries can be set up for 1 to 64 virtual CPUs, or where no entry is of the leaf 0x4. More
/// than 128 are refused, whatever the entries.
pub proof fn law_count_allowed(cpu_count: u8, entries: Seq<CpuidEntry>)
    ensures
        count_allowed(cpu_count, entries) <==> {
            ||| 1 <= cpu_count <= 64
            ||| cpu_count > 128
            ||| forall|i: int| 0 <= i < entries.len() ==> (#[trigger] entries[i]).function != 0x4
        },
{
    if exists|i: int| 0 <= i < entries.len() && (#[trigger] entries[i]).function == 0x4 {
        let i = choose|i: int| 0 <= i < entries.len() && (#[trigger] entries[i]).function == 0x4;
        assert(entries[i].function == 0x4);
    }
}

/// No entry changes its leaf, its sub-leaf, its flags or its padding, and an entry of a leaf that
/// is not set up does not change at all.
pub proof fn law_kept(
    before: Seq<CpuidEntry>,
    cpu_id: u8,
    cpu_count: u8,
    ht_enabled: bool,
    brand: Seq<u8>,
    brand_error: Option<brand_string::Error>,
    after: Seq<CpuidEntry>,
    r: Result<()>,
    i: int,
)
    requires
        filter_outcome(
            before,
            (Vcpu { cpu_id, cpu_count, ht_enabled }),
            brand,
            brand_error,
            after,
            r,
        ),
        0 <= i < before.len(),
    ensures
        after[i].function == before[i].function,
        after[i].index == before[i].index,
        after[i].flags == before[i].flags,
        after[i].padding == before[i].padding,
        before[i].function != 0x1 && before[i].function != 0x4 && before[i].function != 0x6
            && before[i].function != 0xa && before[i].function != 0xb && !(0x8000_0002
            <= before[i].function <= 0x8000_0004) ==> after[i] == before[i],
{
}

/// The leaf 0x1. EBX has the APIC ID in its bits 31 to 24, the least power of 2 that is not less
/// than the number of virtual CPUs in its bits 23 to 16, and 8 in its bits 15 to 8. In ECX the bits
/// 24 and 31 are set. In EDX the bit 28 tells whether there is more than one virtual CPU.
pub proof fn law_guest_features(
    before: Seq<CpuidEntry>,
    cpu_id: u8,
    cpu_count: u8,
    ht_enabled: bool,
    brand: Seq<u8>,
    brand_error: Option<brand_string::Error>,
    after: Seq<CpuidEntry>,
    r: Result<()>,
    i: int,
)
    requires
        filter_outcome(
            before,
            (Vcpu { cpu_id, cpu_count, ht_enabled }),
            brand,
            brand_error,
            after,
            r,
        ),
        cpu_count <= 128,
        0 <= i < before.len(),
        before[i].function == 0x1,
    ensures
        after[i].eax == before[i].eax,
        after[i].ebx >> 24 == cpu_id,
        exists|k: nat| (after[i].ebx >> 16) & 0xff == #[trigger] pow2(k),
        cpu_count <= (after[i].ebx >> 16) & 0xff,
        (after[i].ebx >> 16) & 0xff == 1 || (after[i].ebx >> 16) & 0xff < 2 * cpu_count,
        (after[i].ebx >> 8) & 0xff == 8,
        after[i].ebx & 0xff == before[i].ebx & 0xff,
        (after[i].ecx >> 24) & 1 == 1,
        (after[i].ecx >> 31) & 1 == 1,
        after[i].ecx & 0x7eff_ffff == before[i].ecx & 0x7eff_ffff,
        (after[i].edx >> 28) & 1 == (if cpu_count >= 2 {
            1u32
        } else {
            0
        }),
        after[i].edx & 0xefff_ffff == before[i].edx & 0xefff_ffff,
{
    let (e, a) = (before[i], after[i]);
    let (x, v, m) = (e.ebx, cpu_id as u32, max_addressable(cpu_count) as u32);
    assert(a.ebx == with_field(
        with_field(
            with_field(x, leaf_0x1::ebx_apicid_bitrange(), v),
            leaf_0x1::ebx_clflush_size_bitrange(),
            8,
        ),
        leaf_0x1::ebx_cpu_count_bitrange(),
        m,
    ));
    let (ma, mb, mc) = (
        leaf_0x1::ebx_apicid_bitrange().mask(),
        leaf_0x1::ebx_clflush_size_bitrange().mask(),
        leaf_0x1::ebx_cpu_count_bitrange().mask(),
    );
    let b = a.ebx;
    assert(b >> 24 == v && (b >> 16) & 0xff == m && (b >> 8) & 0xff == 8 && b & 0xff == x & 0xff)
        by (bit_vector)
        requires
            v <= 0xff,
            m <= 0xff,
            ma == (0xffff_ffffu32 << 24u32) & (0xffff_ffffu32 >> 0u32),
            mb == (0xffff_ffffu32 << 8u32) & (0xffff_ffffu32 >> 16u32),
            mc == (0xffff_ffffu32 << 16u32) & (0xffff_ffffu32 >> 8u32),
            b == (((((x & !ma) | (v << 24u32)) & !mb) | (8u32 << 8u32)) & !mc) | (m << 16u32),
    ;
    assert(pow2(7) == 128 && pow2(8) == 256) by {
        vstd::arithmetic::power2::lemma2_to64();
    }
    law_max_addressable(cpu_count, 256);
    let k = choose|k: nat| max_addressable(cpu_count) == #[trigger] pow2(k);
    assert((b >> 16) & 0xff == pow2(k));
    let (c, d) = (e.ecx, e.edx);
    let cc = (c | (1u32 << 24u32)) | (1u32 << 31u32);
    assert(a.ecx == cc);
    assert((cc >> 24) & 1 == 1 && (cc >> 31) & 1 == 1 && cc & 0x7eff_ffff == c & 0x7eff_ffff)
        by (bit_vector)
        requires
            cc == (c | (1u32 << 24u32)) | (1u32 << 31u32),
    ;
    let dd = a.edx;
    assert(dd == if cpu_count > 1 {
        d | (1u32 << 28u32)
    } else {
        d & !(1u32 << 28u32)
    });
    assert(((d | (1u32 << 28u32)) >> 28) & 1 == 1 && ((d & !(1u32 << 28u32)) >> 28) & 1 == 0 && (d
        | (1u32 << 28u32)) & 0xefff_ffff == d & 0xefff_ffff && (d & !(1u32 << 28u32)) & 0xefff_ffff
        == d & 0xefff_ffff) by (bit_vector);
}

/// The leaf 0x4. The bits 31 to 26 of EAX tell the number of virtual CPUs, less one. The bits 25 to
/// 14 tell how many share the cache, less one: all of them at level 3; at the levels 1 and 2 two,
/// where there are two or more and hyperthreading is on, and otherwise one. All else stays.
pub proof fn law_guest_caches(
    before: Seq<CpuidEntry>,
    cpu_id: u8,
    cpu_count: u8,
    ht_enabled: bool,
    brand: Seq<u8>,
    brand_error: Option<brand_string::Error>,
    after: Seq<CpuidEntry>,
    r: Result<()>,
    i: int,
)
    requires
        filter_outcome(
            before,
            (Vcpu { cpu_id, cpu_count, ht_enabled }),
            brand,
            brand_error,
            after,
            r,
        ),
        1 <= cpu_count <= 64,
        0 <= i < before.len(),
        before[i].function == 0x4,
    ensures
        (after[i].eax >> 26) + 1 == cpu_count,
        (before[i].eax >> 5) & 7 == 3 ==> ((after[i].eax >> 14) & 0xfff) + 1 == cpu_count,
        (before[i].eax >> 5) & 7 == 1 || (before[i].eax >> 5) & 7 == 2 ==> (after[i].eax >> 14)
            & 0xfff == (if ht_enabled && cpu_count >= 2 {
            1u32
        } else {
            0
        }),
        (before[i].eax >> 5) & 7 == 0 || (before[i].eax >> 5) & 7 > 3 ==> (after[i].eax >> 14)
            & 0xfff == (before[i].eax >> 14) & 0xfff,
        after[i].eax & 0x3fff == before[i].eax & 0x3fff,
        after[i].ebx == before[i].ebx,
        after[i].ecx == before[i].ecx,
        after[i].edx == before[i].edx,
{
    let (e, a) = (before[i], after[i]);
    let n = (cpu_count - 1) as u32;
    let level = field(e.eax, leaf_0x4::eax_cache_level_bitrange());
    assert(0xffff_ffffu32 >> 29u32 == 7) by (bit_vector);
    assert(level == (e.eax >> 5) & 7);
    let s: u32 = if level == 3 {
        n
    } else if ht_enabled && cpu_count >= 2 {
        1
    } else {
        0
    };
    let (ms, mp) = (
        leaf_0x4::eax_max_addr_ids_sharing_cache_bitrange().mask(),
        leaf_0x4::eax_max_addr_ids_in_package_bitrange().mask(),
    );
    let x = e.eax;
    let y = if 1 <= level <= 3 {
        (x & !ms) | (s << 14u32)
    } else {
        x
    };
    let z = a.eax;
    assert((x >> 5u32) & 7 <= 7) by (bit_vector);
    assert(z == (y & !mp) | (n << 26u32));
    assert(z >> 26 == n && z & 0x3fff == y & 0x3fff && (z >> 14) & 0xfff == (y >> 14) & 0xfff && ((
    (x & !ms) | (s << 14u32)) >> 14) & 0xfff == s && ((x & !ms) | (s << 14u32)) & 0x3fff == x
        & 0x3fff) by (bit_vector)
        requires
            n <= 63,
            s <= 63,
            ms == (0xffff_ffffu32 << 14u32) & (0xffff_ffffu32 >> 6u32),
            mp == (0xffff_ffffu32 << 26u32) & (0xffff_ffffu32 >> 0u32),
            z == (y & !mp) | (n << 26u32),
    ;
}

/// The leaf 0x6: the bit 1 of EAX and the bit 3 of ECX are cleared, and all else stays. The leaf
/// 0xA: all registers are 0.
pub proof fn law_guest_power_and_performance(
    before: Seq<CpuidEntry>,
    cpu_id: u8,
    cpu_count: u8,
    ht_enabled: bool,
    brand: Seq<u8>,
    brand_error: Option<brand_string::Error>,
    after: Seq<CpuidEntry>,
    r: Result<()>,
    i: int,
)
    requires
        filter_outcome(
            before,
            (Vcpu { cpu_id, cpu_count, ht_enabled }),
            brand,
            brand_error,
            after,
            r,
        ),
        cpu_count <= 128,
        0 <= i < before.len(),
    ensures
        before[i].function == 0x6 ==> {
            &&& after[i].eax == before[i].eax & 0xffff_fffd
            &&& after[i].ebx == before[i].ebx
            &&& after[i].ecx == before[i].ecx & 0xffff_fff7
            &&& after[i].edx == before[i].edx
        },
        before[i].function == 0xa ==> {
            &&& after[i].eax == 0
            &&& after[i].ebx == 0
            &&& after[i].ecx == 0
            &&& after[i].edx == 0
        },
{
    assert(leaf_0x6::EAX_TURBO_BOOST_BITINDEX == 1 && leaf_0x6::ECX_EPB_BITINDEX == 3);
    assert(!(1u32 << 1u32) == 0xffff_fffd && !(1u32 << 3u32) == 0xffff_fff7) by (bit_vector);
}

/// The leaf 0xB. EDX has the x2APIC ID. Sub-leaf 0: with two or more virtual CPUs and
/// hyperthreading on, two logical processors make up a core and one bit of the ID tells them apart;
/// otherwise one does, and no bit. Sub-leaf 1: as many logical processors as there are virtual CPUs.
/// With a single one, sub-leaf 0 is the level of the cores and sub-leaf 1 is invalid.
pub proof fn law_guest_topology(
    before: Seq<CpuidEntry>,
    cpu_id: u8,
    cpu_count: u8,
    ht_enabled: bool,
    brand: Seq<u8>,
    brand_error: Option<brand_string::Error>,
    after: Seq<CpuidEntry>,
    r: Result<()>,
    i: int,
)
    requires
        filter_outcome(
            before,
            (Vcpu { cpu_id, cpu_count, ht_enabled }),
            brand,
            brand_error,
            after,
            r,
        ),
        cpu_count <= 128,
        0 <= i < before.len(),
        before[i].function == 0xb,
    ensures
        after[i].edx == cpu_id,
        before[i].index == 0 && ht_enabled && cpu_count >= 2 ==> after[i].eax == 1 && after[i].ebx
            == 2,
        before[i].index == 0 && !(ht_enabled && cpu_count >= 2) ==> after[i].eax == 0
            && after[i].ebx == 1,
        before[i].index == 0 && cpu_count == 1 ==> after[i].ecx == 0x200,
        before[i].index == 0 && cpu_count != 1 ==> after[i].ecx == 0x100,
        before[i].index == 1 ==> after[i].eax == 6,
        before[i].index == 1 && cpu_count == 1 ==> after[i].ebx == 0 && after[i].ecx == 1,
        before[i].index == 1 && cpu_count != 1 ==> after[i].ebx == cpu_count && after[i].ecx
            == 0x201,
        before[i].index >= 2 ==> after[i].eax == 0 && after[i].ebx == 0 && after[i].ecx
            == before[i].index,
{
    law_topology_leaf(before[i], Vcpu { cpu_id, cpu_count, ht_enabled }, brand);
}

/// What sets one virtual CPU apart from another, and one guest from another, at every place of the
/// list: the APIC ID, the x2APIC ID, and how many logical processors there are at either level.
pub proof fn law_guest_ids(
    before: Seq<CpuidEntry>,
    cpu_id: u8,
    cpu_count: u8,
    ht_enabled: bool,
    brand: Seq<u8>,
    brand_error: Option<brand_string::Error>,
    after: Seq<CpuidEntry>,
    r: Result<()>,
)
    requires
        filter_outcome(
            before,
            (Vcpu { cpu_id, cpu_count, ht_enabled }),
            brand,
            brand_error,
            after,
            r,
        ),
        cpu_count <= 128,
    ensures
        after.len() == before.len(),
        forall|i: int|
            #![trigger after[i]]
            0 <= i < before.len() ==> {
                &&& before[i].function == 0x1 ==> after[i].ebx >> 24 == cpu_id
                &&& before[i].function == 0xb ==> after[i].edx == cpu_id
                &&& before[i].function == 0xb && before[i].index == 0 ==> after[i].ebx == (
                if ht_enabled && cpu_count >= 2 {
                    2u32
                } else {
                    1
                })
                &&& before[i].function == 0xb && before[i].index == 1 && cpu_count != 1
                    ==> after[i].ebx == cpu_count
            },
{
    assert forall|i: int| #![trigger after[i]] 0 <= i < before.len() implies {
        &&& before[i].function == 0x1 ==> after[i].ebx >> 24 == cpu_id
        &&& before[i].function == 0xb ==> after[i].edx == cpu_id
        &&& before[i].function == 0xb && before[i].index == 0 ==> after[i].ebx == (
        if ht_enabled && cpu_count >= 2 {
            2u32
        } else {
            1
        })
        &&& before[i].function == 0xb && before[i].index == 1 && cpu_count != 1 ==> after[i].ebx
            == cpu_count
    } by {
        if before[i].function == 0x1 {
            law_guest_features(
                before, cpu_id, cpu_count, ht_enabled, brand, brand_error, after, r, i,
            );
        }
        if before[i].function == 0xb {
            law_guest_topology(
                before, cpu_id, cpu_count, ht_enabled, brand, brand_error, after, r, i,
            );
        }
    }
}

/// Different virtual CPUs of a guest have different APIC IDs and different x2APIC IDs, even where
/// the entries that they were set up from differ.
pub proof fn law_apic_ids_distinct(
    before: Seq<CpuidEntry>,
    cpu_id: u8,
    other_before: Seq<CpuidEntry>,
    other_cpu_id: u8,
    cpu_count: u8,
    ht_enabled: bool,
    brand: Seq<u8>,
    brand_error: Option<brand_string::Error>,
    after: Seq<CpuidEntry>,
    r: Result<()>,
    other_after: Seq<CpuidEntry>,
    other_r: Result<()>,
    i: int,
    j: int,
)
    requires
        filter_outcome(
            before,
            (Vcpu { cpu_id, cpu_count, ht_enabled }),
            brand,
            brand_error,
            after,
            r,
        ),
        filter_outcome(
            other_before,
            (Vcpu { cpu_id: other_cpu_id, cpu_count, ht_enabled }),
            brand,
            brand_error,
            other_after,
            other_r,
        ),
        cpu_count <= 128,
        cpu_id != other_cpu_id,
        0 <= i < before.len(),
        0 <= j < other_before.len(),
    ensures
        before[i].function == 0x1 && other_before[j].function == 0x1 ==> after[i].ebx >> 24
            != other_after[j].ebx >> 24,
        before[i].function == 0xb && other_before[j].function == 0xb ==> after[i].edx
            != other_after[j].edx,
{
    if before[i].function == 0x1 && other_before[j].function == 0x1 {
        law_guest_features(
            before, cpu_id, cpu_count, ht_enabled, brand, brand_error, after, r, i,
        );
        law_guest_features(
            other_before,
            other_cpu_id,
            cpu_count,
            ht_enabled,
            brand,
            brand_error,
            other_after,
            other_r,
            j,
        );
    }
    if before[i].function == 0xb && other_before[j].function == 0xb {
        law_guest_topology(
            before, cpu_id, cpu_count, ht_enabled, brand, brand_error, after, r, i,
        );
        law_guest_topology(
            other_before,
            other_cpu_id,
            cpu_count,
            ht_enabled,
            brand,
            brand_error,
            other_after,
            other_r,
            j,
        );
    }
}

/// The leaves 0x80000002 to 0x80000004: byte `j` of the four registers of such an entry, the lowest
/// byte of EAX first, is a byte of the brand string, which goes on from leaf to leaf, or 0 behind
/// its end.
pub proof fn law_guest_brand_bytes(
    before: Seq<CpuidEntry>,
    cpu_id: u8,
    cpu_count: u8,
    ht_enabled: bool,
    brand: Seq<u8>,
    brand_error: Option<brand_string::Error>,
    after: Seq<CpuidEntry>,
    r: Result<()>,
    i: int,
    j: int,
)
    requires
        filter_outcome(
            before,
            (Vcpu { cpu_id, cpu_count, ht_enabled }),
            brand,
            brand_error,
            after,
            r,
        ),
        cpu_count <= 128,
        0 <= i < before.len(),
        0x8000_0002 <= before[i].function <= 0x8000_0004,
        0 <= j < 16,
    ensures
        ({
            let at = 16 * (before[i].function - 0x8000_0002) + j;
            let reg = if j < 4 {
                after[i].eax
            } else if j < 8 {
                after[i].ebx
            } else if j < 12 {
                after[i].ecx
            } else {
                after[i].edx
            };
            let byte = if j % 4 == 0 {
                reg & 0xff
            } else if j % 4 == 1 {
                (reg >> 8) & 0xff
            } else if j % 4 == 2 {
                (reg >> 16) & 0xff
            } else {
                reg >> 24
            };
            byte == if at < brand.len() {
                brand[at]
            } else {
                0
            }
        }),
{
    let f = before[i].function;
    law_leaf_register_bytes(brand, f, Reg::EAX);
    law_leaf_register_bytes(brand, f, Reg::EBX);
    law_leaf_register_bytes(brand, f, Reg::ECX);
    law_leaf_register_bytes(brand, f, Reg::EDX);
}

} // verus!
