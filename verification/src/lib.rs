//! Configuring the CPUID (CPU identification) of a guest microVM.
//!
//! A hypervisor hands the CPUID entries that KVM supports to [`filter_cpuid`], which adapts them
//! to one virtual CPU of the guest before they are set for it.
use vstd::prelude::*;

pub mod bit_helper;
pub mod brand_laws;
pub mod brand_string;
pub mod cpu_leaf;
pub mod filter;
pub mod frequency;
pub mod guest_laws;
pub mod host;
pub mod kvm;
pub mod laws;

use brand_string::{host_text, text_of, BrandString, MAX_LEN};
use filter::{
    count_fits, filter_entry, filtered, max_addressable, Vcpu, MAX_ADDRESSABLE_CPUS,
    MAX_CACHE_LEAF_CPUS,
};
use frequency::first_freq;
use guest_laws::law_guest_ids;
use kvm::{cpuid_entries, load_entries, store_entry, CpuId, CpuidEntry};
use vstd::arithmetic::power2::pow2;

verus! {

/// What can go wrong while the CPUID entries are configured.
#[derive(Debug, PartialEq, Eq)]
pub enum Error {
    /// The maximum number of addressable logical CPUs cannot be stored in an `u8`.
    VcpuCountOverflow,
    /// The brand string of the guest could not be made.
    CreateBrandString(brand_string::Error),
}

/// Type for returning the outcome of a function.
pub type Result<T> = std::result::Result<T, Error>;

/// Type for an outcome together with an error that may be handled or not.
pub type PartialError<T, E> = (T, Option<E>);

/// The brand string of a guest, before the frequency of the host is appended:
/// `Intel(R) Xeon(R) Processor`.
pub const DEFAULT_BRAND_STRING: [u8; 26] = [
    0x49, 0x6e, 0x74, 0x65, 0x6c, 0x28, 0x52, 0x29, 0x20,
    0x58, 0x65, 0x6f, 0x6e, 0x28, 0x52, 0x29, 0x20,
    0x50, 0x72, 0x6f, 0x63, 0x65, 0x73, 0x73, 0x6f, 0x72,
];

/// How the brand string of an Intel processor starts: `Intel`.
pub const INTEL: [u8; 5] = [0x49, 0x6e, 0x74, 0x65, 0x6c];

/// What stands between the default brand string and the frequency: ` @ `.
pub const FREQUENCY_SEPARATOR: [u8; 3] = [0x20, 0x40, 0x20];

/// `p` is a power of 2.
pub open spec fn is_power_of_two(p: int) -> bool {
    exists|k: nat| p == #[trigger] pow2(k)
}

/// What is to be appended to the default brand string on a host with the brand string `host`
/// (`None`: the host has none): the frequency of an Intel host, where it tells one.
pub open spec fn frequency_suffix(host: Option<Seq<u8>>) -> Option<Seq<u8>> {
    match host {
        Some(text) => if INTEL@.is_prefix_of(text) {
            match first_freq(text) {
                Some(freq) => Some(FREQUENCY_SEPARATOR@ + freq),
                None => None,
            }
        } else {
            None
        },
        None => None,
    }
}

/// There is no room for the frequency of the host behind the default brand string.
pub open spec fn suffix_overflows(host: Option<Seq<u8>>) -> bool {
    match frequency_suffix(host) {
        Some(suffix) => DEFAULT_BRAND_STRING@.len() + suffix.len() > MAX_LEN,
        None => false,
    }
}

/// The brand string of a guest on a host with the brand string `host`.
pub open spec fn guest_brand(host: Option<Seq<u8>>) -> Seq<u8> {
    match frequency_suffix(host) {
        Some(suffix) => if suffix_overflows(host) {
            DEFAULT_BRAND_STRING@
        } else {
            DEFAULT_BRAND_STRING@ + suffix
        },
        None => DEFAULT_BRAND_STRING@,
    }
}

/// What goes wrong with the brand string of a guest on a host with the brand string `host`.
pub open spec fn guest_brand_error(host: Option<Seq<u8>>) -> Option<brand_string::Error> {
    if suffix_overflows(host) {
        Some(brand_string::Error::Overflow)
    } else {
        None
    }
}

/// The entries `entries` as the virtual CPU `vcpu` of a guest with the brand string `brand` gets
/// them.
pub open spec fn filtered_entries(
    entries: Seq<CpuidEntry>,
    vcpu: Vcpu,
    brand: Seq<u8>,
) -> Seq<CpuidEntry> {
    Seq::new(entries.len(), |i: int| filtered(entries[i], vcpu, brand))
}

/// The number of virtual CPUs is either refused or can be told in all of the entries.
pub open spec fn count_allowed(cpu_count: u8, entries: Seq<CpuidEntry>) -> bool {
    cpu_count > MAX_ADDRESSABLE_CPUS || forall|i: int|
        0 <= i < entries.len() ==> count_fits(cpu_count, (#[trigger] entries[i]).function)
}

/// What [`filter_cpuid`] makes of the entries `before` for a guest with the brand string `brand`,
/// in the making of which `brand_error` came up: the entries `after` and the result `r`.
pub open spec fn filter_outcome(
    before: Seq<CpuidEntry>,
    vcpu: Vcpu,
    brand: Seq<u8>,
    brand_error: Option<brand_string::Error>,
    after: Seq<CpuidEntry>,
    r: Result<()>,
) -> bool {
    if vcpu.cpu_count > MAX_ADDRESSABLE_CPUS {
        after == before && r == Err::<(), Error>(Error::VcpuCountOverflow)
    } else {
        &&& after == filtered_entries(before, vcpu, brand)
        &&& r == match brand_error {
            Some(e) => Err::<(), Error>(Error::CreateBrandString(e)),
            None => Ok::<(), Error>(()),
        }
    }
}

/// Computes the maximum number of addressable logical CPUs, which leaf 0x1 tells in EBX[23-16].
///
/// It is the closest power of 2 that is higher than or equal to the number of CPUs that the user
/// has configured.
pub fn get_max_addressable_lprocessors(cpu_count: u8) -> (r: Result<u8>)
    ensures
        r is Ok <==> cpu_count <= 128,
        r matches Ok(max) ==> max == max_addressable(cpu_count),
        r matches Ok(max) ==> exists|k: nat| max == #[trigger] pow2(k),
        r matches Ok(max) ==> is_power_of_two(max as int) && cpu_count <= max && (max == 1 || max
            < 2 * cpu_count),
        r matches Err(e) ==> e == Error::VcpuCountOverflow,
{
    let mut max: u8 = 1;
    let ghost mut k: nat = 0;
    proof {
        vstd::arithmetic::power2::lemma2_to64();
    }
    while max < cpu_count
        invariant
            max == pow2(k),
            k <= 7,
            max == 1 || max < 2 * cpu_count,
            max < cpu_count ==> max < max_addressable(cpu_count),
            max >= cpu_count ==> max == max_addressable(cpu_count),
        decreases 256 - max,
    {
        proof {
            vstd::arithmetic::power2::lemma2_to64();
        }
        if max == 128 {
            return Err(Error::VcpuCountOverflow);
        }
        max = max * 2;
        proof {
            k = k + 1;
        }
    }
    assert(is_power_of_two(max as int));
    Ok(max)
}

/// Makes the brand string of a guest on a host with the brand string `host`.
///
/// On an Intel host it is `Intel(R) Xeon(R) Processor @ {host freq}`, where `{host freq}` is the
/// CPU frequency as it stands in the brand string of the host (for instance `4.01GHz`). On other
/// hosts, and where the host tells no frequency, it is the default brand string. Where the
/// frequency is too long, the default brand string comes with an error.
pub fn brand_string_for_host(
    host: &std::result::Result<BrandString, brand_string::Error>,
) -> (r: PartialError<BrandString, brand_string::Error>)
    ensures
        r.0@ == guest_brand(text_of(*host)),
        r.1 == guest_brand_error(text_of(*host)),
        host matches Ok(b) ==> r.0@ == guest_brand(Some(b@)) && r.1 == guest_brand_error(Some(b@)),
        host is Err ==> r.0@ == guest_brand(None) && r.1 == guest_brand_error(None),
{
    let default: [u8; 26] = DEFAULT_BRAND_STRING;
    let mut bstr = BrandString::from_bytes_unchecked(default.as_slice());
    if let Ok(host_bstr) = host {
        let intel: [u8; 5] = INTEL;
        if host_bstr.starts_with(intel.as_slice()) {
            if let Some(freq) = host_bstr.find_freq() {
                let separator: [u8; 3] = FREQUENCY_SEPARATOR;
                let mut suffix: Vec<u8> = Vec::new();
                suffix.extend_from_slice(separator.as_slice());
                suffix.extend_from_slice(freq);
                assert(suffix@ =~= FREQUENCY_SEPARATOR@ + freq@);
                if let Err(e) = bstr.push_bytes(suffix.as_slice()) {
                    return (bstr, Some(e));
                }
            }
        }
    }
    (bstr, None)
}

/// Makes the brand string of a guest on this host, as [`brand_string_for_host`] says.
pub fn get_brand_string() -> (r: PartialError<BrandString, brand_string::Error>)
    ensures
        exists|host: Option<Seq<u8>>| #[trigger]
            host_text(host) && r.0@ == guest_brand(host) && r.1 == guest_brand_error(host),
{
    let host = BrandString::from_host_cpuid();
    assert(host_text(text_of(host)));
    brand_string_for_host(&host)
}

/// Adapts the entries of `kvm_cpuid` to the virtual CPU `vcpu` of a guest with the brand string
/// `brand`.
fn filter_all(
    vcpu: Vcpu,
    max_addr_cpu: u8,
    brand: &BrandString,
    kvm_cpuid: &mut CpuId,
)
    requires
        max_addr_cpu == max_addressable(vcpu.cpu_count),
        vcpu.cpu_count <= MAX_ADDRESSABLE_CPUS,
        count_allowed(vcpu.cpu_count, cpuid_entries(*old(kvm_cpuid))),
    ensures
        cpuid_entries(*final(kvm_cpuid)) == filtered_entries(
            cpuid_entries(*old(kvm_cpuid)),
            vcpu,
            brand@,
        ),
{
    let entries: Vec<CpuidEntry> = load_entries(kvm_cpuid);
    let ghost target = filtered_entries(entries@, vcpu, brand@);
    let mut i: usize = 0;
    while i < entries.len()
        invariant
            max_addr_cpu == max_addressable(vcpu.cpu_count),
            vcpu.cpu_count <= MAX_ADDRESSABLE_CPUS,
            count_allowed(vcpu.cpu_count, entries@),
            target == filtered_entries(entries@, vcpu, brand@),
            i <= entries@.len(),
            cpuid_entries(*kvm_cpuid).len() == entries@.len(),
            forall|j: int| 0 <= j < i ==> cpuid_entries(*kvm_cpuid)[j] == target[j],
        decreases entries.len() - i,
    {
        let e: CpuidEntry = filter_entry(entries[i], vcpu, max_addr_cpu, brand);
        store_entry(kvm_cpuid, i, e);
        i = i + 1;
    }
    assert(cpuid_entries(*kvm_cpuid) =~= target);
}

/// Sets up the CPUID entries for a virtual CPU, given the brand string of the guest and the error
/// that came up in its making.
///
/// All that [`filter_cpuid`] does but for making the brand string.
pub fn filter_cpuid_with_brand(
    cpu_id: u8,
    cpu_count: u8,
    ht_enabled: bool,
    brand: &PartialError<BrandString, brand_string::Error>,
    kvm_cpuid: &mut CpuId,
) -> (r: Result<()>)
    requires
        count_allowed(cpu_count, cpuid_entries(*old(kvm_cpuid))),
    ensures
        filter_outcome(
            cpuid_entries(*old(kvm_cpuid)),
            (Vcpu { cpu_id, cpu_count, ht_enabled }),
            brand.0@,
            brand.1,
            cpuid_entries(*final(kvm_cpuid)),
            r,
        ),
        cpu_count <= 128 ==> {
            let before = cpuid_entries(*old(kvm_cpuid));
            let after = cpuid_entries(*final(kvm_cpuid));
            &&& after.len() == before.len()
            &&& forall|i: int|
                #![trigger after[i]]
                0 <= i < before.len() ==> {
                    &&& after[i] == filtered(
                        before[i],
                        (Vcpu { cpu_id, cpu_count, ht_enabled }),
                        brand.0@,
                    )
                    &&& before[i].function == 0x1 ==> after[i].ebx >> 24 == cpu_id
                    &&& before[i].function == 0xb ==> after[i].edx == cpu_id
                    &&& before[i].function == 0xb && before[i].index == 0 ==> after[i].ebx == (
                    if ht_enabled && cpu_count >= 2 {
                        2u32
                    } else {
                        1
                    })
                    &&& before[i].function == 0xb && before[i].index == 1 && cpu_count != 1
                        ==> after[i].ebx == cpu_count
                }
        },
        cpu_count > 128 ==> cpuid_entries(*final(kvm_cpuid)) == cpuid_entries(*old(kvm_cpuid)),
        cpu_count > 128 <==> r == Err::<(), Error>(Error::VcpuCountOverflow),
{
    let max_addr_cpu: u8 = match get_max_addressable_lprocessors(cpu_count) {
        Ok(max) => max,
        Err(e) => {
            return Err(e);
        },
    };
    filter_all(Vcpu { cpu_id, cpu_count, ht_enabled }, max_addr_cpu, &brand.0, kvm_cpuid);
    let r: Result<()> = match brand.1 {
        Some(e) => Err(Error::CreateBrandString(e)),
        None => Ok(()),
    };
    proof {
        law_guest_ids(
            cpuid_entries(*old(kvm_cpuid)),
            cpu_id,
            cpu_count,
            ht_enabled,
            brand.0@,
            brand.1,
            cpuid_entries(*kvm_cpuid),
            r,
        );
    }
    r
}

/// Sets up the CPUID entries for the given virtual CPU.
///
/// - `cpu_id` is the index of the virtual CPU for which the entries are configured.
/// - `cpu_count` is the total number of virtual CPUs.
/// - `ht_enabled` tells whether hyperthreading is on.
/// - `kvm_cpuid` holds the entries.
///
/// An entry of the leaf 0x4 has room for up to 64 virtual CPUs, and needs at least one. With such
/// an entry, other numbers up to 128 must not be given. Larger numbers are refused.
///
/// Where the brand string of the guest could not be made as it should be, the entries are set up
/// with the default one, and the error is returned.
pub fn filter_cpuid(
    cpu_id: u8,
    cpu_count: u8,
    ht_enabled: bool,
    kvm_cpuid: &mut CpuId,
) -> (r: Result<()>)
    requires
        count_allowed(cpu_count, cpuid_entries(*old(kvm_cpuid))),
    ensures
        exists|host: Option<Seq<u8>>| #[trigger]
            host_text(host) && filter_outcome(
                cpuid_entries(*old(kvm_cpuid)),
                (Vcpu { cpu_id, cpu_count, ht_enabled }),
                guest_brand(host),
                guest_brand_error(host),
                cpuid_entries(*final(kvm_cpuid)),
                r,
            ),
        cpu_count <= 128 ==> {
            let before = cpuid_entries(*old(kvm_cpuid));
            let after = cpuid_entries(*final(kvm_cpuid));
            &&& after.len() == before.len()
            &&& forall|i: int|
                #![trigger after[i]]
                0 <= i < before.len() ==> {
                    &&& before[i].function == 0x1 ==> after[i].ebx >> 24 == cpu_id
                    &&& before[i].function == 0xb ==> after[i].edx == cpu_id
                    &&& before[i].function == 0xb && before[i].index == 0 ==> after[i].ebx == (
                    if ht_enabled && cpu_count >= 2 {
                        2u32
                    } else {
                        1
                    })
                    &&& before[i].function == 0xb && before[i].index == 1 && cpu_count != 1
                        ==> after[i].ebx == cpu_count
                }
        },
        cpu_count > 128 ==> cpuid_entries(*final(kvm_cpuid)) == cpuid_entries(*old(kvm_cpuid)),
        cpu_count > 128 <==> r == Err::<(), Error>(Error::VcpuCountOverflow),
{
    let brand = get_brand_string();
    filter_cpuid_with_brand(cpu_id, cpu_count, ht_enabled, &brand, kvm_cpuid)
}

/// Does what [`filter_cpuid`] does, where the number of virtual CPUs is refused or can be told in
/// the entries. Otherwise returns `None` and leaves the entries as they are.
pub fn try_filter_cpuid(
    cpu_id: u8,
    cpu_count: u8,
    ht_enabled: bool,
    kvm_cpuid: &mut CpuId,
) -> (r: Option<Result<()>>)
    ensures
        r is Some <==> count_allowed(cpu_count, cpuid_entries(*old(kvm_cpuid))),
        r is None ==> cpuid_entries(*final(kvm_cpuid)) == cpuid_entries(*old(kvm_cpuid)),
        r matches Some(outcome) ==> exists|host: Option<Seq<u8>>| #[trigger]
            host_text(host) && filter_outcome(
                cpuid_entries(*old(kvm_cpuid)),
                (Vcpu { cpu_id, cpu_count, ht_enabled }),
                guest_brand(host),
                guest_brand_error(host),
                cpuid_entries(*final(kvm_cpuid)),
                outcome,
            ),
        r is Some && cpu_count <= 128 ==> {
            let before = cpuid_entries(*old(kvm_cpuid));
            let after = cpuid_entries(*final(kvm_cpuid));
            &&& after.len() == before.len()
            &&& forall|i: int|
                #![trigger after[i]]
                0 <= i < before.len() ==> {
                    &&& before[i].function == 0x1 ==> after[i].ebx >> 24 == cpu_id
                    &&& before[i].function == 0xb ==> after[i].edx == cpu_id
                    &&& before[i].function == 0xb && before[i].index == 0 ==> after[i].ebx == (
                    if ht_enabled && cpu_count >= 2 {
                        2u32
                    } else {
                        1
                    })
                    &&& before[i].function == 0xb && before[i].index == 1 && cpu_count != 1
                        ==> after[i].ebx == cpu_count
                }
        },
        cpu_count > 128 ==> cpuid_entries(*final(kvm_cpuid)) == cpuid_entries(*old(kvm_cpuid)),
        cpu_count > 128 <==> r == Some(Err::<(), Error>(Error::VcpuCountOverflow)),
{
    if cpu_count > MAX_ADDRESSABLE_CPUS || (1 <= cpu_count && cpu_count <= MAX_CACHE_LEAF_CPUS) {
        return Some(filter_cpuid(cpu_id, cpu_count, ht_enabled, kvm_cpuid));
    }
    let entries: Vec<CpuidEntry> = load_entries(kvm_cpuid);
    let mut i: usize = 0;
    while i < entries.len()
        invariant
            !(1 <= cpu_count <= MAX_CACHE_LEAF_CPUS),
            cpu_count <= MAX_ADDRESSABLE_CPUS,
            entries@ == cpuid_entries(*old(kvm_cpuid)),
            cpuid_entries(*kvm_cpuid) == cpuid_entries(*old(kvm_cpuid)),
            i <= entries@.len(),
            forall|j: int| 0 <= j < i ==> (#[trigger] entries@[j]).function != 0x4,
        decreases entries.len() - i,
    {
        if entries[i].function == 0x4 {
            assert(!count_fits(cpu_count, entries@[i as int].function));
            return None;
        }
        i = i + 1;
    }
    Some(filter_cpuid(cpu_id, cpu_count, ht_enabled, kvm_cpuid))
}

} // verus!
