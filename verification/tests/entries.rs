use cpuid::brand_string::{BrandString, Reg};
use cpuid::kvm::CpuId;
use cpuid::{
    brand_string, brand_string_for_host, filter_cpuid, filter_cpuid_with_brand,
    get_max_addressable_lprocessors, try_filter_cpuid, Error,
};
use kvm_bindings::kvm_cpuid_entry2;

fn entry(function: u32, index: u32) -> kvm_cpuid_entry2 {
    kvm_cpuid_entry2 {
        function,
        index,
        flags: 0x1234,
        eax: 0xa5a5_a5a5,
        ebx: 0x5a5a_5a5a,
        ecx: 0x3c3c_3c3c,
        edx: 0xc3c3_c3c3,
        padding: [1, 2, 3],
    }
}

fn cpuid_of(entries: &[kvm_cpuid_entry2]) -> CpuId {
    CpuId(kvm_bindings::CpuId::from_entries(entries).unwrap())
}

fn all_leaves() -> Vec<kvm_cpuid_entry2> {
    let mut entries = vec![entry(0x0, 0), entry(0x1, 0), entry(0x6, 0), entry(0xa, 0)];
    for index in 0..4 {
        let mut e = entry(0x4, index);
        e.eax = 0xfdff_c01f | (index << 5);
        entries.push(e);
        entries.push(entry(0xb, index));
    }
    for function in 0x8000_0001..=0x8000_0005 {
        entries.push(entry(function, 0));
    }
    entries
}

fn filtered(
    entries: &[kvm_cpuid_entry2],
    cpu_id: u8,
    cpu_count: u8,
    ht_enabled: bool,
) -> Vec<kvm_cpuid_entry2> {
    let mut c = cpuid_of(entries);
    let host = Ok(BrandString::from_bytes_unchecked(b"Intel @ 2.50GHz"));
    let brand = brand_string_for_host(&host);
    assert_eq!(filter_cpuid_with_brand(cpu_id, cpu_count, ht_enabled, &brand, &mut c), Ok(()));
    c.0.as_slice().to_vec()
}

#[test]
fn addressable_cpus_are_the_closest_power_of_two() {
    for count in 1..=128u8 {
        let max = get_max_addressable_lprocessors(count).unwrap();
        assert_eq!(max, count.next_power_of_two());
    }
    for count in 129..=255u8 {
        assert_eq!(get_max_addressable_lprocessors(count), Err(Error::VcpuCountOverflow));
    }
    assert_eq!(get_max_addressable_lprocessors(0), Ok(1));
}

#[test]
fn features_are_written_over_what_was_there() {
    let r = filtered(&[entry(0x1, 0)], 5, 6, true);
    let expected = kvm_cpuid_entry2 {
        ebx: 0x0508_085a,
        ecx: 0xbd3c_3c3c,
        edx: 0xd3c3_c3c3,
        ..entry(0x1, 0)
    };
    assert_eq!(r, vec![expected]);
    // One virtual CPU: the number of addressable IDs is not valid.
    let r = filtered(&[entry(0x1, 0), kvm_cpuid_entry2 { edx: u32::MAX, ..entry(0x1, 0) }], 0, 1, true);
    assert_eq!(r[0].ebx, 0x0001_085a);
    assert_eq!(r[0].edx, 0xc3c3_c3c3);
    assert_eq!(r[1].edx, 0xefff_ffff);
    // No virtual CPU: the closest power of 2 is 1.
    assert_eq!(filtered(&[entry(0x1, 0)], 0, 0, true)[0].ebx, 0x0001_085a);
}

#[test]
fn caches_are_shared_by_level() {
    let caches = |cpu_count, ht| -> Vec<u32> {
        let entries: Vec<kvm_cpuid_entry2> = (0..5)
            .map(|level| kvm_cpuid_entry2 { eax: 0xffff_c01f | (level << 5), ..entry(0x4, level) })
            .collect();
        filtered(&entries, 0, cpu_count, ht).iter().map(|e| e.eax).collect()
    };
    let eax = |level: u32, sharing: u32, package: u32| 0x1f | level << 5 | sharing << 14 | package << 26;
    assert_eq!(caches(64, true), vec![
        eax(0, 0xfff, 63), eax(1, 1, 63), eax(2, 1, 63), eax(3, 63, 63), eax(4, 0xfff, 63),
    ]);
    assert_eq!(caches(6, false), vec![
        eax(0, 0xfff, 5), eax(1, 0, 5), eax(2, 0, 5), eax(3, 5, 5), eax(4, 0xfff, 5),
    ]);
    assert_eq!(caches(1, true), vec![
        eax(0, 0xfff, 0), eax(1, 0, 0), eax(2, 0, 0), eax(3, 0, 0), eax(4, 0xfff, 0),
    ]);
}

#[test]
fn power_and_performance_features_are_hidden() {
    let r = filtered(&[kvm_cpuid_entry2 { eax: 0xff, ecx: 0xff, ..entry(0x6, 0) }, entry(0xa, 0)], 0, 2, true);
    assert_eq!(r[0], kvm_cpuid_entry2 { eax: 0xfd, ecx: 0xf7, ..entry(0x6, 0) });
    assert_eq!(r[1], kvm_cpuid_entry2 { eax: 0, ebx: 0, ecx: 0, edx: 0, ..entry(0xa, 0) });
}

#[test]
fn topology_is_told() {
    let levels: Vec<kvm_cpuid_entry2> = (0..4).map(|index| entry(0xb, index)).collect();
    let regs = |r: &kvm_cpuid_entry2| (r.eax, r.ebx, r.ecx, r.edx);
    let r = filtered(&levels, 9, 100, true);
    assert_eq!(r.iter().map(regs).collect::<Vec<_>>(), vec![
        (1, 2, 0x100, 9), (6, 100, 0x201, 9), (0, 0, 2, 9), (0, 0, 3, 9),
    ]);
    let r = filtered(&levels, 0, 1, true);
    assert_eq!(r.iter().map(regs).collect::<Vec<_>>(), vec![
        (0, 1, 0x200, 0), (6, 0, 1, 0), (0, 0, 2, 0), (0, 0, 3, 0),
    ]);
    let r = filtered(&levels, 0, 0, true);
    assert_eq!(r.iter().map(regs).collect::<Vec<_>>(), vec![
        (0, 1, 0x100, 0), (6, 0, 0x201, 0), (0, 0, 2, 0), (0, 0, 3, 0),
    ]);
}

#[test]
fn three_leaves_spell_the_brand_string() {
    let r = filtered(&[entry(0x8000_0002, 0), entry(0x8000_0003, 0), entry(0x8000_0004, 0)], 0, 1, false);
    let mut regs = [0u32; 12];
    for i in 0..3 {
        regs[4 * i..4 * i + 4].copy_from_slice(&[r[i].eax, r[i].ebx, r[i].ecx, r[i].edx]);
    }
    let text = BrandString::from_registers(&regs);
    assert_eq!(text.as_bytes(), b"Intel(R) Xeon(R) Processor @ 2.50GHz");
}

#[test]
fn identity_is_kept_and_other_leaves_are_not_touched() {
    let before = all_leaves();
    let after = filtered(&before, 3, 8, true);
    assert_eq!(after.len(), before.len());
    for (b, a) in before.iter().zip(&after) {
        assert_eq!((b.function, b.index, b.flags, b.padding), (a.function, a.index, a.flags, a.padding));
        if [0x0, 0x8000_0001, 0x8000_0005].contains(&b.function) {
            assert_eq!(b, a);
        }
    }
}

#[test]
fn the_last_filtering_counts() {
    let before = all_leaves();
    let once = filtered(&before, 3, 8, false);
    assert_eq!(filtered(&once, 3, 8, false), once);
    assert_eq!(filtered(&filtered(&before, 1, 33, true), 3, 8, false), once);
}

#[test]
fn entries_are_filtered_one_by_one() {
    let before = all_leaves();
    let (a, b) = before.split_at(5);
    let joined = [filtered(a, 3, 8, true), filtered(b, 3, 8, true)].concat();
    assert_eq!(filtered(&before, 3, 8, true), joined);
}

#[test]
fn virtual_cpus_differ_in_their_apic_ids_only() {
    let before = all_leaves();
    let zero = filtered(&before, 0, 8, true);
    let seven = filtered(&before, 7, 8, true);
    for (x, y) in zero.iter().zip(&seven) {
        match x.function {
            0x1 => assert_eq!(kvm_cpuid_entry2 { ebx: x.ebx | 7 << 24, ..*x }, *y),
            0xb => assert_eq!(kvm_cpuid_entry2 { edx: 7, ..*x }, *y),
            _ => assert_eq!(x, y),
        }
    }
}

#[test]
fn too_many_cpus_are_refused_and_nothing_changes() {
    let before = all_leaves();
    let mut c = cpuid_of(&before);
    assert_eq!(filter_cpuid(0, 129, true, &mut c), Err(Error::VcpuCountOverflow));
    assert_eq!(filter_cpuid(0, 255, true, &mut c), Err(Error::VcpuCountOverflow));
    assert_eq!(try_filter_cpuid(0, 129, true, &mut c), Some(Err(Error::VcpuCountOverflow)));
    assert_eq!(c.0.as_slice(), &before[..]);
}

#[test]
fn counts_that_the_cache_leaf_cannot_tell_are_not_filtered() {
    let before = all_leaves();
    for count in [0, 65, 128] {
        let mut c = cpuid_of(&before);
        assert_eq!(try_filter_cpuid(0, count, true, &mut c), None);
        assert_eq!(c.0.as_slice(), &before[..]);
        let mut c = cpuid_of(&[entry(0x1, 0)]);
        assert!(try_filter_cpuid(0, count, true, &mut c).is_some());
        let max = get_max_addressable_lprocessors(count).unwrap() as u32;
        assert_eq!(c.0.as_slice()[0].ebx, 0x0000_085a | max << 16);
    }
    for count in [1, 64] {
        let mut c = cpuid_of(&before);
        assert!(try_filter_cpuid(0, count, true, &mut c).is_some());
        assert_ne!(c.0.as_slice(), &before[..]);
    }
}

#[test]
fn a_failed_brand_string_is_reported_after_the_entries_are_set_up() {
    let host = Ok(BrandString::from_bytes_unchecked(b"Intel 12345678901234.0GHz"));
    let brand = brand_string_for_host(&host);
    let mut c = cpuid_of(&[entry(0xa, 0), entry(0x8000_0003, 0)]);
    assert_eq!(
        filter_cpuid_with_brand(0, 1, true, &brand, &mut c),
        Err(Error::CreateBrandString(brand_string::Error::Overflow))
    );
    let entries = c.0.as_slice();
    assert_eq!(entries[0].eax, 0);
    assert_eq!(entries[1].eax, u32::from_le_bytes(*b" Pro"));
    assert_eq!(entries[1].ecx, brand.0.get_reg_for_leaf(0x8000_0003, Reg::ECX));
}

#[test]
fn no_entries_are_no_trouble() {
    let mut c = cpuid_of(&[]);
    assert_eq!(filter_cpuid(0, 4, true, &mut c), Ok(()));
    assert!(c.0.as_slice().is_empty());
}
