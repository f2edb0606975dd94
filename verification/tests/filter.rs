use cpuid::brand_string::Reg;
use cpuid::cpu_leaf::{leaf_0x1, leaf_0x4, leaf_0x6, leaf_0xb};
use cpuid::filter::{EBX_CLFLUSH_CACHELINE, LEAFBH_INDEX1_APICID};
use cpuid::kvm::CpuId;
use cpuid::{filter_cpuid, get_brand_string, get_max_addressable_lprocessors};
use kvm_bindings::kvm_cpuid_entry2;

#[test]
fn test_get_max_addressable_lprocessors() {
    assert_eq!(get_max_addressable_lprocessors(1).unwrap(), 1);
    assert_eq!(get_max_addressable_lprocessors(2).unwrap(), 2);
    assert_eq!(get_max_addressable_lprocessors(4).unwrap(), 4);
    assert_eq!(get_max_addressable_lprocessors(6).unwrap(), 8);
    assert!(get_max_addressable_lprocessors(u8::max_value()).is_err());
}

// The extended topology, over entries as a host with six cores reports them.
#[test]
fn test_cpuid() {
    let reported = [(0, 1, 2, 0x100), (1, 4, 12, 0x201), (2, 0, 0, 2)];
    let mut kvm_cpuid = CpuId(kvm_bindings::CpuId::new(reported.len()).unwrap());
    for (i, (index, eax, ebx, ecx)) in reported.iter().enumerate() {
        let entry = &mut kvm_cpuid.0.as_mut_slice()[i];
        entry.function = 11;
        entry.index = *index;
        entry.flags = 1;
        entry.eax = *eax;
        entry.ebx = *ebx;
        entry.ecx = *ecx;
        entry.edx = 7;
    }
    filter_cpuid(0, 1, true, &mut kvm_cpuid).unwrap();

    let entries = kvm_cpuid.0.as_mut_slice();
    let leaf11_index0 = kvm_cpuid_entry2 {
        function: 11,
        index: 0,
        flags: 1,
        eax: 0,
        // no of hyperthreads/core
        ebx: 1,
        // ECX[15:8] = 2 (Core Level)
        ecx: leaf_0xb::LEVEL_TYPE_CORE << leaf_0xb::ecx_level_type_bitrange().lsb_index,
        // EDX = APIC ID = 0
        edx: 0,
        padding: [0, 0, 0],
    };
    assert!(entries.contains(&leaf11_index0));
    let leaf11_index1 = kvm_cpuid_entry2 {
        function: 11,
        index: 1,
        flags: 1,
        eax: LEAFBH_INDEX1_APICID,
        ebx: 0,
        ecx: 1, // ECX[15:8] = 0 (Invalid Level) & ECX[7:0] = 1 (Level Number)
        edx: 0, // EDX = APIC ID = 0
        padding: [0, 0, 0],
    };
    assert!(entries.contains(&leaf11_index1));
    let leaf11_index2 = kvm_cpuid_entry2 {
        function: 11,
        index: 2,
        flags: 1,
        eax: 0,
        ebx: 0, // nr of hyperthreads/core
        ecx: 2, // ECX[15:8] = 0 (Invalid Level) & ECX[7:0] = 2 (Level Number)
        edx: 0, // EDX = APIC ID = 0
        padding: [0, 0, 0],
    };
    assert!(entries.contains(&leaf11_index2));
}

#[test]
fn test_filter_cpuid_1vcpu_ht_off() {
    let mut kvm_cpuid = CpuId(kvm_bindings::CpuId::new(11).unwrap());
    {
        let entries = kvm_cpuid.0.as_mut_slice();
        entries[0].function = 0x1;
    }
    {
        let entries = kvm_cpuid.0.as_mut_slice();
        entries[1].function = 0x4;
        entries[1].eax = 0b10000;
    }
    {
        let entries = kvm_cpuid.0.as_mut_slice();
        entries[2].function = 0x4;
        entries[2].eax = 0b100000;
    }
    {
        let entries = kvm_cpuid.0.as_mut_slice();
        entries[3].function = 0x4;
        entries[3].eax = 0b1000000;
    }
    {
        let entries = kvm_cpuid.0.as_mut_slice();
        entries[4].function = 0x4;
        entries[4].eax = 0b1100000;
    }
    {
        let entries = kvm_cpuid.0.as_mut_slice();
        entries[5].function = 0x6;
        entries[5].eax = 1;
        entries[5].ecx = 1;
    }
    {
        let entries = kvm_cpuid.0.as_mut_slice();
        entries[6].function = 0xA;
    }
    {
        let entries = kvm_cpuid.0.as_mut_slice();
        entries[7].function = 0xB;
        entries[7].index = 0;
    }
    {
        let entries = kvm_cpuid.0.as_mut_slice();
        entries[8].function = 0xB;
        entries[8].index = 1;
    }
    {
        let entries = kvm_cpuid.0.as_mut_slice();
        entries[9].function = 0xB;
        entries[9].index = 2;
    }
    {
        let entries = kvm_cpuid.0.as_mut_slice();
        entries[10].function = 0x80000003;
    }
    filter_cpuid(0, 1, false, &mut kvm_cpuid).unwrap();
    let max_addr_cpu = get_max_addressable_lprocessors(1).unwrap() as u32;

    let cpuid_f1 = kvm_cpuid_entry2 {
        function: 1,
        index: 0,
        flags: 0,
        eax: 0,
        ebx: (EBX_CLFLUSH_CACHELINE << leaf_0x1::ebx_clflush_size_bitrange().lsb_index)
            | max_addr_cpu << leaf_0x1::ebx_cpu_count_bitrange().lsb_index,
        ecx: 1 << leaf_0x1::ECX_TSC_DEADLINE_TIMER_BITINDEX
            | 1 << leaf_0x1::ECX_HYPERVISOR_BITINDEX,
        edx: 0,
        padding: [0, 0, 0],
    };
    {
        let entries = kvm_cpuid.0.as_mut_slice();
        assert_eq!(entries[0], cpuid_f1);
    }
    let cpuid_f4 = kvm_cpuid_entry2 {
        function: 0x4,
        index: 0,
        flags: 0,
        eax: 0b10000
            & !(0b111111111111 << leaf_0x4::eax_max_addr_ids_sharing_cache_bitrange().lsb_index),
        ebx: 0,
        ecx: 0,
        edx: 0,
        padding: [0, 0, 0],
    };
    {
        let entries = kvm_cpuid.0.as_mut_slice();
        assert_eq!(entries[1], cpuid_f4);
    }
    let cpuid_f4 = kvm_cpuid_entry2 {
        function: 0x4,
        index: 0,
        flags: 0,
        eax: 0b100000
            & !(0b111111111111 << leaf_0x4::eax_max_addr_ids_sharing_cache_bitrange().lsb_index),
        ebx: 0,
        ecx: 0,
        edx: 0,
        padding: [0, 0, 0],
    };
    {
        let entries = kvm_cpuid.0.as_mut_slice();
        assert_eq!(entries[2], cpuid_f4);
    }
    let cpuid_f4 = kvm_cpuid_entry2 {
        function: 0x4,
        index: 0,
        flags: 0,
        eax: 0b1000000
            & !(0b111111111111 << leaf_0x4::eax_max_addr_ids_sharing_cache_bitrange().lsb_index),
        ebx: 0,
        ecx: 0,
        edx: 0,
        padding: [0, 0, 0],
    };
    {
        let entries = kvm_cpuid.0.as_mut_slice();
        assert_eq!(entries[3], cpuid_f4);
    }
    let cpuid_f4 = kvm_cpuid_entry2 {
        function: 0x4,
        index: 0,
        flags: 0,
        eax: 0b1100000
            & !(0b111111111111 << leaf_0x4::eax_max_addr_ids_sharing_cache_bitrange().lsb_index),
        ebx: 0,
        ecx: 0,
        edx: 0,
        padding: [0, 0, 0],
    };
    {
        let entries = kvm_cpuid.0.as_mut_slice();
        assert_eq!(entries[4], cpuid_f4);
    }
    let cpuid_f6 = kvm_cpuid_entry2 {
        function: 0x6,
        index: 0,
        flags: 0,
        eax: 1 & !(1 << leaf_0x6::EAX_TURBO_BOOST_BITINDEX),
        ebx: 0,
        ecx: 1 & !(1 << leaf_0x6::ECX_EPB_BITINDEX),
        edx: 0,
        padding: [0, 0, 0],
    };
    {
        let entries = kvm_cpuid.0.as_mut_slice();
        assert_eq!(entries[5], cpuid_f6);
    }
    let cpuid_fa = kvm_cpuid_entry2 {
        function: 0xA,
        index: 0,
        flags: 0,
        eax: 0,
        ebx: 0,
        ecx: 0,
        edx: 0,
        padding: [0, 0, 0],
    };
    {
        let entries = kvm_cpuid.0.as_mut_slice();
        assert_eq!(entries[6], cpuid_fa);
    }
    let cpuid_fb = kvm_cpuid_entry2 {
        function: 0xB,
        index: 0,
        flags: 0,
        eax: 0,
        ebx: 1,
        ecx: leaf_0xb::LEVEL_TYPE_CORE << leaf_0xb::ecx_level_type_bitrange().lsb_index,
        edx: 0,
        padding: [0, 0, 0],
    };
    {
        let entries = kvm_cpuid.0.as_mut_slice();
        assert_eq!(entries[7], cpuid_fb);
    }
    let cpuid_fb = kvm_cpuid_entry2 {
        function: 0xB,
        index: 1,
        flags: 0,
        eax: LEAFBH_INDEX1_APICID,
        ebx: 0,
        ecx: 1 | (leaf_0xb::LEVEL_TYPE_INVALID << leaf_0xb::ecx_level_type_bitrange().lsb_index),
        edx: 0,
        padding: [0, 0, 0],
    };
    {
        let entries = kvm_cpuid.0.as_mut_slice();
        assert_eq!(entries[8], cpuid_fb);
    }
    let cpuid_fb = kvm_cpuid_entry2 {
        function: 0xB,
        index: 2,
        flags: 0,
        eax: 0,
        ebx: 0,
        ecx: 2,
        edx: 0,
        padding: [0, 0, 0],
    };
    {
        let entries = kvm_cpuid.0.as_mut_slice();
        assert_eq!(entries[9], cpuid_fb);
    }
    let bstr = get_brand_string().0;
    let cpuid_fother = kvm_cpuid_entry2 {
        function: 0x80000003,
        index: 0,
        flags: 0,
        eax: bstr.get_reg_for_leaf(0x80000003, Reg::EAX),
        ebx: bstr.get_reg_for_leaf(0x80000003, Reg::EBX),
        ecx: bstr.get_reg_for_leaf(0x80000003, Reg::ECX),
        edx: bstr.get_reg_for_leaf(0x80000003, Reg::EDX),
        padding: [0, 0, 0],
    };
    {
        let entries = kvm_cpuid.0.as_mut_slice();
        assert_eq!(entries[10], cpuid_fother);
    }
}

#[test]
fn test_filter_cpuid_multiple_vcpu_ht_off() {
    let mut kvm_cpuid = CpuId(kvm_bindings::CpuId::new(11).unwrap());
    {
        let entries = kvm_cpuid.0.as_mut_slice();
        entries[0].function = 0x1;
    }
    {
        let entries = kvm_cpuid.0.as_mut_slice();
        entries[1].function = 0x4;
        entries[1].eax = 0b10000;
    }
    {
        let entries = kvm_cpuid.0.as_mut_slice();
        entries[2].function = 0x4;
        entries[2].eax = 0b100000;
    }
    {
        let entries = kvm_cpuid.0.as_mut_slice();
        entries[3].function = 0x4;
        entries[3].eax = 0b1000000;
    }
    {
        let entries = kvm_cpuid.0.as_mut_slice();
        entries[4].function = 0x4;
        entries[4].eax = 0b1100000;
    }
    {
        let entries = kvm_cpuid.0.as_mut_slice();
        entries[5].function = 0x6;
        entries[5].eax = 1;
        entries[5].ecx = 1;
    }
    {
        let entries = kvm_cpuid.0.as_mut_slice();
        entries[6].function = 0xA;
    }
    {
        let entries = kvm_cpuid.0.as_mut_slice();
        entries[7].function = 0xB;
        entries[7].index = 0;
    }
    {
        let entries = kvm_cpuid.0.as_mut_slice();
        entries[8].function = 0xB;
        entries[8].index = 1;
    }
    {
        let entries = kvm_cpuid.0.as_mut_slice();
        entries[9].function = 0xB;
        entries[9].index = 2;
    }
    {
        let entries = kvm_cpuid.0.as_mut_slice();
        entries[10].function = 0x80000003;
    }
    let cpu_count: u8 = 3;
    filter_cpuid(0, cpu_count, false, &mut kvm_cpuid).unwrap();
    let max_addr_cpu = get_max_addressable_lprocessors(cpu_count).unwrap() as u32;

    let cpuid_f1 = kvm_cpuid_entry2 {
        function: 1,
        index: 0,
        flags: 0,
        eax: 0,
        ebx: (EBX_CLFLUSH_CACHELINE << leaf_0x1::ebx_clflush_size_bitrange().lsb_index)
            | max_addr_cpu << leaf_0x1::ebx_cpu_count_bitrange().lsb_index,
        ecx: 1 << leaf_0x1::ECX_TSC_DEADLINE_TIMER_BITINDEX
            | 1 << leaf_0x1::ECX_HYPERVISOR_BITINDEX,
        edx: 1 << leaf_0x1::EDX_HTT,
        padding: [0, 0, 0],
    };
    {
        let entries = kvm_cpuid.0.as_mut_slice();
        assert_eq!(entries[0], cpuid_f1);
    }
    let cpuid_f4 = kvm_cpuid_entry2 {
        function: 0x4,
        index: 0,
        flags: 0,
        eax: 0b10000 & !(0b111111 << leaf_0x4::eax_max_addr_ids_in_package_bitrange().lsb_index)
            | ((cpu_count - 1) as u32)
                << leaf_0x4::eax_max_addr_ids_in_package_bitrange().lsb_index,
        ebx: 0,
        ecx: 0,
        edx: 0,
        padding: [0, 0, 0],
    };
    {
        let entries = kvm_cpuid.0.as_mut_slice();
        assert_eq!(entries[1], cpuid_f4);
    }
    let cpuid_f4 = kvm_cpuid_entry2 {
        function: 0x4,
        index: 0,
        flags: 0,
        eax: 0b100000
            & !(0b111111111111 << leaf_0x4::eax_max_addr_ids_sharing_cache_bitrange().lsb_index)
            & !(0b111111 << leaf_0x4::eax_max_addr_ids_in_package_bitrange().lsb_index)
            | ((cpu_count - 1) as u32)
                << leaf_0x4::eax_max_addr_ids_in_package_bitrange().lsb_index,
        ebx: 0,
        ecx: 0,
        edx: 0,
        padding: [0, 0, 0],
    };
    {
        let entries = kvm_cpuid.0.as_mut_slice();
        assert_eq!(entries[2], cpuid_f4);
    }
    let cpuid_f4 = kvm_cpuid_entry2 {
        function: 0x4,
        index: 0,
        flags: 0,
        eax: 0b1000000
            & !(0b111111111111 << leaf_0x4::eax_max_addr_ids_sharing_cache_bitrange().lsb_index)
            & !(0b111111 << leaf_0x4::eax_max_addr_ids_in_package_bitrange().lsb_index)
            | ((cpu_count - 1) as u32)
                << leaf_0x4::eax_max_addr_ids_in_package_bitrange().lsb_index,
        ebx: 0,
        ecx: 0,
        edx: 0,
        padding: [0, 0, 0],
    };
    {
        let entries = kvm_cpuid.0.as_mut_slice();
        assert_eq!(entries[3], cpuid_f4);
    }
    let cpuid_f4 = kvm_cpuid_entry2 {
        function: 0x4,
        index: 0,
        flags: 0,
        eax: 0b1100000
            & !(0b111111111111 << leaf_0x4::eax_max_addr_ids_sharing_cache_bitrange().lsb_index)
            | ((cpu_count - 1) as u32)
                << leaf_0x4::eax_max_addr_ids_sharing_cache_bitrange().lsb_index
                & !(0b111111 << leaf_0x4::eax_max_addr_ids_in_package_bitrange().lsb_index)
            | ((cpu_count - 1) as u32)
                << leaf_0x4::eax_max_addr_ids_in_package_bitrange().lsb_index,
        ebx: 0,
        ecx: 0,
        edx: 0,
        padding: [0, 0, 0],
    };
    {
        let entries = kvm_cpuid.0.as_mut_slice();
        assert_eq!(entries[4], cpuid_f4);
    }
    let cpuid_f6 = kvm_cpuid_entry2 {
        function: 0x6,
        index: 0,
        flags: 0,
        eax: 1 & !(1 << leaf_0x6::EAX_TURBO_BOOST_BITINDEX),
        ebx: 0,
        ecx: 1 & !(1 << leaf_0x6::ECX_EPB_BITINDEX),
        edx: 0,
        padding: [0, 0, 0],
    };
    {
        let entries = kvm_cpuid.0.as_mut_slice();
        assert_eq!(entries[5], cpuid_f6);
    }
    let cpuid_fa = kvm_cpuid_entry2 {
        function: 0xA,
        index: 0,
        flags: 0,
        eax: 0,
        ebx: 0,
        ecx: 0,
        edx: 0,
        padding: [0, 0, 0],
    };
    {
        let entries = kvm_cpuid.0.as_mut_slice();
        assert_eq!(entries[6], cpuid_fa);
    }
    let cpuid_fb = kvm_cpuid_entry2 {
        function: 0xB,
        index: 0,
        flags: 0,
        eax: 0,
        ebx: 1,
        ecx: leaf_0xb::LEVEL_TYPE_THREAD << leaf_0xb::ecx_level_type_bitrange().lsb_index,
        edx: 0,
        padding: [0, 0, 0],
    };
    {
        let entries = kvm_cpuid.0.as_mut_slice();
        assert_eq!(entries[7], cpuid_fb);
    }
    let cpuid_fb = kvm_cpuid_entry2 {
        function: 0xB,
        index: 1,
        flags: 0,
        eax: LEAFBH_INDEX1_APICID,
        ebx: cpu_count as u32,
        ecx: 1 | leaf_0xb::LEVEL_TYPE_CORE << leaf_0xb::ecx_level_type_bitrange().lsb_index,
        edx: 0,
        padding: [0, 0, 0],
    };
    {
        let entries = kvm_cpuid.0.as_mut_slice();
        assert_eq!(entries[8], cpuid_fb);
    }
    let cpuid_fb = kvm_cpuid_entry2 {
        function: 0xB,
        index: 2,
        flags: 0,
        eax: 0,
        ebx: 0,
        ecx: 2,
        edx: 0,
        padding: [0, 0, 0],
    };
    {
        let entries = kvm_cpuid.0.as_mut_slice();
        assert_eq!(entries[9], cpuid_fb);
    }
    let bstr = get_brand_string().0;
    let cpuid_fother = kvm_cpuid_entry2 {
        function: 0x80000003,
        index: 0,
        flags: 0,
        eax: bstr.get_reg_for_leaf(0x80000003, Reg::EAX),
        ebx: bstr.get_reg_for_leaf(0x80000003, Reg::EBX),
        ecx: bstr.get_reg_for_leaf(0x80000003, Reg::ECX),
        edx: bstr.get_reg_for_leaf(0x80000003, Reg::EDX),
        padding: [0, 0, 0],
    };
    {
        let entries = kvm_cpuid.0.as_mut_slice();
        assert_eq!(entries[10], cpuid_fother);
    }
}

#[test]
fn test_filter_cpuid_1vcpu_ht_on() {
    let mut kvm_cpuid = CpuId(kvm_bindings::CpuId::new(11).unwrap());
    {
        let entries = kvm_cpuid.0.as_mut_slice();
        entries[0].function = 0x1;
    }
    {
        let entries = kvm_cpuid.0.as_mut_slice();
        entries[1].function = 0x4;
        entries[1].eax = 0b10000;
    }
    {
        let entries = kvm_cpuid.0.as_mut_slice();
        entries[2].function = 0x4;
        entries[2].eax = 0b100000;
    }
    {
        let entries = kvm_cpuid.0.as_mut_slice();
        entries[3].function = 0x4;
        entries[3].eax = 0b1000000;
    }
    {
        let entries = kvm_cpuid.0.as_mut_slice();
        entries[4].function = 0x4;
        entries[4].eax = 0b1100000;
    }
    {
        let entries = kvm_cpuid.0.as_mut_slice();
        entries[5].function = 0x6;
        entries[5].eax = 1;
        entries[5].ecx = 1;
    }
    {
        let entries = kvm_cpuid.0.as_mut_slice();
        entries[6].function = 0xA;
    }
    {
        let entries = kvm_cpuid.0.as_mut_slice();
        entries[7].function = 0xB;
        entries[7].index = 0;
    }
    {
        let entries = kvm_cpuid.0.as_mut_slice();
        entries[8].function = 0xB;
        entries[8].index = 1;
    }
    {
        let entries = kvm_cpuid.0.as_mut_slice();
        entries[9].function = 0xB;
        entries[9].index = 2;
    }
    {
        let entries = kvm_cpuid.0.as_mut_slice();
        entries[10].function = 0x80000003;
    }
    filter_cpuid(0, 1, true, &mut kvm_cpuid).unwrap();
    let max_addr_cpu = get_max_addressable_lprocessors(1).unwrap() as u32;

    let cpuid_f1 = kvm_cpuid_entry2 {
        function: 1,
        index: 0,
        flags: 0,
        eax: 0,
        ebx: (EBX_CLFLUSH_CACHELINE << leaf_0x1::ebx_clflush_size_bitrange().lsb_index)
            | max_addr_cpu << leaf_0x1::ebx_cpu_count_bitrange().lsb_index,
        ecx: 1 << leaf_0x1::ECX_TSC_DEADLINE_TIMER_BITINDEX
            | 1 << leaf_0x1::ECX_HYPERVISOR_BITINDEX,
        edx: 0,
        padding: [0, 0, 0],
    };
    {
        let entries = kvm_cpuid.0.as_mut_slice();
        assert_eq!(entries[0], cpuid_f1);
    }
    let cpuid_f4 = kvm_cpuid_entry2 {
        function: 0x4,
        index: 0,
        flags: 0,
        eax: 0b10000
            & !(0b111111111111 << leaf_0x4::eax_max_addr_ids_sharing_cache_bitrange().lsb_index),
        ebx: 0,
        ecx: 0,
        edx: 0,
        padding: [0, 0, 0],
    };
    {
        let entries = kvm_cpuid.0.as_mut_slice();
        assert_eq!(entries[1], cpuid_f4);
    }
    let cpuid_f4 = kvm_cpuid_entry2 {
        function: 0x4,
        index: 0,
        flags: 0,
        eax: 0b100000
            & !(0b111111111111 << leaf_0x4::eax_max_addr_ids_sharing_cache_bitrange().lsb_index),
        ebx: 0,
        ecx: 0,
        edx: 0,
        padding: [0, 0, 0],
    };
    {
        let entries = kvm_cpuid.0.as_mut_slice();
        assert_eq!(entries[2], cpuid_f4);
    }
    let cpuid_f4 = kvm_cpuid_entry2 {
        function: 0x4,
        index: 0,
        flags: 0,
        eax: 0b1000000
            & !(0b111111111111 << leaf_0x4::eax_max_addr_ids_sharing_cache_bitrange().lsb_index),
        ebx: 0,
        ecx: 0,
        edx: 0,
        padding: [0, 0, 0],
    };
    {
        let entries = kvm_cpuid.0.as_mut_slice();
        assert_eq!(entries[3], cpuid_f4);
    }
    let cpuid_f4 = kvm_cpuid_entry2 {
        function: 0x4,
        index: 0,
        flags: 0,
        eax: 0b1100000
            & !(0b111111111111 << leaf_0x4::eax_max_addr_ids_sharing_cache_bitrange().lsb_index),
        ebx: 0,
        ecx: 0,
        edx: 0,
        padding: [0, 0, 0],
    };
    {
        let entries = kvm_cpuid.0.as_mut_slice();
        assert_eq!(entries[4], cpuid_f4);
    }
    let cpuid_f6 = kvm_cpuid_entry2 {
        function: 0x6,
        index: 0,
        flags: 0,
        eax: 1 & !(1 << leaf_0x6::EAX_TURBO_BOOST_BITINDEX),
        ebx: 0,
        ecx: 1 & !(1 << leaf_0x6::ECX_EPB_BITINDEX),
        edx: 0,
        padding: [0, 0, 0],
    };
    {
        let entries = kvm_cpuid.0.as_mut_slice();
        assert_eq!(entries[5], cpuid_f6);
    }
    let cpuid_fa = kvm_cpuid_entry2 {
        function: 0xA,
        index: 0,
        flags: 0,
        eax: 0,
        ebx: 0,
        ecx: 0,
        edx: 0,
        padding: [0, 0, 0],
    };
    {
        let entries = kvm_cpuid.0.as_mut_slice();
        assert_eq!(entries[6], cpuid_fa);
    }
    let cpuid_fb = kvm_cpuid_entry2 {
        function: 0xB,
        index: 0,
        flags: 0,
        eax: 0,
        ebx: 1,
        ecx: leaf_0xb::LEVEL_TYPE_CORE << leaf_0xb::ecx_level_type_bitrange().lsb_index,
        edx: 0,
        padding: [0, 0, 0],
    };
    {
        let entries = kvm_cpuid.0.as_mut_slice();
        assert_eq!(entries[7], cpuid_fb);
    }
    let cpuid_fb = kvm_cpuid_entry2 {
        function: 0xB,
        index: 1,
        flags: 0,
        eax: LEAFBH_INDEX1_APICID,
        ebx: 0,
        ecx: 1 | (leaf_0xb::LEVEL_TYPE_INVALID << leaf_0xb::ecx_level_type_bitrange().lsb_index),
        edx: 0,
        padding: [0, 0, 0],
    };
    {
        let entries = kvm_cpuid.0.as_mut_slice();
        assert_eq!(entries[8], cpuid_fb);
    }
    let cpuid_fb = kvm_cpuid_entry2 {
        function: 0xB,
        index: 2,
        flags: 0,
        eax: 0,
        ebx: 0,
        ecx: 2,
        edx: 0,
        padding: [0, 0, 0],
    };
    {
        let entries = kvm_cpuid.0.as_mut_slice();
        assert_eq!(entries[9], cpuid_fb);
    }
    let bstr = get_brand_string().0;
    let cpuid_fother = kvm_cpuid_entry2 {
        function: 0x80000003,
        index: 0,
        flags: 0,
        eax: bstr.get_reg_for_leaf(0x80000003, Reg::EAX),
        ebx: bstr.get_reg_for_leaf(0x80000003, Reg::EBX),
        ecx: bstr.get_reg_for_leaf(0x80000003, Reg::ECX),
        edx: bstr.get_reg_for_leaf(0x80000003, Reg::EDX),
        padding: [0, 0, 0],
    };
    {
        let entries = kvm_cpuid.0.as_mut_slice();
        assert_eq!(entries[10], cpuid_fother);
    }
}

#[test]
fn test_filter_cpuid_multiple_vcpu_ht_on() {
    let mut kvm_cpuid = CpuId(kvm_bindings::CpuId::new(11).unwrap());
    {
        let entries = kvm_cpuid.0.as_mut_slice();
        entries[0].function = 0x1;
    }
    {
        let entries = kvm_cpuid.0.as_mut_slice();
        entries[1].function = 0x4;
        entries[1].eax = 0b10000;
    }
    {
        let entries = kvm_cpuid.0.as_mut_slice();
        entries[2].function = 0x4;
        entries[2].eax = 0b100000;
    }
    {
        let entries = kvm_cpuid.0.as_mut_slice();
        entries[3].function = 0x4;
        entries[3].eax = 0b1000000;
    }
    {
        let entries = kvm_cpuid.0.as_mut_slice();
        entries[4].function = 0x4;
        entries[4].eax = 0b1100000;
    }
    {
        let entries = kvm_cpuid.0.as_mut_slice();
        entries[5].function = 0x6;
        entries[5].eax = 1;
        entries[5].ecx = 1;
    }
    {
        let entries = kvm_cpuid.0.as_mut_slice();
        entries[6].function = 0xA;
    }
    {
        let entries = kvm_cpuid.0.as_mut_slice();
        entries[7].function = 0xB;
        entries[7].index = 0;
    }
    {
        let entries = kvm_cpuid.0.as_mut_slice();
        entries[8].function = 0xB;
        entries[8].index = 1;
    }
    {
        let entries = kvm_cpuid.0.as_mut_slice();
        entries[9].function = 0xB;
        entries[9].index = 2;
    }
    {
        let entries = kvm_cpuid.0.as_mut_slice();
        entries[10].function = 0x80000003;
    }
    let cpu_count: u8 = 3;
    filter_cpuid(0, cpu_count, true, &mut kvm_cpuid).unwrap();
    let max_addr_cpu = get_max_addressable_lprocessors(cpu_count).unwrap() as u32;

    let cpuid_f1 = kvm_cpuid_entry2 {
        function: 1,
        index: 0,
        flags: 0,
        eax: 0,
        ebx: (EBX_CLFLUSH_CACHELINE << leaf_0x1::ebx_clflush_size_bitrange().lsb_index)
            | max_addr_cpu << leaf_0x1::ebx_cpu_count_bitrange().lsb_index,
        ecx: 1 << leaf_0x1::ECX_TSC_DEADLINE_TIMER_BITINDEX
            | 1 << leaf_0x1::ECX_HYPERVISOR_BITINDEX,
        edx: 1 << leaf_0x1::EDX_HTT,
        padding: [0, 0, 0],
    };
    {
        let entries = kvm_cpuid.0.as_mut_slice();
        assert_eq!(entries[0], cpuid_f1);
    }
    let cpuid_f4 = kvm_cpuid_entry2 {
        function: 0x4,
        index: 0,
        flags: 0,
        eax: 0b10000 & !(0b111111 << leaf_0x4::eax_max_addr_ids_in_package_bitrange().lsb_index)
            | ((cpu_count - 1) as u32)
                << leaf_0x4::eax_max_addr_ids_in_package_bitrange().lsb_index,
        ebx: 0,
        ecx: 0,
        edx: 0,
        padding: [0, 0, 0],
    };
    {
        let entries = kvm_cpuid.0.as_mut_slice();
        assert_eq!(entries[1], cpuid_f4);
    }
    let cpuid_f4 = kvm_cpuid_entry2 {
        function: 0x4,
        index: 0,
        flags: 0,
        eax: 0b100000
            & !(0b111111111111 << leaf_0x4::eax_max_addr_ids_sharing_cache_bitrange().lsb_index)
            | 1 << leaf_0x4::eax_max_addr_ids_sharing_cache_bitrange().lsb_index
                & !(0b111111 << leaf_0x4::eax_max_addr_ids_in_package_bitrange().lsb_index)
            | ((cpu_count - 1) as u32)
                << leaf_0x4::eax_max_addr_ids_in_package_bitrange().lsb_index,
        ebx: 0,
        ecx: 0,
        edx: 0,
        padding: [0, 0, 0],
    };
    {
        let entries = kvm_cpuid.0.as_mut_slice();
        assert_eq!(entries[2], cpuid_f4);
    }
    let cpuid_f4 = kvm_cpuid_entry2 {
        function: 0x4,
        index: 0,
        flags: 0,
        eax: 0b1000000
            & !(0b111111111111 << leaf_0x4::eax_max_addr_ids_sharing_cache_bitrange().lsb_index)
            | 1 << leaf_0x4::eax_max_addr_ids_sharing_cache_bitrange().lsb_index
                & !(0b111111 << leaf_0x4::eax_max_addr_ids_in_package_bitrange().lsb_index)
            | ((cpu_count - 1) as u32)
                << leaf_0x4::eax_max_addr_ids_in_package_bitrange().lsb_index,
        ebx: 0,
        ecx: 0,
        edx: 0,
        padding: [0, 0, 0],
    };
    {
        let entries = kvm_cpuid.0.as_mut_slice();
        assert_eq!(entries[3], cpuid_f4);
    }
    let cpuid_f4 = kvm_cpuid_entry2 {
        function: 0x4,
        index: 0,
        flags: 0,
        eax: 0b1100000
            & !(0b111111111111 << leaf_0x4::eax_max_addr_ids_sharing_cache_bitrange().lsb_index)
            | ((cpu_count - 1) as u32)
                << leaf_0x4::eax_max_addr_ids_sharing_cache_bitrange().lsb_index
                & !(0b111111 << leaf_0x4::eax_max_addr_ids_in_package_bitrange().lsb_index)
            | ((cpu_count - 1) as u32)
                << leaf_0x4::eax_max_addr_ids_in_package_bitrange().lsb_index,
        ebx: 0,
        ecx: 0,
        edx: 0,
        padding: [0, 0, 0],
    };
    {
        let entries = kvm_cpuid.0.as_mut_slice();
        assert_eq!(entries[4], cpuid_f4);
    }
    let cpuid_f6 = kvm_cpuid_entry2 {
        function: 0x6,
        index: 0,
        flags: 0,
        eax: 1 & !(1 << leaf_0x6::EAX_TURBO_BOOST_BITINDEX),
        ebx: 0,
        ecx: 1 & !(1 << leaf_0x6::ECX_EPB_BITINDEX),
        edx: 0,
        padding: [0, 0, 0],
    };
    {
        let entries = kvm_cpuid.0.as_mut_slice();
        assert_eq!(entries[5], cpuid_f6);
    }
    let cpuid_fa = kvm_cpuid_entry2 {
        function: 0xA,
        index: 0,
        flags: 0,
        eax: 0,
        ebx: 0,
        ecx: 0,
        edx: 0,
        padding: [0, 0, 0],
    };
    {
        let entries = kvm_cpuid.0.as_mut_slice();
        assert_eq!(entries[6], cpuid_fa);
    }
    let cpuid_fb = kvm_cpuid_entry2 {
        function: 0xB,
        index: 0,
        flags: 0,
        eax: 1,
        ebx: 2,
        ecx: leaf_0xb::LEVEL_TYPE_THREAD << leaf_0xb::ecx_level_type_bitrange().lsb_index,
        edx: 0,
        padding: [0, 0, 0],
    };
    {
        let entries = kvm_cpuid.0.as_mut_slice();
        assert_eq!(entries[7], cpuid_fb);
    }
    let cpuid_fb = kvm_cpuid_entry2 {
        function: 0xB,
        index: 1,
        flags: 0,
        eax: LEAFBH_INDEX1_APICID,
        ebx: cpu_count as u32,
        ecx: 1 | leaf_0xb::LEVEL_TYPE_CORE << leaf_0xb::ecx_level_type_bitrange().lsb_index,
        edx: 0,
        padding: [0, 0, 0],
    };
    {
        let entries = kvm_cpuid.0.as_mut_slice();
        assert_eq!(entries[8], cpuid_fb);
    }
    let cpuid_fb = kvm_cpuid_entry2 {
        function: 0xB,
        index: 2,
        flags: 0,
        eax: 0,
        ebx: 0,
        ecx: 2,
        edx: 0,
        padding: [0, 0, 0],
    };
    {
        let entries = kvm_cpuid.0.as_mut_slice();
        assert_eq!(entries[9], cpuid_fb);
    }
    let bstr = get_brand_string().0;
    let cpuid_fother = kvm_cpuid_entry2 {
        function: 0x80000003,
        index: 0,
        flags: 0,
        eax: bstr.get_reg_for_leaf(0x80000003, Reg::EAX),
        ebx: bstr.get_reg_for_leaf(0x80000003, Reg::EBX),
        ecx: bstr.get_reg_for_leaf(0x80000003, Reg::ECX),
        edx: bstr.get_reg_for_leaf(0x80000003, Reg::EDX),
        padding: [0, 0, 0],
    };
    {
        let entries = kvm_cpuid.0.as_mut_slice();
        assert_eq!(entries[10], cpuid_fother);
    }
}
