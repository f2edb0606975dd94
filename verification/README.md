# cpuid

Configures the CPUID (CPU identification) of a guest microVM: the entries that KVM supports are
adapted to one virtual CPU of the guest before they are set for it. Written and verified in Verus.

- `src/lib.rs`: `filter_cpuid` and what it is made of, the brand string of a guest, the errors
- `src/filter.rs`: what each CPUID leaf of a guest tells
- `src/brand_string.rs`, `src/frequency.rs`: the processor brand string and the frequency in it
- `src/bit_helper.rs`: bits and ranges of bits in a register, and their laws
- `src/cpu_leaf/`: places and values in the registers of the leaves
- `src/laws.rs`, `src/brand_laws.rs`: what holds of the filtered entries and of the brand string
- `src/kvm.rs`, `src/host.rs`: the entries as `kvm-bindings` holds them, and the CPUID instruction.
  The contracts of the functions that call out are believed, not proved: `load_entries`,
  `store_entry` and `host_cpuid`.
