use cpuid::bit_helper::{
    read_bit, read_bits_in_range, write_bit, write_bits_in_range, BitRange,
};

#[test]
fn single_bits_are_read_and_written() {
    assert!(read_bit(0x8000_0000, 31));
    assert!(!read_bit(0x7fff_ffff, 31));
    assert!(read_bit(1, 0));
    assert_eq!(write_bit(0, 31, true), 0x8000_0000);
    assert_eq!(write_bit(0xffff_ffff, 0, false), 0xffff_fffe);
    // A bit that has the value already.
    assert_eq!(write_bit(0b1010, 3, true), 0b1010);
    assert_eq!(write_bit(0b1010, 2, false), 0b1010);
}

#[test]
fn only_the_written_bit_changes() {
    let x = 0xa5a5_5a5a;
    for pos in 0..32 {
        for val in [false, true] {
            let r = write_bit(x, pos, val);
            for i in 0..32 {
                let expected = if i == pos { val } else { read_bit(x, i) };
                assert_eq!(read_bit(r, i), expected);
            }
        }
    }
}

#[test]
fn ranges_are_read_and_written() {
    let range = BitRange { msb_index: 7, lsb_index: 3 };
    assert_eq!(read_bits_in_range(72, &range), 9);
    assert_eq!(write_bits_in_range(72, &range, 0), 0);
    assert_eq!(write_bits_in_range(0xffff_ffff, &range, 0b10101), 0xffff_ffaf);
    let all = BitRange { msb_index: 31, lsb_index: 0 };
    assert_eq!(read_bits_in_range(0xdead_beef, &all), 0xdead_beef);
    assert_eq!(write_bits_in_range(0xdead_beef, &all, 0x1234_5678), 0x1234_5678);
    let top = BitRange { msb_index: 31, lsb_index: 31 };
    assert_eq!(read_bits_in_range(0x8000_0000, &top), 1);
    assert_eq!(write_bits_in_range(0x8000_0001, &top, 0), 1);
}

#[test]
fn a_written_number_reads_back_and_the_rest_stays() {
    let x = 0x1234_5678;
    let low = BitRange { msb_index: 15, lsb_index: 8 };
    let high = BitRange { msb_index: 31, lsb_index: 26 };
    let r = write_bits_in_range(x, &low, 0xff);
    assert_eq!(r, 0x1234_ff78);
    assert_eq!(read_bits_in_range(r, &low), 0xff);
    assert_eq!(read_bits_in_range(r, &high), read_bits_in_range(x, &high));
}

#[test]
fn writes_into_disjoint_ranges_commute() {
    let x = 0x0f0f_0f0f;
    let a = BitRange { msb_index: 25, lsb_index: 14 };
    let b = BitRange { msb_index: 31, lsb_index: 26 };
    let ab = write_bits_in_range(write_bits_in_range(x, &a, 0x5a5), &b, 0x2a);
    let ba = write_bits_in_range(write_bits_in_range(x, &b, 0x2a), &a, 0x5a5);
    assert_eq!(ab, ba);
}

#[test]
fn the_last_write_into_a_range_stays() {
    let range = BitRange { msb_index: 12, lsb_index: 5 };
    let x = 0x00ff_ff00;
    let twice = write_bits_in_range(write_bits_in_range(x, &range, 0x33), &range, 0xcc);
    assert_eq!(twice, write_bits_in_range(x, &range, 0xcc));
    assert_eq!(write_bits_in_range(x, &range, read_bits_in_range(x, &range)), x);
}
