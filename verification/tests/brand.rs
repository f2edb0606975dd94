use cpuid::brand_string::{BrandString, Error, Reg, MAX_LEN};
use cpuid::frequency::find_first_freq;
use cpuid::{brand_string_for_host, get_brand_string, DEFAULT_BRAND_STRING};

const REGS: [Reg; 4] = [Reg::EAX, Reg::EBX, Reg::ECX, Reg::EDX];

fn freq(text: &str) -> Option<String> {
    find_first_freq(text.as_bytes()).map(|(start, end)| text[start..end].to_string())
}

fn brand(text: &str) -> BrandString {
    BrandString::from_bytes_unchecked(text.as_bytes())
}

fn guest(host: &str) -> (String, Option<Error>) {
    let (b, e) = brand_string_for_host(&Ok(brand(host)));
    (String::from_utf8(b.as_bytes().to_vec()).unwrap(), e)
}

fn registers(b: &BrandString) -> [u32; 12] {
    let mut regs = [0; 12];
    for i in 0..12 {
        regs[i] = b.get_reg_for_leaf(0x8000_0002 + (i / 4) as u32, REGS[i % 4]);
    }
    regs
}

#[test]
fn frequencies_are_found() {
    assert_eq!(freq("4.01GHz"), Some("4.01GHz".to_string()));
    assert_eq!(freq("Intel(R) Xeon(R) CPU E5-2686 v4 @ 2.30GHz"), Some("2.30GHz".to_string()));
    assert_eq!(freq("at 133.33MHz!"), Some("133.33MHz".to_string()));
    assert_eq!(freq("0.001THz"), Some("0.001THz".to_string()));
}

#[test]
fn the_first_frequency_is_found() {
    assert_eq!(freq("1.5GHz 2.5GHz"), Some("1.5GHz".to_string()));
    // The digits behind one point can be those before the next.
    assert_eq!(freq("1.2.3GHz"), Some("2.3GHz".to_string()));
    // A new start in the middle of what looked like a frequency.
    assert_eq!(freq("1.2GH3.4MHz"), Some("3.4MHz".to_string()));
    assert_eq!(freq("1.2G3.4THz"), Some("3.4THz".to_string()));
    assert_eq!(freq("7 1x2.5GHz"), Some("2.5GHz".to_string()));
}

#[test]
fn what_is_no_frequency_is_not_found() {
    for text in ["", "GHz", "2GHz", ".5GHz", "2.GHz", "2.5Hz", "2.5kHz", "2.5GH", "2.5G", "2.5", "2.",
        "2", "2.5GHZ", "2.5 GHz", "2..5GHz"]
    {
        assert_eq!(freq(text), None, "{}", text);
    }
    assert_eq!(brand("Intel 2 GHz").find_freq(), None);
    assert_eq!(brand("Intel 2.0GHz").find_freq(), Some(&b"2.0GHz"[..]));
}

#[test]
fn bytes_are_pushed_while_there_is_room() {
    let mut b = brand("abc");
    assert_eq!(b.push_bytes(b"def"), Ok(()));
    assert_eq!(b.as_bytes(), b"abcdef");
    let rest = vec![0x78; MAX_LEN - 6];
    assert_eq!(b.push_bytes(&rest), Ok(()));
    assert_eq!(b.as_bytes().len(), MAX_LEN);
    assert_eq!(b.push_bytes(b""), Ok(()));
    assert_eq!(b.push_bytes(b"y"), Err(Error::Overflow));
    assert_eq!(b.as_bytes().len(), MAX_LEN);
    let mut c = brand("abc");
    assert_eq!(c.push_bytes(&[0x20; 45]), Err(Error::Overflow));
    assert_eq!(c.as_bytes(), b"abc");
}

#[test]
fn prefixes_are_told() {
    let b = brand("Intel(R)");
    assert!(b.starts_with(b""));
    assert!(b.starts_with(b"Intel"));
    assert!(b.starts_with(b"Intel(R)"));
    assert!(!b.starts_with(b"Intel(R) "));
    assert!(!b.starts_with(b"intel"));
    assert!(!brand("").starts_with(b"I"));
}

#[test]
fn registers_hold_the_bytes_lowest_first() {
    let b = brand("Intel(R) Xeon(R) Processor");
    assert_eq!(b.get_reg_for_leaf(0x8000_0002, Reg::EAX), 0x6574_6e49);
    assert_eq!(b.get_reg_for_leaf(0x8000_0002, Reg::EBX), u32::from_le_bytes(*b"l(R)"));
    assert_eq!(b.get_reg_for_leaf(0x8000_0003, Reg::EAX), u32::from_le_bytes(*b" Pro"));
    assert_eq!(b.get_reg_for_leaf(0x8000_0003, Reg::ECX), u32::from_le_bytes(*b"or\0\0"));
    assert_eq!(b.get_reg_for_leaf(0x8000_0003, Reg::EDX), 0);
    assert_eq!(b.get_reg_for_leaf(0x8000_0004, Reg::EDX), 0);
}

#[test]
fn a_text_is_read_from_its_registers_again() {
    for text in ["", "a", "Intel(R) Xeon(R) Processor @ 3.00GHz"] {
        let b = BrandString::from_registers(&registers(&brand(text)));
        assert_eq!(b.as_bytes(), text.as_bytes());
    }
    // Zeros inside of the text stay, and the last byte counts.
    let b = BrandString::from_registers(&[0x0041_0000, 0, 0, 0, 0, 0, 0, 0, 0, 0, 0, 0]);
    assert_eq!(b.as_bytes(), b"\0\0A");
    let b = BrandString::from_registers(&[0, 0, 0, 0, 0, 0, 0, 0, 0, 0, 0, 0x7a00_0000]);
    assert_eq!(b.as_bytes().len(), 48);
    let mut b = b;
    assert_eq!(b.push_bytes(b""), Err(Error::Overflow));
}

#[test]
fn the_host_is_asked_for_its_brand_string() {
    let max_leaf = core::arch::x86_64::__cpuid(0x8000_0000).eax;
    let host = BrandString::from_host_cpuid();
    if max_leaf < 0x8000_0004 {
        assert_eq!(host.unwrap_err(), Error::NotSupported);
        return;
    }
    let mut bytes: Vec<u8> = Vec::new();
    for leaf in 0x8000_0002u32..=0x8000_0004 {
        let regs = core::arch::x86_64::__cpuid(leaf);
        for reg in [regs.eax, regs.ebx, regs.ecx, regs.edx] {
            bytes.extend_from_slice(&reg.to_le_bytes());
        }
    }
    while bytes.last() == Some(&0) {
        bytes.pop();
    }
    assert_eq!(host.unwrap().as_bytes(), &bytes[..]);
}

#[test]
fn the_guest_gets_the_frequency_of_an_intel_host() {
    assert_eq!(
        guest("Intel(R) Xeon(R) CPU E5-2686 v4 @ 2.30GHz"),
        ("Intel(R) Xeon(R) Processor @ 2.30GHz".to_string(), None)
    );
    let default = String::from_utf8(DEFAULT_BRAND_STRING.to_vec()).unwrap();
    assert_eq!(default, "Intel(R) Xeon(R) Processor");
    assert_eq!(guest("Intel(R) Atom(TM)"), (default.clone(), None));
    assert_eq!(guest("AMD EPYC 2.30GHz"), (default.clone(), None));
    assert_eq!(guest("GenuineIntel 2.30GHz"), (default.clone(), None));
    let (b, e) = brand_string_for_host(&Err(Error::NotSupported));
    assert_eq!(b.as_bytes(), default.as_bytes());
    assert_eq!(e, None);
}

#[test]
fn the_guest_tells_the_frequency_of_its_host() {
    let host = "Intel(R) Core(TM) i7-8650U CPU @ 1.90GHz";
    assert_eq!(freq(&guest(host).0), freq(host));
    assert_eq!(freq(host), Some("1.90GHz".to_string()));
}

#[test]
fn a_frequency_that_is_too_long_is_an_error() {
    let default = "Intel(R) Xeon(R) Processor".to_string();
    // 18 bytes fit, 19 do not.
    assert_eq!(
        guest("Intel 1234567890123.0GHz"),
        (default.clone() + " @ 1234567890123.0GHz", None)
    );
    assert_eq!(guest("Intel 12345678901234.0GHz"), (default, Some(Error::Overflow)));
}

#[test]
fn the_brand_string_of_a_guest_is_short_ascii() {
    let (b, _) = get_brand_string();
    assert!(b.starts_with(&DEFAULT_BRAND_STRING));
    assert!(b.as_bytes().len() <= MAX_LEN);
    assert!(b.as_bytes().iter().all(|c| c.is_ascii() && *c != 0));
    assert_eq!(b.get_reg_for_leaf(0x8000_0004, Reg::EDX) >> 24, 0);
}
