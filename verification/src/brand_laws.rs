//! What holds of the brand string of a guest.
use crate::brand_string::{
    host_brand_registers, host_max_leaf, host_text, leaf_register, padded, register_at,
    register_byte, register_bytes, text_of, trimmed, BrandString, Reg, BUF_LEN, FIRST_LEAF,
    LAST_LEAF, MAX_LEAF_LEAF, MAX_LEN,
};
use crate::filter::{filtered, Vcpu};
use crate::frequency::{
    first_freq, first_freq_at, freq_at, freq_parts, is_digit, lemma_first_exists,
    lemma_first_freq_unique,
};
use crate::host::host_may_report;
use crate::kvm::CpuidEntry;
use crate::{
    frequency_suffix, guest_brand, guest_brand_error, DEFAULT_BRAND_STRING, FREQUENCY_SEPARATOR,
    INTEL,
};
use vstd::prelude::*;

verus! {

/// The registers of a CPUID entry, in order.
pub open spec fn registers(e: CpuidEntry) -> Seq<u32> {
    seq![e.eax, e.ebx, e.ecx, e.edx]
}

/// `b` holds ASCII characters only.
pub open spec fn is_ascii(b: Seq<u8>) -> bool {
    forall|i: int| 0 <= i < b.len() ==> #[trigger] b[i] < 0x80
}

/// A register is made of its four bytes and falls into them again.
proof fn lemma_register_bytes(b: Seq<u8>, at: int)
    ensures
        register_byte(register_at(b, at), 0) == b[at],
        register_byte(register_at(b, at), 1) == b[at + 1],
        register_byte(register_at(b, at), 2) == b[at + 2],
        register_byte(register_at(b, at), 3) == b[at + 3],
{
    lemma_four_bytes(b[at], b[at + 1], b[at + 2], b[at + 3]);
}

/// A number below 2^32 falls into the four bytes of which it is made.
proof fn lemma_four_bytes(b0: u8, b1: u8, b2: u8, b3: u8)
    ensures
        ({
            let n = b0 + 0x100 * b1 + 0x1_0000 * b2 + 0x100_0000 * b3;
            &&& n <= 0xffff_ffff
            &&& n % 0x100 == b0
            &&& n / 0x100 % 0x100 == b1
            &&& n / 0x1_0000 % 0x100 == b2
            &&& n / 0x100_0000 == b3
        }),
{
    let n = b0 + 0x100 * b1 + 0x1_0000 * b2 + 0x100_0000 * b3;
    assert(n / 0x100 == b1 + 0x100 * b2 + 0x1_0000 * b3);
    assert(n / 0x1_0000 == b2 + 0x100 * b3);
}

/// A register of a brand string leaf holds four bytes of the text, the first one in its bits 7 to 0
/// and the last one in its bits 31 to 24, and 0 for each byte behind the end of the text.
pub proof fn law_leaf_register_bytes(text: Seq<u8>, leaf: u32, reg: Reg)
    requires
        0x8000_0002 <= leaf <= 0x8000_0004,
    ensures
        ({
            let r = leaf_register(text, leaf, reg);
            let at = 16 * (leaf - 0x8000_0002) + match reg {
                Reg::EAX => 0int,
                Reg::EBX => 4,
                Reg::ECX => 8,
                Reg::EDX => 12,
            };
            &&& r & 0xff == if at < text.len() {
                text[at]
            } else {
                0
            }
            &&& (r >> 8) & 0xff == if at + 1 < text.len() {
                text[at + 1]
            } else {
                0
            }
            &&& (r >> 16) & 0xff == if at + 2 < text.len() {
                text[at + 2]
            } else {
                0
            }
            &&& r >> 24 == if at + 3 < text.len() {
                text[at + 3]
            } else {
                0
            }
        }),
{
    let at = 16 * (leaf - FIRST_LEAF) + 4 * reg.place();
    let p = padded(text);
    let r = leaf_register(text, leaf, reg);
    let (b0, b1, b2, b3) = (p[at], p[at + 1], p[at + 2], p[at + 3]);
    lemma_four_bytes(b0, b1, b2, b3);
    assert(r == b0 + 0x100 * b1 + 0x1_0000 * b2 + 0x100_0000 * b3);
    assert(r & 0xff == b0 && (r >> 8) & 0xff == b1 && (r >> 16) & 0xff == b2 && r >> 24 == b3)
        by (bit_vector)
        requires
            r == b0 + 0x100 * b1 + 0x1_0000 * b2 + 0x100_0000 * b3,
    ;
}

/// Byte 0 of a register is in its bits 7 to 0, and byte 3 in its bits 31 to 24.
pub proof fn law_register_byte(r: u32)
    ensures
        register_byte(r, 0) == r & 0xff,
        register_byte(r, 1) == (r >> 8) & 0xff,
        register_byte(r, 2) == (r >> 16) & 0xff,
        register_byte(r, 3) == r >> 24,
{
    assert(r & 0xff == r % 0x100 && (r >> 8) & 0xff == r / 0x100 % 0x100 && (r >> 16) & 0xff == r
        / 0x1_0000 % 0x100 && r >> 24 == r / 0x100_0000 && r / 0x100_0000 <= 0xff) by (bit_vector);
}

/// The bytes of registers are those of the first register, then those of the second, and so on.
pub proof fn law_register_bytes(regs: Seq<u32>, k: int)
    requires
        0 <= k < regs.len(),
    ensures
        register_bytes(regs).len() == 4 * regs.len(),
        register_bytes(regs)[4 * k] == regs[k] & 0xff,
        register_bytes(regs)[4 * k + 1] == (regs[k] >> 8) & 0xff,
        register_bytes(regs)[4 * k + 2] == (regs[k] >> 16) & 0xff,
        register_bytes(regs)[4 * k + 3] == regs[k] >> 24,
{
    law_register_byte(regs[k]);
}

/// Trimming cuts off zeros at the end only, and all of them.
pub proof fn law_trimmed(bytes: Seq<u8>)
    ensures
        trimmed(bytes).len() <= bytes.len(),
        trimmed(bytes) == bytes.take(trimmed(bytes).len() as int),
        forall|i: int| trimmed(bytes).len() <= i < bytes.len() ==> #[trigger] bytes[i] == 0,
        trimmed(bytes).len() > 0 ==> trimmed(bytes).last() != 0,
    decreases bytes.len(),
{
    if bytes.len() > 0 && bytes.last() == 0 {
        let shorter = bytes.drop_last();
        law_trimmed(shorter);
        let n = trimmed(bytes).len() as int;
        assert(bytes.take(n) =~= shorter.take(n));
        assert forall|i: int| n <= i < bytes.len() implies #[trigger] bytes[i] == 0 by {
            if i < shorter.len() {
                assert(shorter[i] == bytes[i]);
            }
        }
    } else {
        assert(bytes.take(bytes.len() as int) =~= bytes);
    }
}

/// The brand string of a host stands in the registers that it reports in the leaves 0x80000002 to
/// 0x80000004, where it reports 0x80000004 or more as its last extended leaf in EAX of the leaf
/// 0x80000000. A host that reports less has none.
pub proof fn law_host_text(text: Option<Seq<u8>>)
    requires
        host_text(text),
    ensures
        exists|max_leaf: u32, ebx: u32, ecx: u32, edx: u32| #[trigger]
            host_may_report(0x8000_0000, max_leaf, ebx, ecx, edx) && (text is Some <==> max_leaf
                >= 0x8000_0004),
        text matches Some(t) ==> exists|a: u32, b: u32, c: u32, d: u32, regs: Seq<u32>|
            {
                &&& #[trigger] host_may_report(0x8000_0002, a, b, c, d)
                &&& regs.len() == 12
                &&& regs.take(4) == seq![a, b, c, d]
                &&& host_may_report(0x8000_0003, regs[4], regs[5], regs[6], regs[7])
                &&& host_may_report(0x8000_0004, regs[8], regs[9], regs[10], regs[11])
                &&& t == trimmed(#[trigger] register_bytes(regs))
            },
{
    let max_leaf = match text {
        Some(t) => choose|m: u32| #[trigger] host_max_leaf(m) && m >= LAST_LEAF,
        None => choose|m: u32| #[trigger] host_max_leaf(m) && m < LAST_LEAF,
    };
    let (ebx, ecx, edx) = choose|ebx: u32, ecx: u32, edx: u32|
        host_may_report(MAX_LEAF_LEAF, max_leaf, ebx, ecx, edx);
    assert(host_may_report(0x8000_0000, max_leaf, ebx, ecx, edx));
    if let Some(t) = text {
        let regs = choose|regs: Seq<u32>| #[trigger]
            host_brand_registers(regs) && t == trimmed(register_bytes(regs));
        assert(host_may_report(0x8000_0002, regs[0], regs[1], regs[2], regs[3]));
        assert(regs.take(4) =~= seq![regs[0], regs[1], regs[2], regs[3]]);
    }
}

/// The text of a brand string that is there is its text, and a missing one has none.
pub proof fn law_text_of(
    brand: std::result::Result<BrandString, crate::brand_string::Error>,
)
    ensures
        brand matches Ok(b) ==> text_of(brand) == Some(b@),
        brand is Err ==> text_of(brand) is None,
{
}

/// The bytes of registers that were made of `bytes` are `bytes`.
proof fn lemma_bytes_of_registers(regs: Seq<u32>, bytes: Seq<u8>)
    requires
        bytes.len() == 4 * regs.len(),
        forall|j: int| 0 <= j < regs.len() ==> #[trigger] regs[j] == register_at(bytes, 4 * j),
    ensures
        register_bytes(regs) == bytes,
{
    assert forall|i: int| 0 <= i < bytes.len() implies #[trigger] register_bytes(regs)[i]
        == bytes[i] by {
        let j = i / 4;
        assert(regs[j] == register_at(bytes, 4 * j));
        lemma_register_bytes(bytes, 4 * j);
        assert(i == 4 * j || i == 4 * j + 1 || i == 4 * j + 2 || i == 4 * j + 3);
    }
    assert(register_bytes(regs) =~= bytes);
}

/// The registers of the brand string leaf number `n`.
proof fn lemma_leaf_registers(e: CpuidEntry, vcpu: Vcpu, brand: Seq<u8>, n: int)
    requires
        0 <= n < 3,
        e.function == FIRST_LEAF + n,
    ensures
        forall|k: int|
            0 <= k < 4 ==> #[trigger] registers(filtered(e, vcpu, brand))[k] == register_at(
                padded(brand),
                4 * (4 * n + k),
            ),
{
    let r = filtered(e, vcpu, brand);
    assert forall|k: int| 0 <= k < 4 implies #[trigger] registers(r)[k] == register_at(
        padded(brand),
        4 * (4 * n + k),
    ) by {
        assert(16 * (e.function - FIRST_LEAF) + 4 * k == 4 * (4 * n + k));
        if k == 0 {
            assert(Reg::EAX.place() == k);
        } else if k == 1 {
            assert(Reg::EBX.place() == k);
        } else if k == 2 {
            assert(Reg::ECX.place() == k);
        } else {
            assert(Reg::EDX.place() == k);
        }
    }
}

/// The registers of three leaves that were made of `bytes`, one after the other.
proof fn lemma_three_leaves(x: Seq<u32>, y: Seq<u32>, z: Seq<u32>, bytes: Seq<u8>)
    requires
        x.len() == 4 && y.len() == 4 && z.len() == 4,
        bytes.len() == BUF_LEN,
        forall|k: int| 0 <= k < 4 ==> #[trigger] x[k] == register_at(bytes, 4 * (4 * 0 + k)),
        forall|k: int| 0 <= k < 4 ==> #[trigger] y[k] == register_at(bytes, 4 * (4 * 1 + k)),
        forall|k: int| 0 <= k < 4 ==> #[trigger] z[k] == register_at(bytes, 4 * (4 * 2 + k)),
    ensures
        register_bytes(x + y + z) == bytes,
{
    let regs = x + y + z;
    assert forall|j: int| 0 <= j < regs.len() implies #[trigger] regs[j] == register_at(
        bytes,
        4 * j,
    ) by {
        if j < 4 {
            assert(regs[j] == x[j]);
        } else if j < 8 {
            assert(regs[j] == y[j - 4]);
        } else {
            assert(regs[j] == z[j - 8]);
        }
    }
    lemma_bytes_of_registers(regs, bytes);
}

/// Trimming takes the zeros off that pad a text.
proof fn lemma_trim_padded(text: Seq<u8>, bytes: Seq<u8>)
    requires
        text.len() <= bytes.len(),
        bytes.take(text.len() as int) == text,
        forall|i: int| text.len() <= i < bytes.len() ==> bytes[i] == 0,
        text.len() > 0 ==> text.last() != 0,
    ensures
        trimmed(bytes) == text,
    decreases bytes.len(),
{
    if bytes.len() == text.len() {
        assert(bytes =~= text);
    } else {
        let shorter = bytes.drop_last();
        assert(shorter.take(text.len() as int) =~= text);
        lemma_trim_padded(text, shorter);
    }
}

/// The three leaves spell the brand string: the registers of their entries, in order, hold its
/// text and then zeros, and a text that does not end in 0 is read from them again.
pub proof fn law_leaves_spell_brand(
    a: CpuidEntry,
    b: CpuidEntry,
    c: CpuidEntry,
    vcpu: Vcpu,
    brand: Seq<u8>,
)
    requires
        a.function == FIRST_LEAF,
        b.function == FIRST_LEAF + 1,
        c.function == LAST_LEAF,
        brand.len() <= BUF_LEN,
    ensures
        ({
            let regs = registers(filtered(a, vcpu, brand)) + registers(filtered(b, vcpu, brand))
                + registers(filtered(c, vcpu, brand));
            &&& register_bytes(regs) == padded(brand)
            &&& (brand.len() > 0 ==> brand.last() != 0) ==> trimmed(register_bytes(regs)) == brand
        }),
{
    let regs = registers(filtered(a, vcpu, brand)) + registers(filtered(b, vcpu, brand))
        + registers(filtered(c, vcpu, brand));
    let p = padded(brand);
    assert(register_bytes(regs) == p) by {
        lemma_leaf_registers(a, vcpu, brand, 0);
        lemma_leaf_registers(b, vcpu, brand, 1);
        lemma_leaf_registers(c, vcpu, brand, 2);
        lemma_three_leaves(
            registers(filtered(a, vcpu, brand)),
            registers(filtered(b, vcpu, brand)),
            registers(filtered(c, vcpu, brand)),
            p,
        );
    }
    if brand.len() > 0 ==> brand.last() != 0 {
        assert(p.take(brand.len() as int) =~= brand);
        lemma_trim_padded(brand, p);
    }
}

/// The default brand string has an allowed length and holds ASCII characters only.
pub proof fn law_default_brand_valid()
    ensures
        DEFAULT_BRAND_STRING@.len() <= MAX_LEN,
        is_ascii(DEFAULT_BRAND_STRING@),
{
}

/// A frequency holds digits, a point and letters: ASCII characters, and the last one is `z`.
proof fn lemma_freq_ascii(s: Seq<u8>)
    ensures
        first_freq(s) matches Some(f) ==> is_ascii(f) && f.len() >= 6 && f.last() == 0x7a,
{
    if first_freq(s) is Some {
        let (a, b) = lemma_first_exists(s);
        let f = s.subrange(a, b);
        let (p, u) = choose|p: int, u: int| #[trigger] freq_parts(s, a, p, u) && b == u + 3;
        assert forall|i: int| 0 <= i < f.len() implies #[trigger] f[i] < 0x80 by {
            let k = a + i;
            assert(f[i] == s[k]);
            if k < p || p < k < u {
                assert(is_digit(s[k]));
            }
        }
    }
}

/// The brand string of a guest starts with the default one, holds ASCII characters only, is short
/// enough to be terminated by a 0, and does not itself end in one.
pub proof fn law_guest_brand_valid(host: Option<Seq<u8>>)
    ensures
        DEFAULT_BRAND_STRING@.is_prefix_of(guest_brand(host)),
        is_ascii(guest_brand(host)),
        guest_brand(host).len() <= MAX_LEN,
        padded(guest_brand(host))[BUF_LEN - 1] == 0,
        guest_brand(host).last() != 0,
{
    let d = DEFAULT_BRAND_STRING@;
    let g = guest_brand(host);
    if let Some(text) = host {
        lemma_freq_ascii(text);
    }
    assert(g.subrange(0, d.len() as int) =~= d);
    assert forall|i: int| 0 <= i < g.len() implies #[trigger] g[i] < 0x80 by {
        if i >= d.len() {
            let suffix = frequency_suffix(host)->0;
            assert(g[i] == suffix[i - d.len()]);
        }
    }
}

/// A host that is not of Intel, or that tells no brand string, gives the default brand string and
/// no error.
pub proof fn law_other_hosts_get_default(host: Option<Seq<u8>>)
    requires
        host matches Some(text) ==> !INTEL@.is_prefix_of(text),
    ensures
        guest_brand(host) == DEFAULT_BRAND_STRING@,
        guest_brand_error(host) is None,
{
}

/// The frequency of an Intel host is appended as it stands in the brand string of the host, if
/// there is room for it. If not, there is an error, and the brand string is the default one.
pub proof fn law_intel_frequency(text: Seq<u8>, start: int, end: int)
    requires
        INTEL@.is_prefix_of(text),
        first_freq_at(text, start, end),
    ensures
        DEFAULT_BRAND_STRING@.len() + FREQUENCY_SEPARATOR@.len() + (end - start) <= MAX_LEN ==> {
            &&& guest_brand(Some(text)) == DEFAULT_BRAND_STRING@ + (FREQUENCY_SEPARATOR@
                + text.subrange(start, end))
            &&& guest_brand_error(Some(text)) is None
        },
        DEFAULT_BRAND_STRING@.len() + FREQUENCY_SEPARATOR@.len() + (end - start) > MAX_LEN ==> {
            &&& guest_brand(Some(text)) == DEFAULT_BRAND_STRING@
            &&& guest_brand_error(Some(text)) == Some(crate::brand_string::Error::Overflow)
        },
{
    let (a, b) = lemma_first_exists(text);
    lemma_first_freq_unique(text, start, end, a, b);
}

/// An Intel host whose brand string holds no frequency gives the default brand string.
pub proof fn law_intel_without_frequency(text: Seq<u8>)
    requires
        forall|a: int, b: int| !freq_at(text, a, b),
    ensures
        guest_brand(Some(text)) == DEFAULT_BRAND_STRING@,
        guest_brand_error(Some(text)) is None,
{
}

/// A frequency stays one where it is taken out and put behind `head`.
proof fn lemma_freq_moved(text: Seq<u8>, a: int, p: int, u: int, head: Seq<u8>)
    requires
        freq_parts(text, a, p, u),
    ensures
        ({
            let d = head.len() - a;
            freq_parts(head + text.subrange(a, u + 3), a + d, p + d, u + d)
        }),
{
    let d = head.len() - a;
    let g = head + text.subrange(a, u + 3);
    assert forall|k: int| a + d <= k < p + d implies is_digit(#[trigger] g[k]) by {
        assert(is_digit(text[k - d]));
    }
    assert forall|k: int| p + d + 1 <= k < u + d implies is_digit(#[trigger] g[k]) by {
        assert(is_digit(text[k - d]));
    }
    assert(g[p + d] == text[p]);
    assert(g[u + d] == text[u]);
    assert(g[u + d + 1] == text[u + 1]);
    assert(g[u + d + 2] == text[u + 2]);
}

/// Behind a text without digits, a frequency is the first one.
proof fn lemma_first_behind(head: Seq<u8>, freq: Seq<u8>)
    requires
        forall|i: int| 0 <= i < head.len() ==> !is_digit(#[trigger] head[i]),
        freq_at(head + freq, head.len() as int, (head.len() + freq.len()) as int),
    ensures
        first_freq(head + freq) == Some(freq),
{
    let g = head + freq;
    let n = head.len() as int;
    let end = (head.len() + freq.len()) as int;
    assert forall|c: int, d: int| #[trigger] freq_at(g, c, d) implies n <= c by {
        let (q, v) = choose|q: int, v: int| #[trigger] freq_parts(g, c, q, v) && d == v + 3;
        assert(is_digit(g[c]));
        if c < n {
            assert(g[c] == head[c]);
        }
    }
    let (c, d) = lemma_first_exists(g);
    assert(first_freq_at(g, n, end));
    lemma_first_freq_unique(g, n, end, c, d);
    assert(g.subrange(n, end) =~= freq);
}

/// No digit stands before the frequency in the brand string of a guest.
proof fn lemma_no_digits_before_frequency()
    ensures
        ({
            let head = DEFAULT_BRAND_STRING@ + FREQUENCY_SEPARATOR@;
            forall|i: int| 0 <= i < head.len() ==> !is_digit(#[trigger] head[i])
        }),
{
}

/// The frequency that is found in the brand string of a guest is that of its host.
pub proof fn law_guest_tells_host_frequency(text: Seq<u8>)
    requires
        INTEL@.is_prefix_of(text),
        first_freq(text) is Some,
        guest_brand_error(Some(text)) is None,
    ensures
        first_freq(guest_brand(Some(text))) == first_freq(text),
{
    let (a, b) = lemma_first_exists(text);
    let (p, u) = choose|p: int, u: int| #[trigger] freq_parts(text, a, p, u) && b == u + 3;
    let freq = text.subrange(a, b);
    let head = DEFAULT_BRAND_STRING@ + FREQUENCY_SEPARATOR@;
    assert(first_freq(head + freq) == Some(freq)) by {
        lemma_no_digits_before_frequency();
        lemma_freq_moved(text, a, p, u, head);
        lemma_first_behind(head, freq);
    }
    assert(guest_brand(Some(text)) =~= head + freq);
}

/// What a frequency looks like: digits from `a` to `p`, a point at `p`, digits up to `u`, one of the
/// letters `M`, `G` and `T` at `u`, then `H` and `z`, with at least one digit on either side.
pub proof fn law_frequency_shape(s: Seq<u8>, a: int, p: int, u: int)
    ensures
        freq_parts(s, a, p, u) <==> {
            &&& 0 <= a < p && p + 1 < u && u + 2 < s.len()
            &&& forall|k: int| a <= k < u && k != p ==> 48 <= #[trigger] s[k] <= 57
            &&& s[p] == 46
            &&& s[u] == 77 || s[u] == 71 || s[u] == 84
            &&& s[u + 1] == 72 && s[u + 2] == 122
        },
{
    if 0 <= a < p && p + 1 < u && u + 2 < s.len() {
        if forall|k: int| a <= k < u && k != p ==> 48 <= #[trigger] s[k] <= 57 {
            assert forall|k: int| a <= k < p implies is_digit(#[trigger] s[k]) by {}
            assert forall|k: int| p + 1 <= k < u implies is_digit(#[trigger] s[k]) by {}
        }
        if freq_parts(s, a, p, u) {
            assert forall|k: int| a <= k < u && k != p implies 48 <= #[trigger] s[k] <= 57 by {
                assert(is_digit(s[k]));
            }
        }
    }
}

/// The first frequency in a text is the one that starts at `a`, if none starts before.
pub proof fn law_first_frequency(s: Seq<u8>, a: int, p: int, u: int)
    requires
        freq_parts(s, a, p, u),
        forall|b: int, q: int, v: int| #[trigger] freq_parts(s, b, q, v) ==> a <= b,
    ensures
        first_freq(s) == Some(s.subrange(a, u + 3)),
        first_freq_at(s, a, u + 3),
{
    assert(freq_at(s, a, u + 3));
    assert forall|b: int, d: int| #[trigger] freq_at(s, b, d) implies a <= b by {
        let (q, v) = choose|q: int, v: int| #[trigger] freq_parts(s, b, q, v) && d == v + 3;
    }
    assert(first_freq_at(s, a, u + 3));
    let (c, d) = lemma_first_exists(s);
    lemma_first_freq_unique(s, a, u + 3, c, d);
}

/// What is the first frequency is a frequency, and no other one starts before it.
pub proof fn law_first_frequency_is_first(s: Seq<u8>, a: int, b: int)
    requires
        first_freq_at(s, a, b),
    ensures
        exists|p: int| #[trigger] freq_parts(s, a, p, b - 3),
        forall|c: int, q: int, v: int| #[trigger] freq_parts(s, c, q, v) ==> a <= c,
{
    let (p, u) = choose|p: int, u: int| #[trigger] freq_parts(s, a, p, u) && b == u + 3;
    assert(freq_parts(s, a, p, b - 3));
    assert forall|c: int, q: int, v: int| #[trigger] freq_parts(s, c, q, v) implies a <= c by {
        assert(freq_at(s, c, v + 3));
    }
}

/// A text in which no frequency starts has no first one.
pub proof fn law_no_frequency(s: Seq<u8>)
    ensures
        first_freq(s) is None <==> forall|a: int, p: int, u: int| !#[trigger] freq_parts(s, a, p, u),
{
    if first_freq(s) is Some {
        let (a, b) = choose|a: int, b: int| freq_at(s, a, b);
        let (p, u) = choose|p: int, u: int| #[trigger] freq_parts(s, a, p, u) && b == u + 3;
        assert(freq_parts(s, a, p, u));
    } else {
        assert forall|a: int, p: int, u: int| !#[trigger] freq_parts(s, a, p, u) by {
            if freq_parts(s, a, p, u) {
                assert(freq_at(s, a, u + 3));
            }
        }
    }
}

/// Whatever stands before and behind it: a number with a point and decimals, followed by `MHz`,
/// `GHz` or `THz`, is found as it stands, if no digit comes before it.
pub proof fn law_frequency_is_found(
    before: Seq<u8>,
    whole: Seq<u8>,
    decimals: Seq<u8>,
    unit: u8,
    behind: Seq<u8>,
)
    requires
        forall|i: int| 0 <= i < before.len() ==> !(48 <= #[trigger] before[i] <= 57),
        forall|i: int| 0 <= i < whole.len() ==> 48 <= #[trigger] whole[i] <= 57,
        forall|i: int| 0 <= i < decimals.len() ==> 48 <= #[trigger] decimals[i] <= 57,
        whole.len() > 0,
        decimals.len() > 0,
        unit == 77 || unit == 71 || unit == 84,
    ensures
        ({
            let freq = whole + seq![46u8] + decimals + seq![unit, 72u8, 122u8];
            first_freq(before + freq + behind) == Some(freq)
        }),
{
    let freq = whole + seq![46u8] + decimals + seq![unit, 72u8, 122u8];
    let s = before + freq + behind;
    let a = before.len() as int;
    let p = a + whole.len();
    let u = p + 1 + decimals.len();
    assert forall|k: int| a <= k < u && k != p implies 48 <= #[trigger] s[k] <= 57 by {
        if k < p {
            assert(s[k] == whole[k - a]);
        } else {
            assert(s[k] == decimals[k - p - 1]);
        }
    }
    law_frequency_shape(s, a, p, u);
    assert(freq_parts(s, a, p, u));
    assert forall|b: int, q: int, v: int| #[trigger] freq_parts(s, b, q, v) implies a <= b by {
        law_frequency_shape(s, b, q, v);
        assert(48 <= s[b] <= 57);
        if b < a {
            assert(s[b] == before[b]);
        }
    }
    law_first_frequency(s, a, p, u);
    assert(s.subrange(a, u + 3) =~= freq);
}

/// On a host whose brand string starts with `Intel` and holds a frequency, the first one from `a`
/// to `u + 3`, the brand string of the guest is `Intel(R) Xeon(R) Processor @ ` and that frequency.
/// One of more than 18 bytes is an error, and the brand string is what stands before ` @ `.
pub proof fn law_guest_brand_on_intel(text: Seq<u8>, a: int, p: int, u: int)
    requires
        text.len() >= 5,
        text.take(5) == seq![73u8, 110u8, 116u8, 101u8, 108u8],
        freq_parts(text, a, p, u),
        forall|b: int, q: int, v: int| #[trigger] freq_parts(text, b, q, v) ==> a <= b,
    ensures
        ({
            let name = seq![
                73u8, 110u8, 116u8, 101u8, 108u8, 40u8, 82u8, 41u8, 32u8,
                88u8, 101u8, 111u8, 110u8, 40u8, 82u8, 41u8, 32u8,
                80u8, 114u8, 111u8, 99u8, 101u8, 115u8, 115u8, 111u8, 114u8,
            ];
            if u + 3 - a <= 18 {
                &&& guest_brand(Some(text)) == name + seq![32u8, 64u8, 32u8] + text.subrange(
                    a,
                    u + 3,
                )
                &&& guest_brand_error(Some(text)) is None
            } else {
                &&& guest_brand(Some(text)) == name
                &&& guest_brand_error(Some(text)) == Some(crate::brand_string::Error::Overflow)
            }
        }),
{
    law_first_frequency(text, a, p, u);
    lemma_constants();
    assert(INTEL@ =~= text.subrange(0, 5));
    assert(DEFAULT_BRAND_STRING@ + (FREQUENCY_SEPARATOR@ + text.subrange(a, u + 3))
        =~= DEFAULT_BRAND_STRING@ + FREQUENCY_SEPARATOR@ + text.subrange(a, u + 3));
}

/// On any other host the brand string of the guest is `Intel(R) Xeon(R) Processor`: on one without
/// a brand string, with one that does not start with `Intel`, or with one that holds no frequency.
pub proof fn law_guest_brand_elsewhere(host: Option<Seq<u8>>)
    requires
        host matches Some(text) ==> {
            ||| text.len() < 5
            ||| text.take(5) != seq![73u8, 110u8, 116u8, 101u8, 108u8]
            ||| forall|a: int, p: int, u: int| !#[trigger] freq_parts(text, a, p, u)
        },
    ensures
        guest_brand(host) == seq![
            73u8, 110u8, 116u8, 101u8, 108u8, 40u8, 82u8, 41u8, 32u8,
            88u8, 101u8, 111u8, 110u8, 40u8, 82u8, 41u8, 32u8,
            80u8, 114u8, 111u8, 99u8, 101u8, 115u8, 115u8, 111u8, 114u8,
        ],
        guest_brand_error(host) is None,
{
    lemma_constants();
    if let Some(text) = host {
        law_no_frequency(text);
        if INTEL@.is_prefix_of(text) {
            assert(text.take(5) =~= INTEL@);
        }
    }
}

/// The constant texts, byte by byte.
proof fn lemma_constants()
    ensures
        DEFAULT_BRAND_STRING@ == seq![
            73u8, 110u8, 116u8, 101u8, 108u8, 40u8, 82u8, 41u8, 32u8,
            88u8, 101u8, 111u8, 110u8, 40u8, 82u8, 41u8, 32u8,
            80u8, 114u8, 111u8, 99u8, 101u8, 115u8, 115u8, 111u8, 114u8,
        ],
        INTEL@ == seq![73u8, 110u8, 116u8, 101u8, 108u8],
        FREQUENCY_SEPARATOR@ == seq![32u8, 64u8, 32u8],
{
    assert(DEFAULT_BRAND_STRING@ =~= seq![
        73u8, 110u8, 116u8, 101u8, 108u8, 40u8, 82u8, 41u8, 32u8,
        88u8, 101u8, 111u8, 110u8, 40u8, 82u8, 41u8, 32u8,
        80u8, 114u8, 111u8, 99u8, 101u8, 115u8, 115u8, 111u8, 114u8,
    ]);
    assert(INTEL@ =~= seq![73u8, 110u8, 116u8, 101u8, 108u8]);
    assert(FREQUENCY_SEPARATOR@ =~= seq![32u8, 64u8, 32u8]);
}

} // verus!
