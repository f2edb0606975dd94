//! The processor brand string, as the CPUID leaves 0x80000002 to 0x80000004 spell it.
use crate::brand_laws::{law_leaf_register_bytes, law_register_byte};
use crate::frequency::{find_first_freq, first_freq};
use crate::host::{host_cpuid, host_may_report};
use vstd::prelude::*;
use vstd::slice::slice_subrange;

verus! {

/// Number of bytes in the registers of the three brand string leaves.
pub const BUF_LEN: usize = 48;

/// The longest brand string that a guest is given: its last byte is the terminating 0.
pub const MAX_LEN: usize = 47;

/// The first of the three leaves that spell the brand string.
pub const FIRST_LEAF: u32 = 0x8000_0002;

/// The last of the three leaves that spell the brand string.
pub const LAST_LEAF: u32 = 0x8000_0004;

/// The leaf that tells the last extended leaf.
pub const MAX_LEAF_LEAF: u32 = 0x8000_0000;

/// What can go wrong with a brand string.
#[derive(Clone, Copy, Debug, PartialEq, Eq, Structural)]
pub enum Error {
    /// The host processor has no brand string.
    NotSupported,
    /// There is no room for the bytes to be appended.
    Overflow,
}

/// The registers of a CPUID leaf.
#[derive(Clone, Copy, Debug, PartialEq, Eq, Structural)]
pub enum Reg {
    /// Register EAX.
    EAX,
    /// Register EBX.
    EBX,
    /// Register ECX.
    ECX,
    /// Register EDX.
    EDX,
}

impl Reg {
    /// The place of the register among the four of its leaf.
    pub open spec fn place(self) -> int {
        match self {
            Reg::EAX => 0,
            Reg::EBX => 1,
            Reg::ECX => 2,
            Reg::EDX => 3,
        }
    }
}

/// The bytes of `text`, followed by as many zeros as fill the three leaves.
pub open spec fn padded(text: Seq<u8>) -> Seq<u8> {
    Seq::new(
        BUF_LEN as nat,
        |i: int|
            if i < text.len() {
                text[i]
            } else {
                0
            },
    )
}

/// The register that holds the four bytes of `bytes` from `at` on, the first one lowest.
pub open spec fn register_at(bytes: Seq<u8>, at: int) -> u32 {
    (bytes[at] + 0x100 * bytes[at + 1] + 0x1_0000 * bytes[at + 2] + 0x100_0000 * bytes[at
        + 3]) as u32
}

/// The register `reg` of the leaf `leaf`, where the three leaves spell `text`.
pub open spec fn leaf_register(text: Seq<u8>, leaf: u32, reg: Reg) -> u32 {
    register_at(padded(text), 16 * (leaf - FIRST_LEAF) + 4 * reg.place())
}

/// Byte `k` of a register, counted from the lowest.
pub open spec fn register_byte(r: u32, k: int) -> u8 {
    if k == 0 {
        (r % 0x100) as u8
    } else if k == 1 {
        (r / 0x100 % 0x100) as u8
    } else if k == 2 {
        (r / 0x1_0000 % 0x100) as u8
    } else {
        (r / 0x100_0000) as u8
    }
}

/// The bytes of the registers `regs`, in order.
pub open spec fn register_bytes(regs: Seq<u32>) -> Seq<u8> {
    Seq::new((4 * regs.len()) as nat, |i: int| register_byte(regs[i / 4], i % 4))
}

/// `bytes` without the zeros at its end.
pub open spec fn trimmed(bytes: Seq<u8>) -> Seq<u8>
    decreases bytes.len(),
{
    if bytes.len() > 0 && bytes.last() == 0 {
        trimmed(bytes.drop_last())
    } else {
        bytes
    }
}

/// A host can report `max_leaf` as the last of its extended leaves.
pub open spec fn host_max_leaf(max_leaf: u32) -> bool {
    exists|ebx: u32, ecx: u32, edx: u32|
        host_may_report(MAX_LEAF_LEAF, max_leaf, ebx, ecx, edx)
}

/// A host can report the registers `regs` in its three brand string leaves.
pub open spec fn host_brand_registers(regs: Seq<u32>) -> bool {
    &&& regs.len() == 12
    &&& host_may_report(FIRST_LEAF, regs[0], regs[1], regs[2], regs[3])
    &&& host_may_report(0x8000_0003, regs[4], regs[5], regs[6], regs[7])
    &&& host_may_report(LAST_LEAF, regs[8], regs[9], regs[10], regs[11])
}

/// A host can have the brand string `text`, or none where `text` is `None`.
pub open spec fn host_text(text: Option<Seq<u8>>) -> bool {
    match text {
        Some(t) => {
            &&& exists|max_leaf: u32| #[trigger] host_max_leaf(max_leaf) && max_leaf >= LAST_LEAF
            &&& exists|regs: Seq<u32>| #[trigger]
                host_brand_registers(regs) && t == trimmed(register_bytes(regs))
        },
        None => exists|max_leaf: u32| #[trigger] host_max_leaf(max_leaf) && max_leaf < LAST_LEAF,
    }
}

/// The text of a brand string that may be missing.
pub open spec fn text_of(brand: Result<BrandString, Error>) -> Option<Seq<u8>> {
    match brand {
        Ok(b) => Some(b@),
        Err(_) => None,
    }
}

/// A brand string.
///
/// Its view is the text, without the zeros that fill the leaves behind it.
#[derive(Debug)]
pub struct BrandString {
    buf: [u8; BUF_LEN],
    len: usize,
}

impl View for BrandString {
    type V = Seq<u8>;

    closed spec fn view(&self) -> Seq<u8> {
        self.buf@.take(self.len as int)
    }
}

impl BrandString {
    #[verifier::type_invariant]
    spec fn wf(self) -> bool {
        &&& self.len <= BUF_LEN
        &&& forall|i: int| self.len <= i < BUF_LEN ==> self.buf@[i] == 0
    }

    /// Reads the brand string of the host processor.
    pub fn from_host_cpuid() -> (r: Result<BrandString, Error>)
        ensures
            host_text(text_of(r)),
            r matches Err(e) ==> e == Error::NotSupported,
            r matches Ok(b) ==> host_text(Some(b@)),
            r is Err ==> host_text(None),
    {
        let (max_leaf, _, _, _) = host_cpuid(MAX_LEAF_LEAF);
        assert(host_max_leaf(max_leaf));
        if max_leaf < LAST_LEAF {
            return Err(Error::NotSupported);
        }
        let a = host_cpuid(FIRST_LEAF);
        let b = host_cpuid(0x8000_0003);
        let c = host_cpuid(LAST_LEAF);
        let regs: [u32; 12] = [a.0, a.1, a.2, a.3, b.0, b.1, b.2, b.3, c.0, c.1, c.2, c.3];
        assert(host_brand_registers(regs@));
        Ok(BrandString::from_registers(&regs))
    }

    /// Makes a brand string of the bytes `src`.
    ///
    /// The bytes are taken as they are: that they are ASCII is not checked.
    pub fn from_bytes_unchecked(src: &[u8]) -> (r: BrandString)
        requires
            src@.len() <= 47,
        ensures
            r@ == src@,
    {
        let mut buf: [u8; BUF_LEN] = [0u8; BUF_LEN];
        let mut i: usize = 0;
        while i < src.len()
            invariant
                src@.len() <= MAX_LEN,
                i <= src@.len(),
                buf@.take(i as int) == src@.take(i as int),
                forall|j: int| i <= j < BUF_LEN ==> buf@[j] == 0,
            decreases src.len() - i,
        {
            buf[i] = src[i];
            i = i + 1;
            assert(buf@.take(i as int) =~= src@.take(i as int));
        }
        assert(src@.take(i as int) =~= src@);
        BrandString { buf, len: src.len() }
    }

    /// Returns the text.
    pub fn as_bytes(&self) -> (r: &[u8])
        ensures
            r@ == self@,
            r@.len() <= BUF_LEN,
    {
        proof {
            use_type_invariant(self);
        }
        slice_subrange(self.buf.as_slice(), 0, self.len)
    }

    /// Returns the value of the register `reg` of the leaf `leaf`.
    pub fn get_reg_for_leaf(&self, leaf: u32, reg: Reg) -> (r: u32)
        requires
            0x8000_0002 <= leaf <= 0x8000_0004,
        ensures
            r == leaf_register(self@, leaf, reg),
            ({
                let at = 16 * (leaf - 0x8000_0002) + match reg {
                    Reg::EAX => 0int,
                    Reg::EBX => 4,
                    Reg::ECX => 8,
                    Reg::EDX => 12,
                };
                &&& r & 0xff == if at < self@.len() {
                    self@[at]
                } else {
                    0
                }
                &&& (r >> 8) & 0xff == if at + 1 < self@.len() {
                    self@[at + 1]
                } else {
                    0
                }
                &&& (r >> 16) & 0xff == if at + 2 < self@.len() {
                    self@[at + 2]
                } else {
                    0
                }
                &&& r >> 24 == if at + 3 < self@.len() {
                    self@[at + 3]
                } else {
                    0
                }
            }),
    {
        proof {
            use_type_invariant(self);
            assert(padded(self@) =~= self.buf@);
            law_leaf_register_bytes(self@, leaf, reg);
        }
        let place: usize = match reg {
            Reg::EAX => 0,
            Reg::EBX => 1,
            Reg::ECX => 2,
            Reg::EDX => 3,
        };
        let at: usize = 16 * (leaf - FIRST_LEAF) as usize + 4 * place;
        self.buf[at] as u32 + 0x100 * self.buf[at + 1] as u32 + 0x1_0000 * self.buf[at + 2] as u32
            + 0x100_0000 * self.buf[at + 3] as u32
    }

    /// Makes a brand string of the twelve registers of the three leaves, in order.
    pub fn from_registers(regs: &[u32; 12]) -> (r: BrandString)
        ensures
            r@ == trimmed(register_bytes(regs@)),
            r@.len() <= 48,
            r@.len() > 0 ==> r@.last() != 0,
            forall|k: int|
                #![trigger regs@[k]]
                0 <= k < 12 ==> {
                    &&& regs@[k] & 0xff == if 4 * k < r@.len() {
                        r@[4 * k]
                    } else {
                        0
                    }
                    &&& (regs@[k] >> 8) & 0xff == if 4 * k + 1 < r@.len() {
                        r@[4 * k + 1]
                    } else {
                        0
                    }
                    &&& (regs@[k] >> 16) & 0xff == if 4 * k + 2 < r@.len() {
                        r@[4 * k + 2]
                    } else {
                        0
                    }
                    &&& regs@[k] >> 24 == if 4 * k + 3 < r@.len() {
                        r@[4 * k + 3]
                    } else {
                        0
                    }
                },
    {
        let ghost bytes = register_bytes(regs@);
        let mut buf: [u8; BUF_LEN] = [0u8; BUF_LEN];
        let mut k: usize = 0;
        while k < 12
            invariant
                k <= 12,
                bytes == register_bytes(regs@),
                forall|j: int| 0 <= j < 4 * k ==> buf@[j] == bytes[j],
            decreases 12 - k,
        {
            let r: u32 = regs[k];
            buf[4 * k] = (r % 0x100) as u8;
            buf[4 * k + 1] = (r / 0x100 % 0x100) as u8;
            buf[4 * k + 2] = (r / 0x1_0000 % 0x100) as u8;
            buf[4 * k + 3] = (r / 0x100_0000) as u8;
            k = k + 1;
        }
        assert(buf@ =~= bytes);
        let mut len: usize = BUF_LEN;
        assert(bytes.take(len as int) =~= bytes);
        while len > 0 && buf[len - 1] == 0
            invariant
                len <= BUF_LEN,
                buf@ == bytes,
                bytes.len() == BUF_LEN,
                forall|j: int| len <= j < BUF_LEN ==> buf@[j] == 0,
                trimmed(bytes.take(len as int)) == trimmed(bytes),
            decreases len,
        {
            assert(bytes.take(len as int).drop_last() =~= bytes.take(len - 1));
            len = len - 1;
        }
        proof {
            assert forall|k: int| #![trigger regs@[k]] 0 <= k < 12 implies {
                &&& regs@[k] & 0xff == bytes[4 * k]
                &&& (regs@[k] >> 8) & 0xff == bytes[4 * k + 1]
                &&& (regs@[k] >> 16) & 0xff == bytes[4 * k + 2]
                &&& regs@[k] >> 24 == bytes[4 * k + 3]
            } by {
                law_register_byte(regs@[k]);
            }
        }
        BrandString { buf, len }
    }

    /// Appends `src` if there is room for it, and leaves the text as it is if not.
    pub fn push_bytes(&mut self, src: &[u8]) -> (r: Result<(), Error>)
        ensures
            r is Ok <==> old(self)@.len() + src@.len() <= 47,
            r is Ok ==> final(self)@ == old(self)@ + src@,
            r matches Err(e) ==> e == Error::Overflow && final(self)@ == old(self)@,
    {
        proof {
            use_type_invariant(&*self);
        }
        let start: usize = self.len;
        if start > MAX_LEN || src.len() > MAX_LEN - start {
            return Err(Error::Overflow);
        }
        let ghost text = self@;
        let mut buf: [u8; BUF_LEN] = self.buf;
        let mut i: usize = 0;
        while i < src.len()
            invariant
                start + src@.len() <= MAX_LEN,
                i <= src@.len(),
                text.len() == start,
                buf@.take(start + i) == text + src@.take(i as int),
                forall|j: int| start + i <= j < BUF_LEN ==> buf@[j] == 0,
            decreases src.len() - i,
        {
            let ghost before = buf@;
            buf[start + i] = src[i];
            i = i + 1;
            assert forall|j: int| 0 <= j < start + i implies #[trigger] buf@[j] == (text
                + src@.take(i as int))[j] by {
                if j < start + i - 1 {
                    assert(before.take(start + i - 1)[j] == before[j]);
                }
            }
            assert(buf@.take(start + i) =~= text + src@.take(i as int));
        }
        assert(src@.take(i as int) =~= src@);
        let len: usize = start + src.len();
        *self = BrandString { buf, len };
        Ok(())
    }

    /// Tells whether the text starts with `prefix`.
    pub fn starts_with(&self, prefix: &[u8]) -> (r: bool)
        ensures
            r == prefix@.is_prefix_of(self@),
    {
        let text: &[u8] = self.as_bytes();
        if prefix.len() > text.len() {
            return false;
        }
        let mut i: usize = 0;
        while i < prefix.len()
            invariant
                i <= prefix@.len() <= text@.len(),
                prefix@.take(i as int) == text@.take(i as int),
                text@ == self@,
            decreases prefix.len() - i,
        {
            if prefix[i] != text[i] {
                assert(prefix@[i as int] != self@.subrange(0, prefix@.len() as int)[i as int]);
                return false;
            }
            i = i + 1;
            assert(prefix@.take(i as int) =~= text@.take(i as int));
        }
        assert(prefix@.take(i as int) =~= prefix@);
        true
    }

    /// Looks for the CPU frequency in the text (for instance `4.01GHz`).
    pub fn find_freq(&self) -> (r: Option<&[u8]>)
        ensures
            r is Some <==> first_freq(self@) is Some,
            r matches Some(freq) ==> first_freq(self@) == Some(freq@) && freq@.len() <= BUF_LEN,
    {
        let text: &[u8] = self.as_bytes();
        match find_first_freq(text) {
            Some((start, end)) => Some(slice_subrange(text, start, end)),
            None => None,
        }
    }
}

} // verus!
