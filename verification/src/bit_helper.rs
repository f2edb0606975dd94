//! Reading and writing single bits and ranges of bits of a 32-bit register.
use vstd::prelude::*;

verus! {

/// Index of the most significant bit of a register.
pub const MAX_BIT_INDEX: u32 = 31;

/// A range of bits of a register, both ends included.
///
/// `BitRange { msb_index: 7, lsb_index: 3 }` stands for the bits 7, 6, 5, 4 and 3.
#[derive(Clone, Copy, Debug, PartialEq, Eq)]
pub struct BitRange {
    /// Index of the most significant bit of the range.
    pub msb_index: u32,
    /// Index of the least significant bit of the range.
    pub lsb_index: u32,
}

impl BitRange {
    /// The range is not empty and lies within a register.
    pub open spec fn valid(self) -> bool {
        self.lsb_index <= self.msb_index <= MAX_BIT_INDEX
    }

    /// Bit `i` belongs to the range.
    pub open spec fn contains(self, i: u32) -> bool {
        self.lsb_index <= i <= self.msb_index
    }

    /// The two ranges have no bit in common.
    pub open spec fn disjoint(self, other: BitRange) -> bool {
        self.msb_index < other.lsb_index || other.msb_index < self.lsb_index
    }

    /// The register in which exactly the bits of the range are set.
    pub open spec fn mask(self) -> u32 {
        (0xffff_ffffu32 << self.lsb_index) & (0xffff_ffffu32 >> ((31 - self.msb_index) as u32))
    }

    /// The largest value that the range can hold.
    pub open spec fn max_value(self) -> u32 {
        0xffff_ffffu32 >> ((31 - self.msb_index + self.lsb_index) as u32)
    }
}

/// Bit `i` of the register `x`.
pub open spec fn bit(x: u32, i: u32) -> bool {
    (x >> i) & 1 == 1
}

/// The register `x` with its bit `pos` set to `val`.
pub open spec fn with_bit(x: u32, pos: u32, val: bool) -> u32 {
    if val {
        x | (1u32 << pos)
    } else {
        x & !(1u32 << pos)
    }
}

/// The number held in the bits `range` of the register `x`.
pub open spec fn field(x: u32, range: BitRange) -> u32 {
    (x >> range.lsb_index) & range.max_value()
}

/// The register `x` with the number `val` put into its bits `range`.
pub open spec fn with_field(x: u32, range: BitRange, val: u32) -> u32 {
    (x & !range.mask()) | (val << range.lsb_index)
}

/// Reads the bit of `x` at position `pos`.
pub fn read_bit(x: u32, pos: u32) -> (val: bool)
    requires
        pos <= MAX_BIT_INDEX,
    ensures
        val == bit(x, pos),
        val == ((x >> pos) & 1 == 1),
{
    (x >> pos) & 1 == 1
}

/// Returns `x` with its bit at position `pos` changed to `val`.
pub fn write_bit(x: u32, pos: u32, val: bool) -> (r: u32)
    requires
        pos <= MAX_BIT_INDEX,
    ensures
        r == with_bit(x, pos, val),
        bit(r, pos) == val,
        forall|i: u32| i <= MAX_BIT_INDEX && i != pos ==> #[trigger] bit(r, i) == bit(x, i),
        ((r >> pos) & 1 == 1) == val,
        forall|i: u32|
            i <= 31 && i != pos ==> ((#[trigger] (r >> i)) & 1 == 1) == ((x >> i) & 1 == 1),
{
    proof {
        lemma_with_bit(x, pos, val);
        let r = with_bit(x, pos, val);
        assert forall|i: u32| i <= 31 && i != pos implies ((#[trigger] (r >> i)) & 1 == 1) == ((x
            >> i) & 1 == 1) by {
            assert(bit(r, i) == bit(x, i));
        }
    }
    if val {
        x | (1u32 << pos)
    } else {
        x & !(1u32 << pos)
    }
}

/// Reads the number held in the bits `range` of `x`.
pub fn read_bits_in_range(x: u32, range: &BitRange) -> (val: u32)
    requires
        range.valid(),
    ensures
        val == field(x, *range),
        val <= range.max_value(),
        val == (x >> range.lsb_index) & (0xffff_ffffu32 >> ((31 - range.msb_index
            + range.lsb_index) as u32)),
{
    let max: u32 = 0xffff_ffffu32 >> (31 - range.msb_index + range.lsb_index);
    let shifted: u32 = x >> range.lsb_index;
    assert(shifted & max <= max) by (bit_vector);
    shifted & max
}

/// Returns `x` with the number `val` stored in its bits `range`.
///
/// The number has to fit the range.
pub fn write_bits_in_range(x: u32, range: &BitRange, val: u32) -> (r: u32)
    requires
        range.valid(),
        val <= range.max_value(),
    ensures
        r == with_field(x, *range, val),
        field(r, *range) == val,
        forall|i: u32|
            i <= MAX_BIT_INDEX && !range.contains(i) ==> #[trigger] bit(r, i) == bit(x, i),
        (r >> range.lsb_index) & (0xffff_ffffu32 >> ((31 - range.msb_index
            + range.lsb_index) as u32)) == val,
        forall|i: u32|
            i < range.lsb_index || range.msb_index < i <= 31 ==> ((#[trigger] (r >> i)) & 1 == 1)
                == ((x >> i) & 1 == 1),
{
    proof {
        lemma_with_field(x, *range, val);
        let r = with_field(x, *range, val);
        assert forall|i: u32|
            i < range.lsb_index || range.msb_index < i <= 31 implies ((#[trigger] (r >> i)) & 1
            == 1) == ((x >> i) & 1 == 1) by {
            assert(bit(r, i) == bit(x, i));
        }
    }
    let mask: u32 = (0xffff_ffffu32 << range.lsb_index) & (0xffff_ffffu32 >> (31
        - range.msb_index));
    (x & !mask) | (val << range.lsb_index)
}

/// Writing a bit gives that bit the value written and leaves every other bit as it was.
pub proof fn lemma_with_bit(x: u32, pos: u32, val: bool)
    requires
        pos <= MAX_BIT_INDEX,
    ensures
        bit(with_bit(x, pos, val), pos) == val,
        forall|i: u32|
            i <= MAX_BIT_INDEX && i != pos ==> #[trigger] bit(with_bit(x, pos, val), i) == bit(x, i),
{
    let r = with_bit(x, pos, val);
    assert(val ==> bit(x | (1u32 << pos), pos)) by (bit_vector)
        requires
            pos <= 31,
    ;
    assert(!bit(x & !(1u32 << pos), pos)) by (bit_vector)
        requires
            pos <= 31,
    ;
    assert forall|i: u32| i <= MAX_BIT_INDEX && i != pos implies #[trigger] bit(r, i) == bit(x, i) by {
        assert(bit(x | (1u32 << pos), i) == bit(x, i) && bit(x & !(1u32 << pos), i) == bit(x, i))
            by (bit_vector)
            requires
                pos <= 31,
                i <= 31,
                i != pos,
        ;
    }
}

/// A number written into a range reads back, and no bit outside the range changes.
pub proof fn lemma_with_field(x: u32, range: BitRange, val: u32)
    requires
        range.valid(),
        val <= range.max_value(),
    ensures
        field(with_field(x, range, val), range) == val,
        forall|i: u32|
            i <= MAX_BIT_INDEX && !range.contains(i) ==> #[trigger] bit(
                with_field(x, range, val),
                i,
            ) == bit(x, i),
{
    let r = with_field(x, range, val);
    let (m, l) = (range.msb_index, range.lsb_index);
    assert((((x & !((0xffff_ffffu32 << l) & (0xffff_ffffu32 >> ((31 - m) as u32)))) | (val << l))
        >> l) & (0xffff_ffffu32 >> ((31 - m + l) as u32)) == val) by (bit_vector)
        requires
            l <= m <= 31,
            val <= 0xffff_ffffu32 >> ((31 - m + l) as u32),
    ;
    assert forall|i: u32| i <= MAX_BIT_INDEX && !range.contains(i) implies #[trigger] bit(r, i)
        == bit(x, i) by {
        assert(bit(
            (x & !((0xffff_ffffu32 << l) & (0xffff_ffffu32 >> ((31 - m) as u32)))) | (val << l),
            i,
        ) == bit(x, i)) by (bit_vector)
            requires
                l <= m <= 31,
                val <= 0xffff_ffffu32 >> ((31 - m + l) as u32),
                i <= 31,
                i < l || m < i,
        ;
    }
}

/// Two registers that agree in every bit are the same register.
pub proof fn lemma_bits_determine(x: u32, y: u32)
    requires
        forall|i: u32| i <= MAX_BIT_INDEX ==> #[trigger] bit(x, i) == bit(y, i),
    ensures
        x == y,
{
    let d = x ^ y;
    if x != y {
        assert(d != 0) by (bit_vector)
            requires
                x != y,
                d == x ^ y,
        ;
        let i = lemma_nonzero_has_bit(d, 31);
        assert(bit(x, i) == bit(y, i));
        assert(((x ^ y) >> i) & 1 == ((x >> i) & 1) ^ ((y >> i) & 1)) by (bit_vector);
        let (a, b) = ((x >> i) & 1, (y >> i) & 1);
        assert(a == b) by (bit_vector)
            requires
                a == (x >> i) & 1,
                b == (y >> i) & 1,
                ((x >> i) & 1 == 1) == ((y >> i) & 1 == 1),
        ;
        assert(a ^ b == 0) by (bit_vector)
            requires
                a == b,
        ;
    }
}

/// Bit `j` of the number in a range is bit `lsb_index + j` of the register.
pub proof fn lemma_field_bits(x: u32, range: BitRange, j: u32)
    requires
        range.valid(),
        j <= range.msb_index - range.lsb_index,
    ensures
        bit(field(x, range), j) == bit(x, (range.lsb_index + j) as u32),
{
    let (m, l) = (range.msb_index, range.lsb_index);
    assert(bit((x >> l) & (0xffff_ffffu32 >> ((31 - m + l) as u32)), j) == bit(x, (l + j) as u32))
        by (bit_vector)
        requires
            l <= m <= 31,
            j <= m - l,
    ;
}

/// Two registers that hold the same number in a range agree in the bits of the range.
pub proof fn lemma_field_determines_bits(x: u32, y: u32, range: BitRange)
    requires
        range.valid(),
        field(x, range) == field(y, range),
    ensures
        forall|i: u32| range.contains(i) ==> #[trigger] bit(x, i) == bit(y, i),
{
    assert forall|i: u32| range.contains(i) implies #[trigger] bit(x, i) == bit(y, i) by {
        let j = (i - range.lsb_index) as u32;
        lemma_field_bits(x, range, j);
        lemma_field_bits(y, range, j);
    }
}

/// Writing into one range leaves the number in a disjoint range as it was.
pub proof fn lemma_with_field_frame(x: u32, written: BitRange, val: u32, other: BitRange)
    requires
        written.valid(),
        other.valid(),
        written.disjoint(other),
        val <= written.max_value(),
    ensures
        field(with_field(x, written, val), other) == field(x, other),
{
    let (m, l) = (written.msb_index, written.lsb_index);
    let (p, q) = (other.msb_index, other.lsb_index);
    assert((((x & !((0xffff_ffffu32 << l) & (0xffff_ffffu32 >> ((31 - m) as u32)))) | (val << l))
        >> q) & (0xffff_ffffu32 >> ((31 - p + q) as u32)) == (x >> q) & (0xffff_ffffu32 >> ((31 - p
        + q) as u32))) by (bit_vector)
        requires
            l <= m <= 31,
            q <= p <= 31,
            m < q || p < l,
            val <= 0xffff_ffffu32 >> ((31 - m + l) as u32),
    ;
}

/// The order of two writes into disjoint ranges does not matter.
pub proof fn lemma_with_field_commutes(x: u32, r: BitRange, v: u32, s: BitRange, w: u32)
    requires
        r.valid(),
        s.valid(),
        r.disjoint(s),
        v <= r.max_value(),
        w <= s.max_value(),
    ensures
        with_field(with_field(x, r, v), s, w) == with_field(with_field(x, s, w), r, v),
{
    let (m, l) = (r.msb_index, r.lsb_index);
    let (p, q) = (s.msb_index, s.lsb_index);
    let a = r.mask();
    let b = s.mask();
    let (vs, ws) = (v << l, w << q);
    assert(vs & b == 0 && ws & a == 0) by (bit_vector)
        requires
            l <= m <= 31,
            q <= p <= 31,
            m < q || p < l,
            v <= 0xffff_ffffu32 >> ((31 - m + l) as u32),
            w <= 0xffff_ffffu32 >> ((31 - p + q) as u32),
            a == (0xffff_ffffu32 << l) & (0xffff_ffffu32 >> ((31 - m) as u32)),
            b == (0xffff_ffffu32 << q) & (0xffff_ffffu32 >> ((31 - p) as u32)),
            vs == v << l,
            ws == w << q,
    ;
    assert((((x & !a) | vs) & !b) | ws == (((x & !b) | ws) & !a) | vs) by (bit_vector)
        requires
            vs & b == 0,
            ws & a == 0,
    ;
}

/// Of two writes into the same range the second one stays.
pub proof fn lemma_with_field_overwrites(x: u32, range: BitRange, v: u32, w: u32)
    requires
        range.valid(),
        v <= range.max_value(),
        w <= range.max_value(),
    ensures
        with_field(with_field(x, range, v), range, w) == with_field(x, range, w),
{
    let (m, l) = (range.msb_index, range.lsb_index);
    let a = range.mask();
    let (vs, ws) = (v << l, w << l);
    assert(vs & !a == 0) by (bit_vector)
        requires
            l <= m <= 31,
            v <= 0xffff_ffffu32 >> ((31 - m + l) as u32),
            a == (0xffff_ffffu32 << l) & (0xffff_ffffu32 >> ((31 - m) as u32)),
            vs == v << l,
    ;
    assert((((x & !a) | vs) & !a) | ws == (x & !a) | ws) by (bit_vector)
        requires
            vs & !a == 0,
    ;
}

/// Writing back the number that a range holds changes nothing.
pub proof fn lemma_write_back(x: u32, range: BitRange)
    requires
        range.valid(),
    ensures
        field(x, range) <= range.max_value(),
        with_field(x, range, field(x, range)) == x,
{
    let (m, l) = (range.msb_index, range.lsb_index);
    let max = range.max_value();
    assert((x >> l) & max <= max) by (bit_vector);
    assert((x & !((0xffff_ffffu32 << l) & (0xffff_ffffu32 >> ((31 - m) as u32)))) | (((x >> l)
        & (0xffff_ffffu32 >> ((31 - m + l) as u32))) << l) == x) by (bit_vector)
        requires
            l <= m <= 31,
    ;
}

/// Writing a value that a bit has already changes nothing.
pub proof fn lemma_bit_write_back(x: u32, pos: u32)
    requires
        pos <= MAX_BIT_INDEX,
    ensures
        with_bit(x, pos, bit(x, pos)) == x,
{
    assert((x >> pos) & 1 == 1 ==> x | (1u32 << pos) == x) by (bit_vector)
        requires
            pos <= 31,
    ;
    assert((x >> pos) & 1 != 1 ==> x & !(1u32 << pos) == x) by (bit_vector)
        requires
            pos <= 31,
    ;
}

/// A register other than 0 has a bit set; where no bit above `top` is set, one at or below it.
proof fn lemma_nonzero_has_bit(x: u32, top: u32) -> (i: u32)
    requires
        x != 0,
        top <= MAX_BIT_INDEX,
        top < 31 ==> x >> ((top + 1) as u32) == 0,
    ensures
        i <= top,
        bit(x, i),
    decreases top,
{
    if bit(x, top) {
        top
    } else if top == 0 {
        assert(x & 1 == 1) by (bit_vector)
            requires
                x != 0,
                x >> 1u32 == 0,
        ;
        assert(bit(x, 0)) by (bit_vector)
            requires
                x & 1 == 1,
        ;
        0
    } else {
        assert(x >> top == 0) by (bit_vector)
            requires
                top <= 31,
                top < 31 ==> x >> ((top + 1) as u32) == 0,
                (x >> top) & 1 != 1,
        ;
        lemma_nonzero_has_bit(x, (top - 1) as u32)
    }
}

} // verus!
