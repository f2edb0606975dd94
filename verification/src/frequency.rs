//! Finding the CPU frequency in a brand string.
//!
//! A frequency is one or more decimal digits, a point, one or more decimal digits, one of the
//! letters `M`, `G` and `T`, and `Hz`: for instance `4.01GHz`.
use vstd::prelude::*;

verus! {

/// `c` is an ASCII decimal digit.
pub open spec fn is_digit(c: u8) -> bool {
    0x30 <= c <= 0x39
}

/// `c` is the letter of a unit: mega, giga or tera.
pub open spec fn is_unit(c: u8) -> bool {
    c == 0x4d || c == 0x47 || c == 0x54
}

/// Every byte of `s` from `from` up to, but not including, `to` is a digit.
pub open spec fn all_digits(s: Seq<u8>, from: int, to: int) -> bool {
    forall|k: int| from <= k < to ==> is_digit(#[trigger] s[k])
}

/// A frequency starts at `start`, with its point at `point` and its unit letter at `unit`.
pub open spec fn freq_parts(s: Seq<u8>, start: int, point: int, unit: int) -> bool {
    &&& 0 <= start < point
    &&& point + 1 < unit
    &&& unit + 3 <= s.len()
    &&& all_digits(s, start, point)
    &&& s[point] == 0x2e
    &&& all_digits(s, point + 1, unit)
    &&& is_unit(s[unit])
    &&& s[unit + 1] == 0x48
    &&& s[unit + 2] == 0x7a
}

/// The bytes of `s` from `start` up to, but not including, `end` are a frequency.
pub open spec fn freq_at(s: Seq<u8>, start: int, end: int) -> bool {
    exists|point: int, unit: int| #[trigger]
        freq_parts(s, start, point, unit) && end == unit + 3
}

/// The bytes of `s` from `start` up to `end` are a frequency, and none starts earlier.
pub open spec fn first_freq_at(s: Seq<u8>, start: int, end: int) -> bool {
    &&& freq_at(s, start, end)
    &&& forall|a: int, b: int| #[trigger] freq_at(s, a, b) ==> start <= a
}

/// The first frequency in `s`, if there is one.
pub open spec fn first_freq(s: Seq<u8>) -> Option<Seq<u8>> {
    if exists|a: int, b: int| freq_at(s, a, b) {
        let (start, end) = choose|a: int, b: int| first_freq_at(s, a, b);
        Some(s.subrange(start, end))
    } else {
        None
    }
}

/// What the search has read, right before the byte that it looks at next.
enum Stage {
    /// Nothing that a frequency can start with.
    Initial,
    /// The digits before the point.
    IntPart,
    /// The point.
    Point,
    /// The digits behind the point.
    DecimalPart,
    /// The letter of the unit.
    Unit,
    /// The `H` of `Hz`.
    H,
}

impl Stage {
    /// What stands in `s` before `i`, where the digits before the point start at `start` and
    /// those behind it at `decimals`.
    spec fn read(self, s: Seq<u8>, i: int, start: int, decimals: int) -> bool {
        &&& 0 <= i <= s.len()
        &&& self !is Initial ==> 0 <= start < i
        &&& match self {
            Stage::Initial => true,
            Stage::IntPart => all_digits(s, start, i),
            Stage::Point => start + 1 < i && all_digits(s, start, i - 1) && s[i - 1] == 0x2e,
            Stage::DecimalPart => decimals < i && freq_head(s, start, decimals, i),
            Stage::Unit => decimals + 1 < i && freq_head(s, start, decimals, i - 1) && is_unit(
                s[i - 1],
            ),
            Stage::H => decimals + 2 < i && freq_head(s, start, decimals, i - 2) && is_unit(
                s[i - 2],
            ) && s[i - 1] == 0x48,
        }
    }

    /// The earliest place at which a frequency can still start.
    spec fn earliest(self, i: int, start: int) -> int {
        if self is Initial {
            i
        } else {
            start
        }
    }
}

/// `s` holds, from `start` on, digits, a point right before `decimals`, and digits up to `to`.
spec fn freq_head(s: Seq<u8>, start: int, decimals: int, to: int) -> bool {
    &&& start + 1 < decimals
    &&& all_digits(s, start, decimals - 1)
    &&& s[decimals - 1] == 0x2e
    &&& all_digits(s, decimals, to)
}

/// No frequency starts before `earliest`.
spec fn none_before(s: Seq<u8>, earliest: int) -> bool {
    forall|a: int, p: int, u: int| #[trigger] freq_parts(s, a, p, u) ==> earliest <= a
}

/// The byte that a frequency which has started before `i` needs at `i`.
spec fn continues(s: Seq<u8>, stage: Stage, i: int, a: int, decimals: int) -> bool {
    i < s.len() && match stage {
        Stage::Initial => false,
        Stage::IntPart => is_digit(s[i]) || s[i] == 0x2e,
        Stage::Point => is_digit(s[i]),
        Stage::DecimalPart => is_digit(s[i]) || (if a < decimals {
            is_unit(s[i])
        } else {
            s[i] == 0x2e
        }),
        Stage::Unit => s[i] == 0x48,
        Stage::H => s[i] == 0x7a,
    }
}

/// A frequency that has started before `i` goes on at `i` as the stage says.
proof fn lemma_continues(
    s: Seq<u8>,
    stage: Stage,
    i: int,
    start: int,
    decimals: int,
    a: int,
    p: int,
    u: int,
)
    requires
        stage.read(s, i, start, decimals),
        freq_parts(s, a, p, u),
        stage.earliest(i, start) <= a < i,
    ensures
        continues(s, stage, i, a, decimals),
{
    match stage {
        Stage::Initial => {},
        Stage::IntPart => {
            if p < i {
                assert(is_digit(s[p]));
            }
        },
        Stage::Point => {
            assert(is_digit(s[a]));
            if p < i - 1 {
                assert(is_digit(s[p]));
            }
            if p > i - 1 {
                assert(is_digit(s[i - 1]));
            }
        },
        Stage::DecimalPart => {
            lemma_head_parts(s, start, decimals, i, a, p, u);
        },
        Stage::Unit => {
            lemma_head_parts(s, start, decimals, i - 1, a, p, u);
            if p > i - 1 || u > i - 1 {
                assert(is_digit(s[i - 1]));
            }
        },
        Stage::H => {
            lemma_head_parts(s, start, decimals, i - 2, a, p, u);
            if p > i - 2 || u > i - 2 {
                assert(is_digit(s[i - 2]));
            }
        },
    }
}

/// Behind digits, a point and digits, a frequency that starts in the former digits has the
/// same point, and one that starts in the latter has its own point behind them.
proof fn lemma_head_parts(
    s: Seq<u8>,
    start: int,
    decimals: int,
    to: int,
    a: int,
    p: int,
    u: int,
)
    requires
        freq_head(s, start, decimals, to),
        freq_parts(s, a, p, u),
        start <= a,
        decimals < to <= s.len(),
    ensures
        a < decimals ==> a < decimals - 1 && p == decimals - 1 && to <= u,
        decimals <= a < to ==> to <= p,
        to == a ==> is_digit(s[to]),
{
    assert(is_digit(s[a]));
    if a < decimals {
        if p < decimals - 1 {
            assert(is_digit(s[p]));
        }
        if p > decimals - 1 {
            assert(is_digit(s[decimals - 1]));
        }
        if u < to {
            assert(is_digit(s[u]));
        }
    } else if a < to && p < to {
        assert(is_digit(s[p]));
    }
}

/// Looks for the first frequency in `text` and returns where it starts and where it ends.
///
/// One pass, without going back: at each byte the stage tells how much of a frequency has been
/// read.
pub fn find_first_freq(text: &[u8]) -> (r: Option<(usize, usize)>)
    ensures
        match r {
            Some((start, end)) => first_freq_at(text@, start as int, end as int) && start <= end
                <= text@.len(),
            None => forall|a: int, b: int| !freq_at(text@, a, b),
        },
        r is Some <==> first_freq(text@) is Some,
        r matches Some((start, end)) ==> first_freq(text@) == Some(
            text@.subrange(start as int, end as int),
        ),
{
    let ghost s: Seq<u8> = text@;
    let mut stage = Stage::Initial;
    let mut start: usize = 0;
    let mut decimals: usize = 0;
    let mut i: usize = 0;
    while i < text.len()
        invariant
            s == text@,
            stage.read(s, i as int, start as int, decimals as int),
            none_before(s, stage.earliest(i as int, start as int)),
        decreases text.len() - i,
    {
        let c: u8 = text[i];
        let digit = 0x30 <= c && c <= 0x39;
        proof {
            assert forall|a: int, p: int, u: int| #[trigger]
                freq_parts(s, a, p, u) && a < i implies continues(
                s,
                stage,
                i as int,
                a,
                decimals as int,
            ) by {
                lemma_continues(s, stage, i as int, start as int, decimals as int, a, p, u);
            }
            assert forall|a: int, p: int, u: int| #[trigger]
                freq_parts(s, a, p, u) && a == i implies digit by {
                assert(is_digit(s[a]));
            }
        }
        match stage {
            Stage::Initial => {
                if digit {
                    start = i;
                    stage = Stage::IntPart;
                }
            },
            Stage::IntPart => {
                if !digit {
                    if c == 0x2e {
                        stage = Stage::Point;
                    } else {
                        stage = Stage::Initial;
                    }
                }
            },
            Stage::Point => {
                if digit {
                    decimals = i;
                    stage = Stage::DecimalPart;
                } else {
                    stage = Stage::Initial;
                }
            },
            Stage::DecimalPart => {
                if !digit {
                    if c == 0x2e {
                        start = decimals;
                        stage = Stage::Point;
                    } else if c == 0x4d || c == 0x47 || c == 0x54 {
                        stage = Stage::Unit;
                    } else {
                        stage = Stage::Initial;
                    }
                }
            },
            Stage::Unit => {
                if c == 0x48 {
                    stage = Stage::H;
                } else if digit {
                    start = i;
                    stage = Stage::IntPart;
                } else {
                    stage = Stage::Initial;
                }
            },
            Stage::H => {
                if c == 0x7a {
                    proof {
                        assert(freq_parts(s, start as int, decimals - 1, i - 2));
                        lemma_found(s, start as int, i + 1);
                    }
                    return Some((start, i + 1));
                } else if digit {
                    start = i;
                    stage = Stage::IntPart;
                } else {
                    stage = Stage::Initial;
                }
            },
        }
        i = i + 1;
    }
    proof {
        assert forall|a: int, b: int| !freq_at(s, a, b) by {
            if freq_at(s, a, b) {
                let (p, u) = choose|p: int, u: int| #[trigger]
                    freq_parts(s, a, p, u) && b == u + 3;
                lemma_continues(s, stage, i as int, start as int, decimals as int, a, p, u);
            }
        }
    }
    None
}

/// A frequency before which none starts is the first one.
proof fn lemma_found(s: Seq<u8>, start: int, end: int)
    requires
        none_before(s, start),
        freq_at(s, start, end),
    ensures
        first_freq_at(s, start, end),
        first_freq(s) == Some(s.subrange(start, end)),
{
    assert forall|a: int, b: int| #[trigger] freq_at(s, a, b) implies start <= a by {
        let (p, u) = choose|p: int, u: int| #[trigger] freq_parts(s, a, p, u) && b == u + 3;
        assert(start <= a);
    }
    assert(first_freq_at(s, start, end));
    let (c, d) = choose|a: int, b: int| first_freq_at(s, a, b);
    lemma_first_freq_unique(s, start, end, c, d);
}

/// A text that holds a frequency has a first one.
pub proof fn lemma_first_exists(s: Seq<u8>) -> (r: (int, int))
    requires
        exists|a: int, b: int| freq_at(s, a, b),
    ensures
        first_freq_at(s, r.0, r.1),
        first_freq(s) == Some(s.subrange(r.0, r.1)),
{
    let (a, b) = choose|a: int, b: int| freq_at(s, a, b);
    let (c, d) = lemma_first_at_or_before(s, a, b);
    choose|a: int, b: int| first_freq_at(s, a, b)
}

/// Where a frequency starts at `a`, the first one starts there or before.
proof fn lemma_first_at_or_before(s: Seq<u8>, a: int, b: int) -> (r: (int, int))
    requires
        freq_at(s, a, b),
    ensures
        first_freq_at(s, r.0, r.1),
    decreases a,
{
    if exists|c: int, d: int| #[trigger] freq_at(s, c, d) && c < a {
        let (c, d) = choose|c: int, d: int| #[trigger] freq_at(s, c, d) && c < a;
        lemma_first_at_or_before(s, c, d)
    } else {
        (a, b)
    }
}

/// There is only one first frequency: two that are first have the same start and the same end.
pub proof fn lemma_first_freq_unique(s: Seq<u8>, a: int, b: int, c: int, d: int)
    requires
        first_freq_at(s, a, b),
        first_freq_at(s, c, d),
    ensures
        a == c,
        b == d,
{
    let (p, u) = choose|p: int, u: int| #[trigger] freq_parts(s, a, p, u) && b == u + 3;
    let (q, v) = choose|q: int, v: int| #[trigger] freq_parts(s, c, q, v) && d == v + 3;
    assert(a == c);
    if p < q {
        assert(is_digit(s[p]));
    }
    if q < p {
        assert(is_digit(s[q]));
    }
    if u < v {
        assert(is_digit(s[u]));
    }
    if v < u {
        assert(is_digit(s[v]));
    }
}

} // verus!
