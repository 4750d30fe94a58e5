//! Binary floating-point numbers by bit pattern, as far as comparing them goes.

use vstd::arithmetic::power2::{lemma_pow2_pos, lemma_pow2_strictly_increases, lemma_pow2_unfold, pow2};
use vstd::prelude::*;

verus! {

/// A single-precision number: one sign bit, eight exponent bits, 23 fraction bits.
#[derive(Clone, Copy, Debug, PartialEq, Eq, Structural)]
pub struct Single {
    pub bits: u32,
}

/// A double-precision number: one sign bit, eleven exponent bits, 52 fraction bits.
#[derive(Clone, Copy, Debug, PartialEq, Eq, Structural)]
pub struct Double {
    pub bits: u64,
}

/// What a bit pattern without its sign stands for, counted in the smallest number that the format
/// can hold. `fractions` is how many fractions there are to an exponent.
pub open spec fn magnitude(pattern: int, fractions: int) -> int {
    let exponent = pattern / fractions;
    let fraction = pattern % fractions;
    if exponent == 0 {
        fraction
    } else {
        (fraction + fractions) * pow2((exponent - 1) as nat)
    }
}

/// Patterns are ordered like what they stand for.
proof fn lemma_magnitude_increases(a: int, b: int, fractions: int)
    requires
        0 <= a < b,
        fractions > 0,
    ensures
        0 <= magnitude(a, fractions) < magnitude(b, fractions),
{
    let (ea, fa) = (a / fractions, a % fractions);
    let (eb, fb) = (b / fractions, b % fractions);
    assert(a == ea * fractions + fa && b == eb * fractions + fb && 0 <= fa < fractions && 0 <= fb
        < fractions && 0 <= ea && 0 <= eb) by (nonlinear_arith)
        requires
            0 <= a < b,
            fractions > 0,
            ea == a / fractions,
            fa == a % fractions,
            eb == b / fractions,
            fb == b % fractions,
    ;
    assert(ea <= eb && (ea == eb ==> fa < fb)) by (nonlinear_arith)
        requires
            a < b,
            a == ea * fractions + fa,
            b == eb * fractions + fb,
            0 <= fa < fractions,
            0 <= fb < fractions,
    ;
    if ea > 0 {
        let pa = pow2((ea - 1) as nat) as int;
        lemma_pow2_pos((ea - 1) as nat);
        if ea == eb {
            assert(0 <= (fa + fractions) * pa < (fb + fractions) * pa) by (nonlinear_arith)
                requires
                    0 <= fa < fb,
                    fractions > 0,
                    pa > 0,
            ;
        } else {
            let pb = pow2((eb - 1) as nat) as int;
            lemma_pow2_unfold(ea as nat);
            if ea < eb - 1 {
                lemma_pow2_strictly_increases(ea as nat, (eb - 1) as nat);
            }
            assert(0 <= (fa + fractions) * pa < (fb + fractions) * pb) by (nonlinear_arith)
                requires
                    0 <= fa < fractions,
                    0 <= fb,
                    pa > 0,
                    pb >= 2 * pa,
            ;
        }
    } else if eb > 0 {
        let pb = pow2((eb - 1) as nat) as int;
        lemma_pow2_pos((eb - 1) as nat);
        assert(fractions <= (fb + fractions) * pb) by (nonlinear_arith)
            requires
                0 <= fb,
                fractions > 0,
                pb >= 1,
        ;
    }
}

/// No pattern stands for less than nothing, and only the zero pattern stands for nothing.
proof fn lemma_magnitude_zero(a: int, fractions: int)
    requires
        0 <= a,
        fractions > 0,
    ensures
        magnitude(a, fractions) >= 0,
        magnitude(a, fractions) == 0 <==> a == 0,
{
    assert(0int / fractions == 0 && 0int % fractions == 0) by (nonlinear_arith)
        requires
            fractions > 0,
    ;
    if a > 0 {
        lemma_magnitude_increases(0, a, fractions);
    }
}

/// Signed patterns compare like the numbers they stand for.
proof fn lemma_signed_order(a: int, b: int, fractions: int)
    requires
        0 <= a,
        0 <= b,
        fractions > 0,
    ensures
        magnitude(a, fractions) > magnitude(b, fractions) <==> a > b,
        -magnitude(a, fractions) > -magnitude(b, fractions) <==> a < b,
        magnitude(a, fractions) > -magnitude(b, fractions) <==> (a > 0 || b > 0),
        -magnitude(a, fractions) <= magnitude(b, fractions),
{
    lemma_magnitude_zero(a, fractions);
    lemma_magnitude_zero(b, fractions);
    if a < b {
        lemma_magnitude_increases(a, b, fractions);
    } else if b < a {
        lemma_magnitude_increases(b, a, fractions);
    }
}

impl Single {
    /// Whether the pattern stands for no number at all.
    pub open spec fn is_nan(self) -> bool {
        self.bits as int % 0x8000_0000 > 0x7f80_0000
    }

    /// The number, counted in the smallest positive one. An infinity counts as the next number
    /// after the largest finite one.
    pub open spec fn value(self) -> int {
        let size = magnitude(self.bits as int % 0x8000_0000, 0x80_0000);
        if self.bits >= 0x8000_0000 {
            -size
        } else {
            size
        }
    }

    /// Whether the number is greater than another.
    pub open spec fn above(self, other: Single) -> bool {
        !self.is_nan() && !other.is_nan() && self.value() > other.value()
    }

    /// Whether the number is greater than another.
    #[must_use]
    pub fn exceeds(self, other: Single) -> (greater: bool)
        ensures
            greater == self.above(other),
    {
        let a: u32 = self.bits % 0x8000_0000;
        let b: u32 = other.bits % 0x8000_0000;
        proof {
            lemma_signed_order(a as int, b as int, 0x80_0000);
        }
        if a > 0x7f80_0000 || b > 0x7f80_0000 {
            false
        } else if self.bits < 0x8000_0000 {
            if other.bits < 0x8000_0000 {
                a > b
            } else {
                a > 0 || b > 0
            }
        } else {
            other.bits >= 0x8000_0000 && a < b
        }
    }
}

impl Double {
    /// Whether the pattern stands for no number at all.
    pub open spec fn is_nan(self) -> bool {
        self.bits as int % 0x8000_0000_0000_0000 > 0x7ff0_0000_0000_0000
    }

    /// The number, counted in the smallest positive one. An infinity counts as the next number
    /// after the largest finite one.
    pub open spec fn value(self) -> int {
        let size = magnitude(self.bits as int % 0x8000_0000_0000_0000, 0x10_0000_0000_0000);
        if self.bits >= 0x8000_0000_0000_0000 {
            -size
        } else {
            size
        }
    }

    /// Whether the number is greater than another.
    pub open spec fn above(self, other: Double) -> bool {
        !self.is_nan() && !other.is_nan() && self.value() > other.value()
    }

    /// Whether the number is another or greater.
    pub open spec fn at_least(self, other: Double) -> bool {
        !self.is_nan() && !other.is_nan() && self.value() >= other.value()
    }

    /// Whether the number is greater than another.
    #[must_use]
    pub fn exceeds(self, other: Double) -> (greater: bool)
        ensures
            greater == self.above(other),
    {
        let a: u64 = self.bits % 0x8000_0000_0000_0000;
        let b: u64 = other.bits % 0x8000_0000_0000_0000;
        proof {
            lemma_signed_order(a as int, b as int, 0x10_0000_0000_0000);
        }
        if a > 0x7ff0_0000_0000_0000 || b > 0x7ff0_0000_0000_0000 {
            false
        } else if self.bits < 0x8000_0000_0000_0000 {
            if other.bits < 0x8000_0000_0000_0000 {
                a > b
            } else {
                a > 0 || b > 0
            }
        } else {
            other.bits >= 0x8000_0000_0000_0000 && a < b
        }
    }

    /// The lesser of two numbers, or the one that is a number.
    pub open spec fn lesser(self, other: Double) -> Double {
        if self.is_nan() || (!other.is_nan() && self.value() > other.value()) {
            other
        } else {
            self
        }
    }

    /// The lesser of two numbers, or the one that is a number.
    #[must_use]
    pub fn min_of(self, other: Double) -> (least: Double)
        ensures
            least == self.lesser(other),
    {
        if self.bits % 0x8000_0000_0000_0000 > 0x7ff0_0000_0000_0000 || self.exceeds(other) {
            other
        } else {
            self
        }
    }

    /// Whether the number is another or greater.
    #[must_use]
    pub fn reaches(self, other: Double) -> (reached: bool)
        ensures
            reached == self.at_least(other),
    {
        let a: u64 = self.bits % 0x8000_0000_0000_0000;
        let b: u64 = other.bits % 0x8000_0000_0000_0000;
        !(a > 0x7ff0_0000_0000_0000 || b > 0x7ff0_0000_0000_0000 || other.exceeds(self))
    }
}

/// The lesser of two numbers is one of them, and neither is less.
pub proof fn law_lesser_is_least(a: Double, b: Double)
    requires
        !a.is_nan(),
        !b.is_nan(),
    ensures
        a.lesser(b) == a || a.lesser(b) == b,
        a.at_least(a.lesser(b)),
        b.at_least(a.lesser(b)),
{
}

/// Patterns are ordered by sign and size: of two that are positive the larger is greater, of two
/// that are negative the smaller, anything positive is greater than anything negative, zeros are
/// equal, and what stands for no number is neither greater nor less than anything.
pub proof fn law_single_patterns_are_ordered(a: Single, b: Single)
    ensures
        ({
            let sign = 0x8000_0000int;
            let (x, y) = (a.bits as int, b.bits as int);
            let numbers = x % sign <= 0x7f80_0000 && y % sign <= 0x7f80_0000;
            &&& !numbers ==> !a.above(b)
            &&& numbers && x < sign && y < sign ==> (a.above(b) <==> x > y)
            &&& numbers && x >= sign && y >= sign ==> (a.above(b) <==> x < y)
            &&& numbers && x < sign && y >= sign ==> (a.above(b) <==> x != 0 || y != sign)
            &&& numbers && x >= sign && y < sign ==> !a.above(b)
        }),
{
    lemma_signed_order(a.bits as int % 0x8000_0000, b.bits as int % 0x8000_0000, 0x80_0000);
}

/// Patterns are ordered by sign and size: of two that are positive the larger is greater, of two
/// that are negative the smaller, anything positive is greater than anything negative, zeros are
/// equal, and what stands for no number is neither greater nor less than anything.
pub proof fn law_double_patterns_are_ordered(a: Double, b: Double)
    ensures
        ({
            let sign = 0x8000_0000_0000_0000int;
            let (x, y) = (a.bits as int, b.bits as int);
            let numbers = x % sign <= 0x7ff0_0000_0000_0000 && y % sign <= 0x7ff0_0000_0000_0000;
            &&& !numbers ==> !a.above(b) && !a.at_least(b)
            &&& numbers ==> (a.at_least(b) <==> !b.above(a))
            &&& numbers && x < sign && y < sign ==> (a.above(b) <==> x > y)
            &&& numbers && x >= sign && y >= sign ==> (a.above(b) <==> x < y)
            &&& numbers && x < sign && y >= sign ==> (a.above(b) <==> x != 0 || y != sign)
            &&& numbers && x >= sign && y < sign ==> !a.above(b)
        }),
{
    lemma_signed_order(
        a.bits as int % 0x8000_0000_0000_0000,
        b.bits as int % 0x8000_0000_0000_0000,
        0x10_0000_0000_0000,
    );
}

proof fn lemma_magnitude_doubles(pattern: int, fractions: int)
    requires
        0 <= pattern,
        fractions > 0,
    ensures
        pattern < 2 * fractions ==> magnitude(pattern, fractions) == pattern,
        pattern >= fractions ==> magnitude(pattern + fractions, fractions) == 2 * magnitude(
            pattern,
            fractions,
        ),
{
    let (e, f) = (pattern / fractions, pattern % fractions);
    vstd::arithmetic::div_mod::lemma_fundamental_div_mod(pattern, fractions);
    assert(e >= 0 && (pattern < 2 * fractions ==> e < 2) && (pattern >= fractions ==> e >= 1))
        by (nonlinear_arith)
        requires
            pattern == fractions * e + f,
            0 <= f < fractions,
            0 <= pattern,
    ;
    vstd::arithmetic::power2::lemma2_to64();
    if pattern < 2 * fractions && e == 1 {
        assert((f + fractions) * 1 == f + fractions);
        assert(fractions * 1 == fractions);
    }
    if pattern < 2 * fractions && e == 0 {
        assert(fractions * 0 == 0);
    }
    if pattern >= fractions {
        assert(pattern + fractions == fractions * (e + 1) + f) by (nonlinear_arith)
            requires
                pattern == fractions * e + f,
        ;
        vstd::arithmetic::div_mod::lemma_fundamental_div_mod_converse(
            pattern + fractions,
            fractions,
            e + 1,
            f,
        );
        lemma_pow2_unfold(e as nat);
        let p = pow2((e - 1) as nat) as int;
        assert((f + fractions) * (2 * p) == 2 * ((f + fractions) * p)) by (nonlinear_arith);
    }
}

/// Small patterns count up by one, one more in the exponent doubles a number, and the sign turns
/// it round.
pub proof fn law_single_exponents_double(bits: u32)
    requires
        bits < 0x8000_0000,
    ensures
        bits < 0x100_0000 ==> (Single { bits }).value() == bits,
        0x80_0000 <= bits < 0x7f80_0000 ==> (Single { bits: (bits + 0x80_0000) as u32 }).value() == 2
            * (Single { bits }).value(),
        (Single { bits: (bits + 0x8000_0000) as u32 }).value() == -(Single { bits }).value(),
{
    lemma_magnitude_doubles(bits as int, 0x80_0000);
}

/// Small patterns count up by one, one more in the exponent doubles a number, and the sign turns
/// it round.
pub proof fn law_double_exponents_double(bits: u64)
    requires
        bits < 0x8000_0000_0000_0000,
    ensures
        bits < 0x20_0000_0000_0000 ==> (Double { bits }).value() == bits,
        0x10_0000_0000_0000 <= bits < 0x7ff0_0000_0000_0000 ==> (Double {
            bits: (bits + 0x10_0000_0000_0000) as u64,
        }).value() == 2 * (Double { bits }).value(),
        (Double { bits: (bits + 0x8000_0000_0000_0000) as u64 }).value() == -(Double {
            bits,
        }).value(),
{
    lemma_magnitude_doubles(bits as int, 0x10_0000_0000_0000);
}

/// The lesser of two is a number if either is, and then the one that the other is not below.
pub proof fn law_lesser_prefers_numbers(a: Double, b: Double)
    ensures
        a.lesser(b) == a || a.lesser(b) == b,
        a.lesser(b).is_nan() <==> a.is_nan() && b.is_nan(),
        !a.above(a.lesser(b)) || a.lesser(b) == b,
        !a.lesser(b).above(a),
        !a.lesser(b).above(b),
{
}

/// What a pattern with exponent `e` and fraction `f` stands for.
pub proof fn lemma_single_value(e: int, f: int)
    requires
        1 <= e < 0xff,
        0 <= f < 0x80_0000,
    ensures
        (Single { bits: (e * 0x80_0000 + f) as u32 }).value() == (f + 0x80_0000) * pow2(
            (e - 1) as nat,
        ),
{
    let pattern = e * 0x80_0000 + f;
    assert(pattern / 0x80_0000 == e && pattern % 0x80_0000 == f);
}

/// What a pattern with exponent `e` and fraction `f` stands for.
pub proof fn lemma_double_value(e: int, f: int)
    requires
        1 <= e < 0x7ff,
        0 <= f < 0x10_0000_0000_0000,
    ensures
        (Double { bits: (e * 0x10_0000_0000_0000 + f) as u64 }).value() == (f
            + 0x10_0000_0000_0000) * pow2((e - 1) as nat),
{
    let pattern = e * 0x10_0000_0000_0000 + f;
    assert(pattern / 0x10_0000_0000_0000 == e && pattern % 0x10_0000_0000_0000 == f);
}

} // verus!
