//! Numbers as IEEE-754 binary64 bit patterns.
//!
//! The engine compares numbers and takes their integer part; it does no
//! arithmetic on them. Both are decided on the bit pattern: numbers that are
//! not NaN are ordered as the sign-and-magnitude integers that their patterns
//! spell, and the integer part is the significand shifted by the exponent.

use vstd::prelude::*;
use vstd::arithmetic::div_mod::{
    lemma_basic_div, lemma_div_by_multiple, lemma_div_is_ordered, lemma_div_is_ordered_by_denominator,
    lemma_div_multiples_vanish_quotient,
};
use vstd::arithmetic::power2::{
    lemma2_to64, lemma2_to64_rest, lemma_pow2_adds, lemma_pow2_pos, lemma_pow2_strictly_increases,
    lemma_pow2_unfold, pow2,
};
use vstd::arithmetic::mul::{lemma_mul_inequality, lemma_mul_strict_inequality};
use vstd::bits::lemma_u64_shr_is_div;

verus! {

/// The sign bit of a pattern.
pub const SIGN_BIT: u64 = 0x8000_0000_0000_0000;

/// The lowest bit of the exponent, which is also the bit that a normal
/// number's significand carries above its fraction.
pub const HIDDEN_BIT: u64 = 0x0010_0000_0000_0000;

/// The magnitude of infinity: every bit of the exponent, no bit of the
/// fraction. A greater magnitude is NaN.
pub const INFINITY_BITS: u64 = 0x7FF0_0000_0000_0000;

/// The exponent, as the pattern holds it, of the numbers from 1 up to 2.
pub const EXPONENT_BIAS: u64 = 1023;

/// The exponent, as the pattern holds it, from which a number is its
/// significand times a power of two that is a whole number.
pub const INTEGRAL_EXPONENT: u64 = 1075;

/// A 64-bit floating-point number, held as its IEEE-754 bit pattern: one sign
/// bit, eleven bits of biased exponent, fifty-two bits of fraction.
#[derive(Debug, Clone, Copy, PartialEq, Eq, Structural, Hash)]
pub struct Number {
    pub bits: u64,
}

impl Number {
    /// Whether the sign bit is set.
    pub open spec fn negative(self) -> bool {
        self.bits >= SIGN_BIT
    }

    /// The pattern without its sign bit.
    pub open spec fn magnitude(self) -> int {
        if self.bits >= SIGN_BIT {
            self.bits - SIGN_BIT
        } else {
            self.bits as int
        }
    }

    /// Whether the pattern is a NaN.
    pub open spec fn nan(self) -> bool {
        self.magnitude() > INFINITY_BITS
    }

    /// Whether the pattern is an infinity.
    pub open spec fn infinite(self) -> bool {
        self.magnitude() == INFINITY_BITS
    }

    /// The biased exponent.
    pub open spec fn exponent(self) -> int {
        self.magnitude() / (HIDDEN_BIT as int)
    }

    /// The fraction.
    pub open spec fn fraction(self) -> int {
        self.magnitude() % (HIDDEN_BIT as int)
    }

    /// The significand: the fraction, with the hidden bit above it unless the
    /// number is subnormal.
    pub open spec fn significand(self) -> int {
        if self.exponent() == 0 {
            self.fraction()
        } else {
            HIDDEN_BIT + self.fraction()
        }
    }

    /// The power of two by which the significand is scaled: a finite number's
    /// absolute value is `significand() * 2^scale()`.
    pub open spec fn scale(self) -> int {
        if self.exponent() == 0 {
            1 - INTEGRAL_EXPONENT
        } else {
            self.exponent() - INTEGRAL_EXPONENT
        }
    }

    /// The integer part of a finite number's absolute value.
    pub open spec fn whole_part(self) -> int {
        if self.scale() >= 0 {
            self.significand() * pow2(self.scale() as nat)
        } else {
            self.significand() / (pow2((-self.scale()) as nat) as int)
        }
    }

    /// A finite number's absolute value, counted in the smallest step
    /// between two numbers, which is `2^-1074`.
    pub open spec fn steps(self) -> int {
        self.significand() * pow2((self.scale() + 1074) as nat)
    }

    /// Whether the number is neither a NaN nor an infinity.
    pub open spec fn finite(self) -> bool {
        self.magnitude() < INFINITY_BITS
    }

    /// The place of a number that is not NaN in the order of all such
    /// numbers: its magnitude, counted downwards where the sign bit is set.
    /// The two zeros share a place.
    pub open spec fn rank(self) -> int {
        if self.negative() {
            -self.magnitude()
        } else {
            self.magnitude()
        }
    }

    /// `self < other` as floating-point numbers: false where either is NaN.
    pub open spec fn less_than(self, other: Number) -> bool {
        !self.nan() && !other.nan() && self.rank() < other.rank()
    }

    /// `self <= other` as floating-point numbers: false where either is NaN.
    pub open spec fn at_most(self, other: Number) -> bool {
        !self.nan() && !other.nan() && self.rank() <= other.rank()
    }

    /// `self > 0`.
    pub open spec fn positive(self) -> bool {
        !self.nan() && self.rank() > 0
    }

    /// `self >= 0`, which holds of both zeros.
    pub open spec fn non_negative(self) -> bool {
        !self.nan() && self.rank() >= 0
    }

    /// The number rounded down and brought into the range of `u32`: 0 for a
    /// NaN and for anything below 1, the largest `u32` for anything above it.
    pub open spec fn floor_u32(self) -> int {
        if self.nan() || self.negative() {
            0
        } else if self.infinite() || self.whole_part() > u32::MAX {
            u32::MAX as int
        } else {
            self.whole_part()
        }
    }

    /// The number with the given bit pattern.
    pub fn from_bits(bits: u64) -> (n: Number)
        ensures
            n.bits == bits,
    {
        Number { bits }
    }

    /// The bit pattern.
    pub fn to_bits(&self) -> (bits: u64)
        ensures
            bits == self.bits,
    {
        self.bits
    }

    /// The pattern without its sign bit.
    fn magnitude_bits(&self) -> (m: u64)
        ensures
            m == self.magnitude(),
    {
        if self.bits >= SIGN_BIT {
            self.bits - SIGN_BIT
        } else {
            self.bits
        }
    }

    /// Whether the number is a NaN.
    pub fn is_nan(&self) -> (b: bool)
        ensures
            b == self.nan(),
    {
        self.magnitude_bits() > INFINITY_BITS
    }

    /// Whether the number is greater than zero.
    pub fn is_positive(&self) -> (b: bool)
        ensures
            b == self.positive(),
    {
        let m: u64 = self.magnitude_bits();
        self.bits < SIGN_BIT && m != 0 && m <= INFINITY_BITS
    }

    /// Whether the number is zero or greater.
    pub fn is_non_negative(&self) -> (b: bool)
        ensures
            b == self.non_negative(),
    {
        let m: u64 = self.magnitude_bits();
        m == 0 || (self.bits < SIGN_BIT && m <= INFINITY_BITS)
    }

    /// Whether `self < other`.
    pub fn lt(&self, other: &Number) -> (b: bool)
        ensures
            b == self.less_than(*other),
    {
        let m: u64 = self.magnitude_bits();
        let n: u64 = other.magnitude_bits();
        if m > INFINITY_BITS || n > INFINITY_BITS {
            false
        } else if self.bits >= SIGN_BIT {
            if other.bits >= SIGN_BIT {
                n < m
            } else {
                m != 0 || n != 0
            }
        } else {
            other.bits < SIGN_BIT && m < n
        }
    }

    /// Whether `self <= other`.
    pub fn le(&self, other: &Number) -> (b: bool)
        ensures
            b == self.at_most(*other),
    {
        let m: u64 = self.magnitude_bits();
        let n: u64 = other.magnitude_bits();
        if m > INFINITY_BITS || n > INFINITY_BITS {
            false
        } else if self.bits >= SIGN_BIT {
            other.bits < SIGN_BIT || n <= m
        } else if other.bits >= SIGN_BIT {
            m == 0 && n == 0
        } else {
            m <= n
        }
    }

    /// The number rounded down, as a `u32`: what is out of that type's range
    /// goes to its nearest end, and a NaN to 0.
    pub fn floor_to_u32(&self) -> (r: u32)
        ensures
            r == self.floor_u32(),
    {
        let m: u64 = self.magnitude_bits();
        if self.bits >= SIGN_BIT || m > INFINITY_BITS {
            return 0;
        }
        let e: u64 = m / HIDDEN_BIT;
        let fraction: u64 = m % HIDDEN_BIT;
        if e < EXPONENT_BIAS {
            proof {
                self.lemma_whole_part_below_one();
            }
            return 0;
        }
        if e >= EXPONENT_BIAS + 32 {
            proof {
                if !self.infinite() {
                    self.lemma_whole_part_beyond_u32();
                }
            }
            return u32::MAX;
        }
        let significand: u64 = HIDDEN_BIT + fraction;
        let shift: u64 = INTEGRAL_EXPONENT - e;
        let whole: u64 = significand >> shift;
        proof {
            lemma_u64_shr_is_div(significand, shift);
            lemma2_to64();
            lemma_pow2_pos(shift as nat);
            if shift > 21 {
                lemma_pow2_strictly_increases(21, shift as nat);
            }
            lemma_div_is_ordered_by_denominator(
                significand as int,
                pow2(21) as int,
                pow2(shift as nat) as int,
            );
            assert(significand as int / 0x200000 <= 0xffff_ffff);
        }
        whole as u32
    }

    /// A number whose exponent is below that of 1 has no whole part.
    proof fn lemma_whole_part_below_one(self)
        requires
            self.exponent() < EXPONENT_BIAS,
            !self.nan(),
        ensures
            self.whole_part() == 0,
    {
        let down: nat = (-self.scale()) as nat;
        lemma2_to64_rest();
        if down > 53 {
            lemma_pow2_strictly_increases(53, down);
        }
        lemma_basic_div(self.significand(), pow2(down) as int);
    }

    /// A finite number whose exponent is 32 or more above that of 1 has a
    /// whole part that no `u32` holds.
    proof fn lemma_whole_part_beyond_u32(self)
        requires
            self.exponent() >= EXPONENT_BIAS + 32,
            !self.nan(),
            !self.infinite(),
        ensures
            self.whole_part() > u32::MAX,
    {
        let s: int = self.significand();
        assert(s >= HIDDEN_BIT);
        if self.scale() >= 0 {
            let p: int = pow2(self.scale() as nat) as int;
            lemma_pow2_pos(self.scale() as nat);
            assert(s * p >= s) by (nonlinear_arith)
                requires
                    s >= 0,
                    p >= 1,
            ;
        } else {
            let down: nat = (-self.scale()) as nat;
            lemma2_to64();
            lemma_pow2_pos(down);
            if down < 20 {
                lemma_pow2_strictly_increases(down, 20);
            }
            lemma_div_is_ordered_by_denominator(s, pow2(down) as int, pow2(20) as int);
            lemma_div_is_ordered(HIDDEN_BIT as int, s, pow2(20) as int);
            assert((HIDDEN_BIT as int) / 0x100000 == 0x1_0000_0000);
        }
    }
    /// A number from zero to four has a whole part from zero to four.
    pub proof fn lemma_floor_up_to_four(self)
        requires
            self.non_negative(),
            self.at_most(Number { bits: 0x4010_0000_0000_0000 }),
        ensures
            0 <= self.floor_u32() <= 4,
    {
        if !self.negative() {
            let e = self.exponent();
            assert(e <= 1025);
            if e < EXPONENT_BIAS {
                self.lemma_whole_part_below_one();
            } else {
                lemma2_to64_rest();
                if e == 1023 {
                    assert(self.whole_part() == self.significand() / 0x10_0000_0000_0000);
                } else if e == 1024 {
                    assert(self.whole_part() == self.significand() / 0x8_0000_0000_0000);
                } else {
                    assert(self.fraction() == 0);
                    assert(self.whole_part() == self.significand() / 0x4_0000_0000_0000);
                }
            }
        }
    }
    /// Of two finite numbers, the one of the greater magnitude has the
    /// greater absolute value: the order of the patterns is the order of the
    /// numbers.
    pub proof fn lemma_magnitude_orders_values(self, other: Number)
        requires
            self.finite(),
            other.finite(),
        ensures
            self.magnitude() < other.magnitude() <==> self.steps() < other.steps(),
            self.magnitude() == other.magnitude() <==> self.steps() == other.steps(),
    {
        if self.magnitude() < other.magnitude() {
            self.lemma_greater_magnitude_is_more_steps(other);
        } else if other.magnitude() < self.magnitude() {
            other.lemma_greater_magnitude_is_more_steps(self);
        }
    }

    /// Of two finite numbers, the one of the greater magnitude is more steps
    /// from zero.
    proof fn lemma_greater_magnitude_is_more_steps(self, other: Number)
        requires
            self.finite(),
            other.finite(),
            self.magnitude() < other.magnitude(),
        ensures
            self.steps() < other.steps(),
    {
        let ka: nat = (self.scale() + 1074) as nat;
        let kb: nat = (other.scale() + 1074) as nat;
        let pa: int = pow2(ka) as int;
        let pb: int = pow2(kb) as int;
        let sa: int = self.significand();
        let sb: int = other.significand();
        lemma_pow2_pos(ka);
        lemma_pow2_pos(kb);
        if self.exponent() == other.exponent() {
            lemma_mul_strict_inequality(sa, sb, pa);
        } else {
            assert(self.exponent() < other.exponent());
            assert(sb >= HIDDEN_BIT);
            lemma_mul_inequality(HIDDEN_BIT as int, sb, pb);
            if self.exponent() == 0 {
                lemma2_to64();
                assert(sa * pa == sa) by (nonlinear_arith)
                    requires
                        pa == 1,
                ;
                assert((HIDDEN_BIT as int) * pb >= HIDDEN_BIT) by (nonlinear_arith)
                    requires
                        pb >= 1,
                ;
            } else {
                lemma_pow2_unfold(ka + 1);
                if ka + 1 < kb {
                    lemma_pow2_strictly_increases(ka + 1, kb);
                }
                assert(sa <= 2 * HIDDEN_BIT - 1);
                assert(sa * pa < (HIDDEN_BIT as int) * pb) by (nonlinear_arith)
                    requires
                        0 <= sa <= 2 * HIDDEN_BIT - 1,
                        pa > 0,
                        2 * pa <= pb,
                ;
            }
        }
    }

    /// The whole part of a finite number is its absolute value, rounded
    /// down.
    pub proof fn lemma_whole_part_rounds_down(self)
        requires
            self.finite(),
        ensures
            self.whole_part() == self.steps() / (pow2(1074) as int),
    {
        let s: int = self.significand();
        let k: nat = (self.scale() + 1074) as nat;
        lemma_pow2_pos(k);
        lemma_pow2_pos(1074);
        if self.scale() >= 0 {
            let up: nat = self.scale() as nat;
            lemma_pow2_adds(up, 1074);
            lemma_pow2_pos(up);
            let whole: int = s * pow2(up);
            assert(whole >= 0) by (nonlinear_arith)
                requires
                    s >= 0,
                    pow2(up) > 0,
                    whole == s * pow2(up),
            ;
            assert(s * (pow2(up) * pow2(1074)) == whole * pow2(1074)) by (nonlinear_arith)
                requires
                    whole == s * pow2(up),
            ;
            lemma_div_by_multiple(whole, pow2(1074) as int);
        } else {
            let down: nat = (-self.scale()) as nat;
            lemma_pow2_adds(k, down);
            lemma_pow2_pos(down);
            lemma_div_multiples_vanish_quotient(pow2(k) as int, s, pow2(down) as int);
            assert(s * pow2(k) == pow2(k) * s) by (nonlinear_arith);
        }
    }

    /// Rounding down keeps the order of numbers: where one number is at most
    /// another, so is its integer part.
    pub proof fn lemma_floor_keeps_order(self, other: Number)
        requires
            self.at_most(other),
        ensures
            self.floor_u32() <= other.floor_u32(),
    {
        if self.negative() {
            other.lemma_whole_part_not_negative();
        } else if other.negative() {
            assert(self.magnitude() == 0 && other.magnitude() == 0);
            self.lemma_whole_part_below_one();
        } else if other.finite() {
            self.lemma_magnitude_orders_values(other);
            self.lemma_whole_part_rounds_down();
            other.lemma_whole_part_rounds_down();
            lemma_pow2_pos(1074);
            lemma_div_is_ordered(self.steps(), other.steps(), pow2(1074) as int);
        }
    }

    /// The integer part that `floor_u32` names is one that a `u32` holds.
    pub proof fn lemma_floor_in_range(self)
        ensures
            0 <= self.floor_u32() <= u32::MAX,
    {
        self.lemma_whole_part_not_negative();
    }

    /// The whole part of a number is not negative.
    proof fn lemma_whole_part_not_negative(self)
        ensures
            self.whole_part() >= 0,
    {
        let s: int = self.significand();
        if self.scale() >= 0 {
            let p: int = pow2(self.scale() as nat) as int;
            assert(s * p >= 0) by (nonlinear_arith)
                requires
                    s >= 0,
                    p >= 0,
            ;
        } else {
            let p: int = pow2((-self.scale()) as nat) as int;
            lemma_pow2_pos((-self.scale()) as nat);
            assert(s / p >= 0) by (nonlinear_arith)
                requires
                    s >= 0,
                    p > 0,
            ;
        }
    }
}

} // verus!
