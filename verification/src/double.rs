//! IEEE 754 binary64 numbers, carried as their bit patterns and compared by
//! the numbers that the patterns stand for.

use vstd::arithmetic::power2;
use vstd::prelude::*;

verus! {

/// A binary64 number, by its bit pattern.
#[derive(Debug, Clone, Copy, PartialEq, Eq, Structural)]
pub struct Double {
    pub bits: u64,
}

/// What a bit pattern stands for. A finite number is given as a multiple of
/// the smallest positive one, two to the power of -1074.
pub enum DoubleModel {
    NaN,
    Infinite { negative: bool },
    Finite(int),
}

/// The finite number one.
pub open spec fn one() -> int {
    power2::pow2(1074) as int
}

impl DoubleModel {
    /// `self >= 0.0`
    pub open spec fn at_least_zero(self) -> bool {
        match self {
            DoubleModel::NaN => false,
            DoubleModel::Infinite { negative } => !negative,
            DoubleModel::Finite(n) => n >= 0,
        }
    }

    /// `self > 0.0`
    pub open spec fn above_zero(self) -> bool {
        match self {
            DoubleModel::NaN => false,
            DoubleModel::Infinite { negative } => !negative,
            DoubleModel::Finite(n) => n > 0,
        }
    }

    /// `self < 0.0`
    pub open spec fn below_zero(self) -> bool {
        match self {
            DoubleModel::NaN => false,
            DoubleModel::Infinite { negative } => negative,
            DoubleModel::Finite(n) => n < 0,
        }
    }

    /// `self > 1.0`
    pub open spec fn above_one(self) -> bool {
        match self {
            DoubleModel::NaN => false,
            DoubleModel::Infinite { negative } => !negative,
            DoubleModel::Finite(n) => n > one(),
        }
    }

    /// Finite and not below zero, as a point in time is.
    pub open spec fn is_time(self) -> bool {
        self is Finite && self.at_least_zero()
    }

    /// Between zero and one, both ends among them.
    pub open spec fn in_unit_range(self) -> bool {
        self matches DoubleModel::Finite(n) && 0 <= n <= one()
    }
}

impl Double {
    /// The sign bit.
    pub open spec fn sign_bit(self) -> bool {
        self.bits >= 0x8000_0000_0000_0000
    }

    /// The eleven bits of the biased exponent.
    pub open spec fn exponent_field(self) -> int {
        (self.bits as int / 0x10_0000_0000_0000) % 2048
    }

    /// The 52 bits of the fraction.
    pub open spec fn fraction_field(self) -> int {
        self.bits as int % 0x10_0000_0000_0000
    }

    /// The integer that the number is a power-of-two multiple of.
    pub open spec fn significand(self) -> int {
        if self.exponent_field() == 0 {
            self.fraction_field()
        } else {
            0x10_0000_0000_0000 + self.fraction_field()
        }
    }

    /// The power of two that the significand is multiplied with, relative to
    /// the smallest positive number.
    pub open spec fn scale(self) -> nat {
        if self.exponent_field() == 0 {
            0
        } else {
            (self.exponent_field() - 1) as nat
        }
    }

    /// The number without its sign.
    pub open spec fn magnitude(self) -> int {
        self.significand() * power2::pow2(self.scale())
    }

    /// The number, moved to zero from below and to one from above.
    pub open spec fn clamped(self) -> Double {
        if self@.below_zero() {
            Double { bits: 0 }
        } else if self@.above_one() {
            Double { bits: 0x3ff0_0000_0000_0000 }
        } else {
            self
        }
    }
}

impl View for Double {
    type V = DoubleModel;

    open spec fn view(&self) -> DoubleModel {
        if self.exponent_field() == 2047 {
            if self.fraction_field() == 0 {
                DoubleModel::Infinite { negative: self.sign_bit() }
            } else {
                DoubleModel::NaN
            }
        } else if self.sign_bit() {
            DoubleModel::Finite(-self.magnitude())
        } else {
            DoubleModel::Finite(self.magnitude())
        }
    }
}

// ----------------------------------------------------------------- lemmas

/// Patterns without a sign bit are ordered as the numbers they stand for.
pub proof fn lemma_magnitudes_are_ordered(a: Double, b: Double)
    requires
        a.bits < b.bits,
        b.bits < 0x7ff0_0000_0000_0000,
    ensures
        0 <= a.magnitude() < b.magnitude(),
{
    let unit = 0x10_0000_0000_0000int;
    power2::lemma_pow2_pos(a.scale());
    power2::lemma_pow2_pos(b.scale());
    let (pa, pb) = (power2::pow2(a.scale()) as int, power2::pow2(b.scale()) as int);
    let (sa, sb) = (a.significand(), b.significand());
    assert(0 <= sa * pa) by (nonlinear_arith)
        requires
            0 <= sa,
            0 < pa,
    ;
    if a.exponent_field() == b.exponent_field() {
        assert(sa * pa < sb * pb) by (nonlinear_arith)
            requires
                sa < sb,
                0 < pa,
                pa == pb,
        ;
    } else if a.exponent_field() == 0 {
        power2::lemma2_to64();
        assert(sa * pa < sb * pb) by (nonlinear_arith)
            requires
                0 <= sa < unit <= sb,
                pa == 1,
                1 <= pb,
        ;
    } else {
        power2::lemma_pow2_unfold((a.scale() + 1) as nat);
        if a.scale() + 1 < b.scale() {
            power2::lemma_pow2_strictly_increases((a.scale() + 1) as nat, b.scale());
        }
        assert(sa * pa < sb * pb) by (nonlinear_arith)
            requires
                0 <= sa < 2 * unit,
                unit <= sb,
                0 < pa,
                2 * pa <= pb,
                unit == 0x10_0000_0000_0000,
        ;
    }
}

/// The pattern of one.
pub proof fn lemma_one()
    ensures
        (Double { bits: 0x3ff0_0000_0000_0000 }).magnitude() == one(),
        (Double { bits: 0x3ff0_0000_0000_0000 })@ == DoubleModel::Finite(one()),
{
    power2::lemma_pow2_adds(52, 1022);
    power2::lemma2_to64_rest();
}

/// The sign of a number is that of its pattern, but for the two zeros.
pub proof fn lemma_magnitude_sign(d: Double)
    requires
        d.exponent_field() != 2047,
    ensures
        d.magnitude() >= 0,
        d.magnitude() == 0 <==> d.bits == 0 || d.bits == 0x8000_0000_0000_0000,
{
    power2::lemma_pow2_pos(d.scale());
    let p = power2::pow2(d.scale()) as int;
    let s = d.significand();
    assert(0 <= s * p && (s * p == 0 <==> s == 0)) by (nonlinear_arith)
        requires
            0 <= s,
            0 < p,
    ;
}

/// A number that was moved between zero and one is there, and stays what it was
/// where it was there before.
pub proof fn lemma_clamped(d: Double)
    requires
        d@ !is NaN,
    ensures
        d.clamped()@.in_unit_range(),
        d@.below_zero() ==> d.clamped()@ == DoubleModel::Finite(0),
        d@.above_one() ==> d.clamped()@ == DoubleModel::Finite(one()),
        d@.in_unit_range() ==> d.clamped() == d,
{
    lemma_one();
    lemma_magnitude_sign(Double { bits: 0 });
    power2::lemma_pow2_pos(1074);
    assert((Double { bits: 0 })@ == DoubleModel::Finite(0));
}

// ------------------------------------------------------------ executables

impl Double {
    /// Whether the number is finite.
    pub fn is_finite(self) -> (res: bool)
        ensures
            res == (self@ is Finite),
    {
        (self.bits / 0x10_0000_0000_0000) % 2048 != 2047
    }

    /// `self >= 0.0`
    pub fn at_least_zero(self) -> (res: bool)
        ensures
            res == self@.at_least_zero(),
    {
        proof {
            if self.exponent_field() != 2047 {
                lemma_magnitude_sign(self);
            }
        }
        self.bits <= 0x7ff0_0000_0000_0000 || self.bits == 0x8000_0000_0000_0000
    }

    /// `self > 0.0`
    pub fn above_zero(self) -> (res: bool)
        ensures
            res == self@.above_zero(),
    {
        proof {
            if self.exponent_field() != 2047 {
                lemma_magnitude_sign(self);
            }
        }
        self.bits != 0 && self.bits <= 0x7ff0_0000_0000_0000
    }

    /// `self < 0.0`
    pub fn below_zero(self) -> (res: bool)
        ensures
            res == self@.below_zero(),
    {
        proof {
            if self.exponent_field() != 2047 {
                lemma_magnitude_sign(self);
            }
        }
        self.bits > 0x8000_0000_0000_0000 && self.bits <= 0xfff0_0000_0000_0000
    }

    /// `self > 1.0`
    pub fn above_one(self) -> (res: bool)
        ensures
            res == self@.above_one(),
    {
        proof {
            lemma_one();
            power2::lemma_pow2_pos(1074);
            let unit = Double { bits: 0x3ff0_0000_0000_0000 };
            if self.exponent_field() != 2047 {
                lemma_magnitude_sign(self);
                if self.bits < unit.bits {
                    lemma_magnitudes_are_ordered(self, unit);
                } else if unit.bits < self.bits < 0x7ff0_0000_0000_0000 {
                    lemma_magnitudes_are_ordered(unit, self);
                }
            }
        }
        self.bits > 0x3ff0_0000_0000_0000 && self.bits <= 0x7ff0_0000_0000_0000
    }

    /// The number, moved to zero from below and to one from above.
    pub fn clamp_to_unit_range(self) -> (res: Double)
        ensures
            res == self.clamped(),
    {
        if self.below_zero() {
            Double { bits: 0 }
        } else if self.above_one() {
            Double { bits: 0x3ff0_0000_0000_0000 }
        } else {
            self
        }
    }
}

} // verus!
