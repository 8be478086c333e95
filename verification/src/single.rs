//! IEEE 754 binary32 numbers between zero and one, carried as their bit
//! patterns.

use vstd::arithmetic::div_mod;
use vstd::arithmetic::mul;
use vstd::arithmetic::power2;
use vstd::prelude::*;

use crate::double;
use crate::double::Double;
use crate::rounding;
use crate::rounding::{power_of_two, round_half_even};

verus! {

/// A binary32 number, by its bit pattern.
#[derive(Debug, Clone, Copy, PartialEq, Eq, Structural)]
pub struct Single {
    pub bits: u32,
}

impl Single {
    /// The sign bit.
    pub open spec fn sign_bit(self) -> bool {
        self.bits >= 0x8000_0000
    }

    /// The eight bits of the biased exponent.
    pub open spec fn exponent_field(self) -> int {
        (self.bits as int / 0x80_0000) % 256
    }

    /// The 23 bits of the fraction.
    pub open spec fn fraction_field(self) -> int {
        self.bits as int % 0x80_0000
    }

    /// The number without its sign, as a multiple of the smallest positive one,
    /// two to the power of -149.
    pub open spec fn magnitude(self) -> int {
        if self.exponent_field() == 0 {
            self.fraction_field()
        } else {
            (0x80_0000 + self.fraction_field()) * power2::pow2((self.exponent_field() - 1) as nat)
        }
    }

    /// Between zero and one, both ends among them.
    pub open spec fn in_unit_range(self) -> bool {
        &&& self.exponent_field() < 255
        &&& 0 <= self.magnitude() <= power2::pow2(149)
        &&& self.sign_bit() ==> self.magnitude() == 0
    }
}

/// How far binary32 numbers lie apart where a binary64 number lies, as a
/// multiple of the smallest positive binary64 number.
pub open spec fn single_spacing(d: Double) -> int {
    if d.exponent_field() >= 897 {
        power2::pow2((29 + d.scale()) as nat) as int
    } else {
        power2::pow2(925) as int
    }
}

/// Whether `res` is the binary32 number nearest to `d`, and the even one of two
/// that are as near, with the sign of `d`.
pub open spec fn is_nearest_single(d: Double, res: Single) -> bool {
    &&& res.exponent_field() < 255
    &&& res.sign_bit() == d.sign_bit()
    &&& res.magnitude() * power2::pow2(925) == rounding::nearest_even(
        d.magnitude(),
        single_spacing(d),
    ) * single_spacing(d)
}

/// The nearest binary32 number of a number between zero and one.
pub fn nearest_single(d: Double) -> (res: Single)
    requires
        d@.in_unit_range(),
    ensures
        is_nearest_single(d, res),
        res.in_unit_range(),
{
    let exponent_field: u64 = (d.bits / 0x10_0000_0000_0000) % 2048;
    let fraction: u64 = d.bits % 0x10_0000_0000_0000;
    let significand: u64 = if exponent_field == 0 {
        fraction
    } else {
        0x10_0000_0000_0000 + fraction
    };
    let sign: u32 = if d.bits >= 0x8000_0000_0000_0000 {
        0x8000_0000
    } else {
        0
    };
    proof {
        power2::lemma2_to64();
        power2::lemma_pow2_pos(925);
        lemma_unit_exponent(d);
    }
    if exponent_field >= 897 {
        let rounded: u128 = round_half_even(significand as u128, 0x2000_0000);
        let magnitude: u32 = (exponent_field as u32 - 897) * 0x80_0000 + rounded as u32;
        let res = Single { bits: sign + magnitude };
        proof {
            lemma_normal(d, res, rounded as int);
            lemma_nearest_in_unit_range(d, res);
        }
        res
    } else {
        let shift: u32 = if exponent_field == 0 {
            925
        } else {
            926 - exponent_field as u32
        };
        let ghost power = power2::pow2(shift as nat) as int;
        let ghost factor = power2::pow2(d.scale()) as int;
        proof {
            power2::lemma_pow2_pos(shift as nat);
            power2::lemma_pow2_pos(d.scale());
            power2::lemma_pow2_adds(shift as nat, d.scale());
            rounding::lemma_nearest_even_cancels(significand as int, power, factor);
            assert(single_spacing(d) == power * factor);
        }
        let rounded: u32 = if shift > 64 {
            proof {
                power2::lemma_pow2_strictly_increases(64, shift as nat);
                div_mod::lemma_small_mod(significand as nat, power as nat);
                div_mod::lemma_basic_div(significand as int, power);
            }
            0
        } else {
            let unit: u128 = power_of_two(shift);
            let nearest: u128 = round_half_even(significand as u128, unit);
            proof {
                if shift > 30 {
                    power2::lemma_pow2_strictly_increases(30, shift as nat);
                }
                assert(significand as int / unit as int <= 0x80_0000 - 1) by (nonlinear_arith)
                    requires
                        significand < 0x20_0000_0000_0000,
                        unit >= 0x4000_0000,
                ;
            }
            nearest as u32
        };
        let res = Single { bits: sign + rounded };
        proof {
            assert(res.magnitude() == rounded);
            lemma_nearest_in_unit_range(d, res);
        }
        res
    }
}

/// Numbers up to one have small exponents.
proof fn lemma_unit_exponent(d: Double)
    requires
        d@.in_unit_range(),
    ensures
        d.exponent_field() <= 1023,
        d.exponent_field() == 1023 ==> d.fraction_field() == 0,
        d.sign_bit() ==> d.bits == 0x8000_0000_0000_0000,
{
    let unit = Double { bits: 0x3ff0_0000_0000_0000 };
    double::lemma_one();
    double::lemma_magnitude_sign(d);
    if unit.bits < d.bits < 0x7ff0_0000_0000_0000 {
        double::lemma_magnitudes_are_ordered(unit, d);
    }
}

/// The pattern of a number that is not below the smallest normal one.
proof fn lemma_normal(d: Double, res: Single, rounded: int)
    requires
        897 <= d.exponent_field() <= 1023,
        !d.sign_bit(),
        rounded == rounding::nearest_even(d.significand(), 0x2000_0000),
        0x80_0000 <= rounded <= 0x100_0000,
        res.bits == (d.exponent_field() - 897) * 0x80_0000 + rounded,
    ensures
        is_nearest_single(d, res),
{
    let e = d.exponent_field();
    let factor = power2::pow2(d.scale()) as int;
    power2::lemma2_to64();
    power2::lemma_pow2_pos(d.scale());
    power2::lemma_pow2_adds(29, d.scale());
    rounding::lemma_nearest_even_cancels(d.significand(), 0x2000_0000, factor);
    assert(single_spacing(d) == 0x2000_0000 * factor);
    power2::lemma_pow2_adds((e - 897) as nat, 925);
    let low = power2::pow2((e - 897) as nat) as int;
    assert(low * power2::pow2(925) == single_spacing(d));
    if rounded == 0x100_0000 {
        power2::lemma_pow2_unfold((e - 896) as nat);
        assert(res.exponent_field() == e - 895);
        assert(res.fraction_field() == 0);
        assert(res.magnitude() == 0x80_0000 * power2::pow2((e - 896) as nat));
        assert(res.magnitude() == 0x100_0000 * low);
    } else {
        assert(res.exponent_field() == e - 896);
        assert(res.fraction_field() == rounded - 0x80_0000);
        assert(res.magnitude() == rounded * low);
    }
    mul::lemma_mul_is_associative(rounded, low, power2::pow2(925) as int);
}

/// Rounding does not lead beyond a multiple.
pub proof fn lemma_nearest_even_bound(n: int, unit: int, k: int)
    requires
        0 <= n <= k * unit,
        unit > 0,
    ensures
        0 <= rounding::nearest_even(n, unit) <= k,
{
    div_mod::lemma_fundamental_div_mod(n, unit);
    div_mod::lemma_div_pos_is_pos(n, unit);
    let (quotient, rest) = (n / unit, n % unit);
    assert(quotient <= k && (quotient == k ==> rest == 0)) by (nonlinear_arith)
        requires
            unit * quotient + rest <= k * unit,
            0 <= rest < unit,
    ;
}

/// What is nearest to a number between zero and one is between zero and one.
proof fn lemma_nearest_in_unit_range(d: Double, res: Single)
    requires
        d@.in_unit_range(),
        is_nearest_single(d, res),
    ensures
        res.in_unit_range(),
{
    lemma_unit_exponent(d);
    double::lemma_magnitude_sign(d);
    power2::lemma2_to64();
    let spacing = single_spacing(d);
    let step: nat = if d.exponent_field() >= 897 {
        (29 + d.scale()) as nat
    } else {
        925
    };
    assert(spacing == power2::pow2(step));
    power2::lemma_pow2_pos(step);
    power2::lemma_pow2_adds((1074 - step) as nat, step);
    let count = power2::pow2((1074 - step) as nat) as int;
    lemma_nearest_even_bound(d.magnitude(), spacing, count);
    let rounded = rounding::nearest_even(d.magnitude(), spacing);
    power2::lemma_pow2_adds(149, 925);
    power2::lemma_pow2_pos(925);
    assert(0 <= rounded * spacing <= count * spacing) by (nonlinear_arith)
        requires
            0 <= rounded <= count,
            spacing > 0,
    ;
    assert(0 <= res.magnitude() <= power2::pow2(149)) by (nonlinear_arith)
        requires
            0 <= res.magnitude() * power2::pow2(925) <= power2::pow2(149) * power2::pow2(925),
            power2::pow2(925) > 0,
    ;
    if d.sign_bit() {
        lemma_nearest_even_bound(d.magnitude(), spacing, 0);
        assert(res.magnitude() == 0) by (nonlinear_arith)
            requires
                res.magnitude() * power2::pow2(925) == rounded * spacing,
                rounded == 0,
                power2::pow2(925) > 0,
        ;
    }
}

} // verus!
