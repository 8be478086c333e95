//! Integer quotients, rounded as binary floating-point arithmetic rounds them.

use vstd::arithmetic::div_mod;
use vstd::arithmetic::power2;
use vstd::prelude::*;

verus! {

/// `n / unit` as an integer, rounded to the nearest one and to the even one of
/// two that are as near.
pub open spec fn nearest_even(n: int, unit: int) -> int {
    let quotient = n / unit;
    let twice = 2 * (n % unit);
    if twice < unit || (twice == unit && quotient % 2 == 0) {
        quotient
    } else {
        quotient + 1
    }
}

/// A multiple is divided without rounding.
pub proof fn lemma_nearest_even_exact(q: int, unit: int)
    requires
        unit > 0,
    ensures
        nearest_even(q * unit, unit) == q,
{
    div_mod::lemma_div_multiples_vanish(q, unit);
    div_mod::lemma_mod_multiples_basic(q, unit);
    assert(q * unit == unit * q) by (nonlinear_arith);
}

/// A common factor does not change how a quotient is rounded.
pub proof fn lemma_nearest_even_cancels(n: int, unit: int, factor: int)
    requires
        n >= 0,
        unit > 0,
        factor > 0,
    ensures
        nearest_even(n * factor, unit * factor) == nearest_even(n, unit),
{
    assert(n * factor == factor * n) by (nonlinear_arith);
    assert(unit * factor == factor * unit) by (nonlinear_arith);
    div_mod::lemma_div_multiples_vanish_quotient(factor, n, unit);
    div_mod::lemma_truncate_middle(n, factor, unit);
    let rest = n % unit;
    assert(2 * (factor * rest) < factor * unit <==> 2 * rest < unit) by (nonlinear_arith)
        requires
            factor > 0,
    ;
    assert(2 * (factor * rest) == factor * unit <==> 2 * rest == unit) by (nonlinear_arith)
        requires
            factor > 0,
    ;
}

/// Two to the given power.
pub fn power_of_two(exponent: u32) -> (res: u128)
    requires
        exponent <= 64,
    ensures
        res == power2::pow2(exponent as nat),
        0 < res <= 0x1_0000_0000_0000_0000,
{
    let mut res: u128 = 1;
    let mut i: u32 = 0;
    proof {
        power2::lemma2_to64();
    }
    while i < exponent
        invariant
            i <= exponent <= 64,
            res == power2::pow2(i as nat),
            0 < res <= 0x1_0000_0000_0000_0000,
            power2::pow2(64) == 0x1_0000_0000_0000_0000,
        decreases exponent - i,
    {
        proof {
            power2::lemma_pow2_unfold((i + 1) as nat);
            if i + 1 < 64 {
                power2::lemma_pow2_strictly_increases((i + 1) as nat, 64);
            }
        }
        res = res * 2;
        i += 1;
    }
    res
}

/// `n / unit`, rounded to the nearest integer and to the even one of two.
pub fn round_half_even(n: u128, unit: u128) -> (res: u128)
    requires
        0 < unit <= 0x1_0000_0000_0000_0000,
    ensures
        res == nearest_even(n as int, unit as int),
        n / unit <= res <= n / unit + 1,
{
    let quotient: u128 = n / unit;
    let twice: u128 = 2 * (n % unit);
    proof {
        assert(unit > 1 ==> quotient < n || n == 0) by (nonlinear_arith)
            requires
                quotient == n / unit,
                unit > 0,
        ;
        assert(unit == 1 ==> n % unit == 0);
    }
    if twice < unit || (twice == unit && quotient % 2 == 0) {
        quotient
    } else {
        quotient + 1
    }
}

} // verus!
