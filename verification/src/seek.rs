//! Timeline positions: seconds as the caller gives them, and microseconds as
//! the adapter takes them.

use vstd::arithmetic::div_mod;
use vstd::arithmetic::mul;
use vstd::arithmetic::power2;
use vstd::prelude::*;

use crate::cache;
use crate::cache::AdapterCache;
use crate::double;
use crate::double::Double;
use crate::rounding;
use crate::rounding::{power_of_two, round_half_even};
use crate::transport::resolve_transport_send;

verus! {

// ----------------------------------------------------------------- models

/// How many bits `n` has beyond the 53 that a significand holds.
pub open spec fn excess_bits(n: nat) -> nat
    decreases n,
{
    if n < 0x20_0000_0000_0000 {
        0
    } else {
        1 + excess_bits(n / 2)
    }
}

/// `n`, rounded to 53 significant bits.
pub open spec fn round_to_significand(n: nat) -> int {
    let unit = power2::pow2(excess_bits(n)) as int;
    rounding::nearest_even(n as int, unit) * unit
}

/// The binary64 product of a position that is not negative and a million, as a
/// multiple of the smallest positive number. A product that is beyond the
/// finite numbers is given as if there were no end to them.
pub open spec fn scaled_position(position: Double) -> int {
    round_to_significand((position.significand() * 1_000_000) as nat) * power2::pow2(
        position.scale(),
    )
}

/// `n / unit` as an integer, rounded to the nearest one and up from halfway.
pub open spec fn nearest_up(n: int, unit: int) -> int {
    (2 * n + unit) / (2 * unit)
}

/// The whole microseconds of a position in seconds, where it is finite, not
/// negative, and no more than two to the power of 63 microseconds.
pub open spec fn position_micros(position: Double) -> Option<int> {
    let scaled = scaled_position(position);
    if !position@.is_time() || scaled > power2::pow2(63) * double::one() {
        None
    } else if nearest_up(scaled, double::one()) > i64::MAX {
        Some(i64::MAX as int)
    } else {
        Some(nearest_up(scaled, double::one()))
    }
}

// ------------------------------------------------------------ executables

/// How many bits `n` has beyond the 53 that a significand holds.
fn count_excess_bits(n: u128) -> (res: u32)
    requires
        n < 0x1_0000_0000_0000_0000_0000,
    ensures
        res == excess_bits(n as nat),
        res <= 27,
        n / (power2::pow2(res as nat) as u128) < 0x20_0000_0000_0000,
        res > 0 ==> n / (power2::pow2(res as nat) as u128) >= 0x10_0000_0000_0000,
{
    let mut rest: u128 = n;
    let mut res: u32 = 0;
    proof {
        power2::lemma2_to64();
        assert(rest == n / 1);
    }
    while rest >= 0x20_0000_0000_0000
        invariant
            n < 0x1_0000_0000_0000_0000_0000,
            res <= 27,
            rest as int == n as int / power2::pow2(res as nat) as int,
            excess_bits(n as nat) == res + excess_bits(rest as nat),
            res > 0 ==> rest >= 0x10_0000_0000_0000,
        decreases rest,
    {
        proof {
            power2::lemma_pow2_unfold((res + 1) as nat);
            power2::lemma_pow2_pos(res as nat);
            div_mod::lemma_div_denominator(n as int, power2::pow2(res as nat) as int, 2);
            if res == 27 {
                power2::lemma2_to64();
                assert(n as int / 0x800_0000 < 0x20_0000_0000_0000);
            }
        }
        rest = rest / 2;
        res += 1;
    }
    proof {
        power2::lemma2_to64();
        power2::lemma_pow2_pos(res as nat);
        if res < 32 {
            power2::lemma_pow2_strictly_increases(res as nat, 32);
        }
    }
    res
}

/// Dividing by a power of two undoes multiplying with it.
proof fn lemma_whole_position(v: int)
    requires
        v >= 0,
    ensures
        nearest_up(v * double::one(), double::one()) == v,
{
    power2::lemma_pow2_pos(1074);
    let unit = double::one();
    assert(2 * (v * unit) + unit == v * (2 * unit) + unit) by (nonlinear_arith);
    div_mod::lemma_fundamental_div_mod_converse(2 * (v * unit) + unit, 2 * unit, v, unit);
}

/// A common factor does not change how a quotient is rounded.
proof fn lemma_nearest_up_cancels(n: int, unit: int, factor: int)
    requires
        n >= 0,
        unit > 0,
        factor > 0,
    ensures
        nearest_up(n * factor, unit * factor) == nearest_up(n, unit),
{
    assert(2 * (n * factor) + unit * factor == factor * (2 * n + unit)) by (nonlinear_arith);
    assert(2 * (unit * factor) == factor * (2 * unit)) by (nonlinear_arith);
    div_mod::lemma_div_multiples_vanish_quotient(factor, 2 * n + unit, 2 * unit);
}

/// Converts a position in seconds to whole microseconds. Positions that are not
/// finite, negative or too large are refused.
pub fn seek_position_micros(position: Double) -> (res: Option<i64>)
    ensures
        match res {
            Some(micros) => position_micros(position) == Some(micros as int) && micros >= 0,
            None => position_micros(position) is None,
        },
{
    if !position.is_finite() || !position.at_least_zero() {
        return None;
    }
    let exponent_field: u64 = (position.bits / 0x10_0000_0000_0000) % 2048;
    let fraction: u64 = position.bits % 0x10_0000_0000_0000;
    let significand: u64 = if exponent_field == 0 {
        fraction
    } else {
        0x10_0000_0000_0000 + fraction
    };
    let scale: u32 = if exponent_field == 0 {
        0
    } else {
        (exponent_field - 1) as u32
    };
    let product: u128 = significand as u128 * 1_000_000;
    let excess: u32 = count_excess_bits(product);
    let rounded: u128 = round_half_even(product, power_of_two(excess));
    let exponent: u32 = excess + scale;
    let ghost scaled = scaled_position(position);
    let ghost factor = power2::pow2(exponent as nat) as int;
    proof {
        power2::lemma_pow2_pos(1074);
        power2::lemma_pow2_pos(exponent as nat);
        power2::lemma_pow2_adds(excess as nat, scale as nat);
        power2::lemma2_to64_rest();
        mul::lemma_mul_is_associative(
            rounded as int,
            power2::pow2(excess as nat) as int,
            power2::pow2(scale as nat) as int,
        );
        assert(scaled == rounded * factor);
    }
    if exponent >= 1074 {
        let shift: u32 = exponent - 1074;
        proof {
            power2::lemma_pow2_adds(shift as nat, 1074);
            mul::lemma_mul_is_associative(
                rounded as int,
                power2::pow2(shift as nat) as int,
                double::one(),
            );
            assert(scaled == (rounded * power2::pow2(shift as nat)) * double::one());
        }
        if shift > 63 {
            proof {
                power2::lemma_pow2_strictly_increases(63, shift as nat);
                power2::lemma_pow2_pos(shift as nat);
                assert(rounded >= 1);
                assert((rounded * power2::pow2(shift as nat)) * double::one() > power2::pow2(63) * double::one())
                    by (nonlinear_arith)
                    requires
                        rounded >= 1,
                        power2::pow2(shift as nat) > power2::pow2(63),
                        double::one() > 0,
                ;
            }
            return None;
        }
        let power: u128 = power_of_two(shift);
        assert(rounded * power <= 0x20_0000_0000_0000 * 0x1_0000_0000_0000_0000)
            by (nonlinear_arith)
            requires
                rounded <= 0x20_0000_0000_0000,
                power <= 0x1_0000_0000_0000_0000,
        ;
        let micros: u128 = rounded * power;
        proof {
            lemma_whole_position(micros as int);
            assert(micros * double::one() > power2::pow2(63) * double::one() <==> micros > power2::pow2(63))
                by (nonlinear_arith)
                requires
                    double::one() > 0,
            ;
        }
        if micros > 0x8000_0000_0000_0000 {
            None
        } else if micros == 0x8000_0000_0000_0000 {
            Some(i64::MAX)
        } else {
            Some(micros as i64)
        }
    } else {
        let shift: u32 = 1074 - exponent;
        let ghost power = power2::pow2(shift as nat) as int;
        proof {
            power2::lemma_pow2_pos(shift as nat);
            power2::lemma_pow2_adds(shift as nat, exponent as nat);
            assert(double::one() == power * factor);
            lemma_nearest_up_cancels(rounded as int, power, factor);
            assert(rounded * factor <= power2::pow2(63) * (power * factor)) by (nonlinear_arith)
                requires
                    rounded <= 0x20_0000_0000_0000,
                    power2::pow2(63) == 0x8000_0000_0000_0000,
                    power >= 1,
                    factor > 0,
            ;
        }
        if shift > 64 {
            proof {
                power2::lemma2_to64();
                power2::lemma_pow2_strictly_increases(64, shift as nat);
                div_mod::lemma_basic_div(2 * rounded + power, 2 * power);
            }
            Some(0)
        } else {
            let unit: u128 = power_of_two(shift);
            let micros: u128 = (2 * rounded + unit) / (2 * unit);
            proof {
                assert(micros <= rounded + 1) by (nonlinear_arith)
                    requires
                        micros == (2 * rounded + unit) / (2 * unit),
                        unit >= 1,
                ;
            }
            Some(micros as i64)
        }
    }
}

/// Seeks the active now-playing timeline to an absolute position in seconds,
/// through the adapter first and directly after it. Invalid or negative
/// positions are rejected without delivery.
///
/// `adapter_seek` takes microseconds and answers with nothing where no adapter
/// is staged or it could not be started; `direct_seek` takes the position and
/// answers with zero where it did not deliver.
pub fn seek<A: FnOnce(i64) -> Option<bool>, D: FnOnce(Double) -> i32>(
    cache: &mut AdapterCache,
    position: Double,
    adapter_seek: A,
    direct_seek: D,
) -> (res: bool)
    requires
        position_micros(position) matches Some(micros) ==> {
            &&& adapter_seek.requires((micros as i64,))
            &&& forall|adapter_result: Option<bool>| #[trigger]
                adapter_seek.ensures((micros as i64,), adapter_result) && adapter_result != Some(
                    true,
                ) ==> direct_seek.requires((position,))
        },
    ensures
        match position_micros(position) {
            None => !res,
            Some(micros) => exists|adapter_result: Option<bool>|
                {
                    &&& #[trigger] adapter_seek.ensures((micros as i64,), adapter_result)
                    &&& if adapter_result == Some(true) {
                        res
                    } else {
                        exists|status: i32|
                            {
                                &&& #[trigger] direct_seek.ensures((position,), status)
                                &&& res == (status != 0)
                            }
                    }
                },
        },
        cache::is_settled(*old(cache), *final(cache), res),
{
    match seek_position_micros(position) {
        None => false,
        Some(micros) => {
            let adapter_result = adapter_seek(micros);
            let direct = || -> (sent: bool)
                requires
                    direct_seek.requires((position,)),
                ensures
                    exists|status: i32|
                        #[trigger] direct_seek.ensures((position,), status) && sent == (status
                            != 0),
                { direct_seek(position) != 0 };
            let sent = resolve_transport_send(adapter_result, direct);
            cache::settle_delivery(cache, sent);
            sent
        },
    }
}

// ------------------------------------------------------------------- laws

/// Without its excess bits, a number fits a significand, and fills it where
/// there were any.
pub proof fn lemma_excess_bits(n: nat)
    ensures
        n / power2::pow2(excess_bits(n)) < 0x20_0000_0000_0000,
        excess_bits(n) > 0 ==> n / power2::pow2(excess_bits(n)) >= 0x10_0000_0000_0000,
    decreases n,
{
    power2::lemma2_to64();
    if n >= 0x20_0000_0000_0000 {
        let k = excess_bits(n / 2);
        lemma_excess_bits(n / 2);
        power2::lemma_pow2_unfold((k + 1) as nat);
        power2::lemma_pow2_pos(k);
        div_mod::lemma_div_denominator(n as int, 2, power2::pow2(k) as int);
        assert(n as int / power2::pow2(k + 1) as int == (n / 2) as int / power2::pow2(k) as int);
    }
}

/// A position that is a whole number of microseconds is converted exactly, as
/// long as a significand holds that number.
pub proof fn law_whole_microseconds_are_exact(position: Double, n: int, micros: nat)
    requires
        position@ == double::DoubleModel::Finite(n),
        n * 1_000_000 == micros * double::one(),
        micros < 0x20_0000_0000_0000,
    ensures
        position_micros(position) == Some(micros as int),
{
    let scale = position.scale();
    let factor = power2::pow2(scale) as int;
    let product = (position.significand() * 1_000_000) as nat;
    let k = excess_bits(product);
    let unit = power2::pow2(k) as int;
    power2::lemma_pow2_pos(1074);
    power2::lemma_pow2_pos(scale);
    power2::lemma_pow2_pos(k);
    power2::lemma2_to64_rest();
    assert(n >= 0) by (nonlinear_arith)
        requires
            n * 1_000_000 == micros * double::one(),
            micros >= 0,
            double::one() > 0,
    ;
    assert(position.magnitude() >= 0) by (nonlinear_arith)
        requires
            position.magnitude() == position.significand() * factor,
            position.significand() >= 0,
            factor > 0,
    ;
    assert(product * factor == micros * double::one()) by (nonlinear_arith)
        requires
            product == position.significand() * 1_000_000,
            position.significand() * factor == n,
            n * 1_000_000 == micros * double::one(),
    ;
    lemma_excess_bits(product);
    assert(round_to_significand(product) == product) by {
        if k == 0 {
            power2::lemma2_to64();
            rounding::lemma_nearest_even_exact(product as int, unit);
        } else {
            assert(product >= 0x10_0000_0000_0000 * unit) by (nonlinear_arith)
                requires
                    product as int / unit >= 0x10_0000_0000_0000,
                    unit > 0,
            ;
            if scale >= 1074 {
                power2::lemma_pow2_adds((scale - 1074) as nat, 1074);
                power2::lemma_pow2_pos((scale - 1074) as nat);
                let shift = power2::pow2((scale - 1074) as nat) as int;
                power2::lemma_pow2_unfold(k);
                power2::lemma_pow2_pos((k - 1) as nat);
                assert(false) by (nonlinear_arith)
                    requires
                        product >= 0x10_0000_0000_0000 * unit,
                        unit >= 2,
                        product * factor == micros * double::one(),
                        factor == shift * double::one(),
                        shift >= 1,
                        double::one() > 0,
                        micros < 0x20_0000_0000_0000,
                ;
            } else {
                let t = (1074 - scale) as nat;
                power2::lemma_pow2_adds(t, scale);
                let power = power2::pow2(t) as int;
                assert(product == micros * power) by (nonlinear_arith)
                    requires
                        product * factor == micros * double::one(),
                        double::one() == power * factor,
                        factor > 0,
                ;
                if t < k {
                    power2::lemma_pow2_unfold(k);
                    if t < k - 1 {
                        power2::lemma_pow2_strictly_increases(t, (k - 1) as nat);
                    }
                    assert(false) by (nonlinear_arith)
                        requires
                            product == micros * power,
                            micros < 0x20_0000_0000_0000,
                            product >= 0x10_0000_0000_0000 * unit,
                            unit >= 2 * power,
                            power >= 0,
                            unit > 0,
                    ;
                }
                power2::lemma_pow2_adds((t - k) as nat, k);
                let rest = power2::pow2((t - k) as nat) as int;
                assert(product == (micros * rest) * unit) by (nonlinear_arith)
                    requires
                        product == micros * power,
                        power == rest * unit,
                ;
                rounding::lemma_nearest_even_exact(micros * rest, unit);
            }
        }
    }
    assert(scaled_position(position) == micros * double::one());
    lemma_whole_position(micros as int);
    assert(micros * double::one() <= power2::pow2(63) * double::one()) by (nonlinear_arith)
        requires
            micros <= power2::pow2(63),
            double::one() > 0,
    ;
}

/// Positions that are not finite or negative are refused; what is accepted is
/// neither negative nor beyond 64 bits.
pub proof fn law_accepted_positions(position: Double)
    ensures
        !position@.is_time() ==> position_micros(position) is None,
        position_micros(position) matches Some(micros) ==> 0 <= micros <= i64::MAX,
{
    let product = (position.significand() * 1_000_000) as nat;
    let unit = power2::pow2(excess_bits(product)) as int;
    let factor = power2::pow2(position.scale()) as int;
    power2::lemma_pow2_pos(1074);
    power2::lemma_pow2_pos(excess_bits(product));
    power2::lemma_pow2_pos(position.scale());
    div_mod::lemma_div_pos_is_pos(product as int, unit);
    let rounded = rounding::nearest_even(product as int, unit);
    let scaled = scaled_position(position);
    assert(scaled >= 0) by (nonlinear_arith)
        requires
            scaled == (rounded * unit) * factor,
            rounded >= 0,
            unit > 0,
            factor > 0,
    ;
    div_mod::lemma_div_pos_is_pos(2 * scaled + double::one(), 2 * double::one());
}

} // verus!
