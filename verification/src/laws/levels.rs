//! What numbers become: band levels in binary32, and positions in microseconds.

use vstd::arithmetic::div_mod;
use vstd::arithmetic::power2;
use vstd::prelude::*;
use vstd::utf8;

use crate::cache::AdapterCache;
use crate::double;
use crate::double::Double;
use crate::json;
use crate::json::{Json, JsonModel};
use crate::laws::delivery;
use crate::laws::payloads;
use crate::parser;
use crate::rounding;
use crate::seek;
use crate::session;
use crate::single;
use crate::single::Single;
use crate::spectrum;
use crate::spectrum::Spectrum;

verus! {

/// How far two integers lie apart.
pub open spec fn distance(a: int, b: int) -> int {
    if a <= b {
        b - a
    } else {
        a - b
    }
}

/// No multiple lies nearer than the one that a quotient is rounded to, which
/// lies no further away than half the unit.
proof fn lemma_nearest_multiple(n: int, unit: int, m: int)
    requires
        unit > 0,
    ensures
        2 * distance(rounding::nearest_even(n, unit) * unit, n) <= unit,
        distance(rounding::nearest_even(n, unit) * unit, n) <= distance(m * unit, n),
{
    let (quotient, rest) = (n / unit, n % unit);
    div_mod::lemma_fundamental_div_mod(n, unit);
    assert(n == quotient * unit + rest) by (nonlinear_arith)
        requires
            n == unit * quotient + rest,
    ;
    assert((quotient + 1) * unit == quotient * unit + unit) by (nonlinear_arith);
    if m <= quotient {
        assert(m * unit <= quotient * unit) by (nonlinear_arith)
            requires
                m <= quotient,
                unit > 0,
        ;
    } else {
        assert(m * unit >= (quotient + 1) * unit) by (nonlinear_arith)
            requires
                m >= quotient + 1,
                unit > 0,
        ;
    }
}

/// A quotient is rounded to the nearest integer, and to the even one of two that
/// are as near.
pub proof fn law_quotients_are_rounded_to_even(n: u128, unit: u128, res: u128)
    requires
        call_ensures(rounding::round_half_even, (n, unit), res),
        unit > 0,
    ensures
        2 * distance(res * unit, n as int) <= unit,
        2 * distance(res * unit, n as int) == unit ==> res % 2 == 0,
{
    let (n, unit) = (n as int, unit as int);
    let (quotient, rest) = (n / unit, n % unit);
    lemma_nearest_multiple(n, unit, 0);
    div_mod::lemma_fundamental_div_mod(n, unit);
    assert(n == quotient * unit + rest) by (nonlinear_arith)
        requires
            n == unit * quotient + rest,
    ;
    assert((quotient + 1) * unit == quotient * unit + unit) by (nonlinear_arith);
}

// ------------------------------------------------------------------ levels

/// Two to the power of 925: how often the smallest positive binary64 number goes
/// into the smallest positive binary32 number.
pub open spec fn single_unit() -> int {
    power2::pow2(925) as int
}

/// Whether a binary32 number is as near to the binary64 number with the given
/// bits as any other one, and has its sign.
pub open spec fn is_near(bits: u64, res: Single) -> bool {
    let d = Double { bits };
    &&& res.exponent_field() < 255
    &&& res.sign_bit() == d.sign_bit()
    &&& forall|other: Single|
        other.exponent_field() < 255 ==> distance(
            res.magnitude() * single_unit(),
            d.magnitude(),
        ) <= distance(#[trigger] other.magnitude() * single_unit(), d.magnitude())
}

proof fn lemma_single_magnitude(s: Single)
    requires
        s.exponent_field() < 255,
    ensures
        0 <= s.magnitude(),
        s.exponent_field() == 0 ==> s.magnitude() < 0x80_0000,
        s.exponent_field() > 0 ==> s.magnitude() < 0x100_0000 * power2::pow2(
            (s.exponent_field() - 1) as nat,
        ),
{
    if s.exponent_field() > 0 {
        let p = power2::pow2((s.exponent_field() - 1) as nat) as int;
        power2::lemma_pow2_pos((s.exponent_field() - 1) as nat);
        let m = 0x80_0000 + s.fraction_field();
        assert(0 <= m * p < 0x100_0000 * p) by (nonlinear_arith)
            requires
                0 < m < 0x100_0000,
                p > 0,
        ;
    }
}

proof fn lemma_near(d: Double, res: Single)
    requires
        single::is_nearest_single(d, res),
        d.exponent_field() < 1100,
    ensures
        is_near(d.bits, res),
{
    let unit = single_unit();
    let spacing = single::single_spacing(d);
    let n = d.magnitude();
    let e = d.exponent_field();
    power2::lemma_pow2_pos(925);
    power2::lemma2_to64();
    power2::lemma_pow2_pos(d.scale());
    assert(Double { bits: d.bits } == d);
    assert forall|other: Single| other.exponent_field() < 255 implies distance(
        res.magnitude() * unit,
        n,
    ) <= distance(#[trigger] other.magnitude() * unit, n) by {
        lemma_single_magnitude(other);
        let f = other.exponent_field();
        if e < 897 {
            lemma_nearest_multiple(n, spacing, other.magnitude());
        } else {
            let step = (e - 897) as nat;
            let low = power2::pow2(step) as int;
            power2::lemma_pow2_pos(step);
            power2::lemma_pow2_adds(step, 925);
            assert(spacing == low * unit);
            power2::lemma_pow2_pos((29 + d.scale()) as nat);
            if f - 1 >= step {
                let high = power2::pow2((f - 1 - step) as nat) as int;
                power2::lemma_pow2_adds((f - 1 - step) as nat, step);
                let m = (0x80_0000 + other.fraction_field()) * high;
                assert(other.magnitude() * unit == m * spacing) by (nonlinear_arith)
                    requires
                        other.magnitude() == (0x80_0000 + other.fraction_field()) * (high * low),
                        m == (0x80_0000 + other.fraction_field()) * high,
                        spacing == low * unit,
                ;
                lemma_nearest_multiple(n, spacing, m);
            } else {
                assert(other.magnitude() < 0x80_0000 * low) by {
                    if f == 0 {
                        assert(0x80_0000 * low >= 0x80_0000) by (nonlinear_arith)
                            requires
                                low >= 1,
                        ;
                    } else {
                        power2::lemma_pow2_unfold(f as nat);
                        if f < step {
                            power2::lemma_pow2_strictly_increases(f as nat, step);
                        }
                        let p = power2::pow2((f - 1) as nat) as int;
                        assert(0x100_0000 * p <= 0x80_0000 * low) by (nonlinear_arith)
                            requires
                                2 * p <= low,
                        ;
                    }
                }
                assert(other.magnitude() * unit <= (0x80_0000 * low) * unit) by (nonlinear_arith)
                    requires
                        other.magnitude() < 0x80_0000 * low,
                        unit > 0,
                ;
                assert((0x80_0000 * low) * unit == 0x80_0000 * spacing) by (nonlinear_arith)
                    requires
                        spacing == low * unit,
                ;
                let scale_power = power2::pow2(d.scale()) as int;
                power2::lemma_pow2_adds(29, d.scale());
                assert(spacing == 0x2000_0000 * scale_power);
                assert(n >= 0x80_0000 * spacing) by (nonlinear_arith)
                    requires
                        n == d.significand() * scale_power,
                        d.significand() >= 0x10_0000_0000_0000,
                        spacing == 0x2000_0000 * scale_power,
                        scale_power > 0,
                ;
                lemma_nearest_multiple(n, spacing, 0x80_0000);
            }
        }
    }
}

/// The nearest binary32 number of a number between zero and one is as near to it
/// as any binary32 number is.
pub proof fn law_narrowed_numbers_are_nearest(d: Double, res: Single)
    requires
        call_ensures(single::nearest_single, (d,), res),
        delivery::unit_bits(d.bits),
    ensures
        is_near(d.bits, res),
{
    delivery::lemma_bits(d);
    lemma_near(d, res);
}

/// Whether a level is what an item of a spectrum says: the number, moved into the
/// range from zero to one and narrowed, and zero where the item is no number.
pub open spec fn is_level_of(item: JsonModel, level: Single) -> bool {
    match item {
        JsonModel::Number(number) => match number.double {
            Some(d) => exists|bits: u64| #[trigger]
                delivery::is_unit_of(d.bits, bits) && is_near(bits, level),
            None => is_near(0, level),
        },
        _ => is_near(0, level),
    }
}

/// Whether a result is what a spectrum payload says: eleven levels, each what the
/// item at its own place says, and none where it is no array of eleven.
pub open spec fn are_levels_of(payload: JsonModel, res: Option<Vec<Single>>) -> bool {
    match payload {
        JsonModel::Array(items) => if items.len() == 11 {
            res matches Some(levels) && {
                &&& levels@.len() == 11
                &&& forall|i: int| 0 <= i < 11 ==> is_level_of(items[i], #[trigger] levels@[i])
            }
        } else {
            res is None
        },
        _ => res is None,
    }
}

/// Whether every number in a value is finite.
pub open spec fn items_are_finite(payload: JsonModel) -> bool {
    payload matches JsonModel::Array(items) ==> forall|i: int|
        0 <= i < items.len() ==> (#[trigger] items[i] matches JsonModel::Number(number) ==> (
        number.double matches Some(d) ==> delivery::finite_bits(d.bits)))
}

proof fn lemma_levels(payload: JsonModel, res: Option<Vec<Single>>)
    requires
        spectrum::is_spectrum(spectrum::band_levels(payload), res),
        items_are_finite(payload),
    ensures
        are_levels_of(payload, res),
{
    if let JsonModel::Array(items) = payload {
        if items.len() == 11 {
            let doubles = spectrum::band_levels(payload)->0;
            let levels = res->0;
            assert forall|i: int| 0 <= i < 11 implies is_level_of(items[i], #[trigger] levels@[i]) by {
                assert(single::is_nearest_single(doubles[i], levels@[i]));
                delivery::lemma_bits(doubles[i]);
                delivery::lemma_bits(Double { bits: 0 });
                if let JsonModel::Number(number) = items[i] {
                    if let Some(d) = number.double {
                        delivery::lemma_bits(d);
                        assert(delivery::is_unit_of(d.bits, doubles[i].bits));
                    }
                }
                lemma_near(doubles[i], levels@[i]);
            }
        }
    }
}

proof fn lemma_finite_items(payload: Json)
    requires
        payload.is_finite(),
    ensures
        items_are_finite(payload.model()),
{
    if let Json::Array(items) = payload {
        json::lemma_items_model(items@);
        assert forall|i: int| 0 <= i < items@.len() implies (#[trigger] json::items_model(
            items@,
        )[i] matches JsonModel::Number(number) ==> (number.double matches Some(d)
            ==> delivery::finite_bits(d.bits))) by {
            assert(items@[i].is_finite());
            if let Json::Number(number) = items@[i] {
                if let Some(d) = number.double {
                    delivery::lemma_bits(d);
                }
            }
        }
    }
}

/// Each level of a spectrum is what the item at its own place says.
pub proof fn law_levels_keep_their_place(payload: Json, res: Option<Vec<Single>>)
    requires
        call_ensures(spectrum::spectrum_levels, (&payload,), res),
        payload.is_finite(),
    ensures
        are_levels_of(payload.model(), res),
{
    lemma_finite_items(payload);
    lemma_levels(payload.model(), res);
}

/// Whether a result is what a text says of a spectrum.
pub open spec fn are_levels_of_text(chars: Seq<char>, res: Option<Vec<Single>>) -> bool {
    match parser::text_document(chars) {
        Some(payload) => items_are_finite(payload) ==> are_levels_of(payload, res),
        None => res is None,
    }
}

proof fn lemma_levels_of_text(chars: Seq<char>, res: Option<Vec<Single>>)
    requires
        spectrum::is_spectrum(spectrum::text_levels(chars), res),
    ensures
        are_levels_of_text(chars, res),
{
    if let Some(payload) = parser::text_document(chars) {
        if items_are_finite(payload) {
            lemma_levels(payload, res);
        }
    }
}

/// A text that is a JSON array of eleven items is a spectrum, and nothing else
/// is.
pub proof fn law_spectrum_texts_are_read(json_text: &str, res: Option<Vec<Single>>)
    requires
        call_ensures(spectrum::parse_spectrum, (json_text,), res),
    ensures
        are_levels_of_text(json_text@, res),
{
    lemma_levels_of_text(json_text@, res);
}

/// A fetch asks for its own handle, and returns what the bytes that come back
/// say.
pub proof fn law_spectra_fetch_their_own_levels<F: FnOnce(u64) -> Option<Vec<u8>>>(
    spectrum: Spectrum,
    native_fetch: F,
    res: Option<Vec<Single>>,
)
    requires
        call_ensures(Spectrum::fetch::<F>, (&spectrum, native_fetch), res),
    ensures
        exists|reply: Option<Vec<u8>>|
            {
                &&& #[trigger] native_fetch.ensures((spectrum.handle,), reply)
                &&& match reply {
                    None => res is None,
                    Some(bytes) => {
                        &&& !utf8::valid_utf8(bytes@) ==> res is None
                        &&& forall|chars: Seq<char>| #[trigger]
                            utf8::encode_utf8(chars) == bytes@ ==> are_levels_of_text(chars, res)
                    },
                }
            },
{
    let reply = choose|reply: Option<Vec<u8>>|
        {
            &&& #[trigger] native_fetch.ensures((spectrum.handle,), reply)
            &&& spectrum::is_spectrum(
                spectrum::reply_levels(session::buffer_view(reply)),
                res,
            )
        };
    if let Some(bytes) = reply {
        assert forall|chars: Seq<char>| #[trigger]
            utf8::encode_utf8(chars) == bytes@ implies are_levels_of_text(chars, res) by {
            utf8::encode_utf8_valid_utf8(chars);
            utf8::encode_utf8_decode_utf8(chars);
            lemma_levels_of_text(chars, res);
        }
    }
    assert(native_fetch.ensures((spectrum.handle,), reply));
}

// --------------------------------------------------------------- positions

/// Whether a result is a position in whole microseconds. The exact product of
/// the position and a million is off by half a microsecond at most, and by the
/// 53 bits that binary64 arithmetic keeps of it. Positions up to two to the power
/// of 63 microseconds are accepted, and none that is further beyond than those
/// bits tell.
pub open spec fn is_micros_of(position: Double, res: Option<i64>) -> bool {
    let product = position.magnitude() * 1_000_000;
    let limit = power2::pow2(63) * double::one();
    if !payloads::time_bits(position.bits) {
        res is None
    } else {
        &&& product <= limit ==> res is Some
        &&& res is Some ==> product * 0x1f_ffff_ffff_ffff <= limit * 0x20_0000_0000_0000
        &&& res matches Some(micros) ==> micros >= 0
        &&& res matches Some(micros) ==> {
            ||| is_within_rounding(micros as int, product)
            ||| micros == i64::MAX && is_within_rounding(micros + 1, product)
        }
    }
}

/// Whether microseconds are off from the product by half of one at most, and by
/// the 53 bits that are kept of it.
pub open spec fn is_within_rounding(micros: int, product: int) -> bool {
    0x20_0000_0000_0000 * distance(micros * double::one(), product) <= 0x10_0000_0000_0000
        * double::one() + product
}

proof fn lemma_rounded_product(position: Double)
    requires
        position.significand() >= 0,
    ensures
        0x20_0000_0000_0000 * distance(
            seek::scaled_position(position),
            position.magnitude() * 1_000_000,
        ) <= position.magnitude() * 1_000_000,
        position.magnitude() * 1_000_000 <= power2::pow2(63) * double::one()
            ==> seek::scaled_position(position) <= power2::pow2(63) * double::one(),
{
    let product = (position.significand() * 1_000_000) as nat;
    let k = seek::excess_bits(product);
    let unit = power2::pow2(k) as int;
    let factor = power2::pow2(position.scale()) as int;
    let rounded = rounding::nearest_even(product as int, unit);
    let scaled = seek::scaled_position(position);
    power2::lemma_pow2_pos(k);
    power2::lemma_pow2_pos(position.scale());
    power2::lemma2_to64();
    power2::lemma2_to64_rest();
    seek::lemma_excess_bits(product);
    lemma_nearest_multiple(product as int, unit, 0);
    let gap = distance(rounded * unit, product as int);
    if k == 0 {
        assert(unit == 1);
        rounding::lemma_nearest_even_exact(product as int, 1);
        assert(gap == 0);
    } else {
        assert(product >= 0x10_0000_0000_0000 * unit) by (nonlinear_arith)
            requires
                product as int / unit >= 0x10_0000_0000_0000,
                unit > 0,
        ;
    }
    assert(0x20_0000_0000_0000 * gap <= product) by (nonlinear_arith)
        requires
            gap == 0 || (2 * gap <= unit && product >= 0x10_0000_0000_0000 * unit),
            product >= 0,
    ;
    assert(position.magnitude() * 1_000_000 == product * factor) by (nonlinear_arith)
        requires
            position.magnitude() == position.significand() * factor,
            product == position.significand() * 1_000_000,
    ;
    assert(scaled == (rounded * unit) * factor);
    assert(distance(scaled, product * factor) == gap * factor) by (nonlinear_arith)
        requires
            scaled == (rounded * unit) * factor,
            gap == distance(rounded * unit, product as int),
            factor > 0,
    ;
    assert(0x20_0000_0000_0000 * (gap * factor) <= product * factor) by (nonlinear_arith)
        requires
            0x20_0000_0000_0000 * gap <= product,
            factor > 0,
    ;
    if product * factor <= power2::pow2(63) * double::one() {
        power2::lemma_pow2_adds(63, 1074);
        if k == 0 {
            assert(rounded == product);
            assert(scaled == product * factor) by (nonlinear_arith)
                requires
                    scaled == (rounded * unit) * factor,
                    rounded == product,
                    unit == 1,
            ;
        } else {
            let total = (52 + k + position.scale()) as nat;
            power2::lemma_pow2_adds(52, k);
            power2::lemma_pow2_adds((52 + k) as nat, position.scale());
            assert(power2::pow2(total) <= product * factor) by (nonlinear_arith)
                requires
                    power2::pow2(total) == (0x10_0000_0000_0000 * unit) * factor,
                    product >= 0x10_0000_0000_0000 * unit,
                    factor > 0,
            ;
            if total > 1137 {
                power2::lemma_pow2_strictly_increases(1137, total);
            }
            let spare = (1137 - k - position.scale()) as nat;
            power2::lemma_pow2_adds(spare, k);
            power2::lemma_pow2_adds((spare + k) as nat, position.scale());
            let bound = power2::pow2(spare) as int;
            assert(product <= bound * unit) by (nonlinear_arith)
                requires
                    product * factor <= (bound * unit) * factor,
                    factor > 0,
            ;
            single::lemma_nearest_even_bound(product as int, unit, bound);
            assert((rounded * unit) * factor <= (bound * unit) * factor) by (nonlinear_arith)
                requires
                    rounded <= bound,
                    unit > 0,
                    factor > 0,
            ;
        }
    }
}

/// A number of 53 significant bits at most.
pub open spec fn is_short_number(n: int) -> bool {
    exists|m: nat, k: nat| m < 0x20_0000_0000_0000 && n == #[trigger] (m * power2::pow2(k))
}

/// Whether a number of 53 significant bits at most is as near as any other one.
pub open spec fn is_binary64_near(n: int, res: int) -> bool {
    &&& is_short_number(res)
    &&& forall|m: nat, k: nat|
        m < 0x20_0000_0000_0000 ==> distance(res, n) <= distance(
            #[trigger] (m * power2::pow2(k)) as int,
            n,
        )
}

proof fn lemma_scaled(position: Double)
    requires
        position.significand() >= 0,
    ensures
        is_binary64_near(
            position.magnitude() * 1_000_000,
            seek::scaled_position(position),
        ),
{
    let product = (position.significand() * 1_000_000) as nat;
    let k = seek::excess_bits(product);
    let unit = power2::pow2(k) as int;
    let factor = power2::pow2(position.scale()) as int;
    let rounded = rounding::nearest_even(product as int, unit);
    let scaled = seek::scaled_position(position);
    let n = position.magnitude() * 1_000_000;
    let top = (k + position.scale()) as nat;
    let step = power2::pow2(top) as int;
    power2::lemma_pow2_pos(k);
    power2::lemma_pow2_pos(position.scale());
    power2::lemma_pow2_pos(top);
    power2::lemma_pow2_adds(k, position.scale());
    power2::lemma2_to64();
    seek::lemma_excess_bits(product);
    assert(n == product * factor) by (nonlinear_arith)
        requires
            n == (position.significand() * factor) * 1_000_000,
            product == position.significand() * 1_000_000,
    ;
    rounding::lemma_nearest_even_cancels(product as int, unit, factor);
    assert(scaled == rounded * step) by (nonlinear_arith)
        requires
            scaled == (rounded * unit) * factor,
            step == unit * factor,
    ;
    assert(rounded == rounding::nearest_even(n, step));
    div_mod::lemma_div_pos_is_pos(product as int, unit);
    assert(0 <= rounded <= 0x20_0000_0000_0000);
    if rounded == 0x20_0000_0000_0000 {
        power2::lemma_pow2_unfold((top + 1) as nat);
        assert(power2::pow2((top + 1) as nat) == 2 * power2::pow2(top));
        assert(scaled == 0x10_0000_0000_0000 * (2 * step)) by (nonlinear_arith)
            requires
                scaled == rounded * step,
                rounded == 0x20_0000_0000_0000,
        ;
        assert(scaled == 0x10_0000_0000_0000nat * power2::pow2((top + 1) as nat));
    } else {
        let m = rounded as nat;
        assert(scaled == m * power2::pow2(top));
    }
    assert forall|m: nat, j: nat| m < 0x20_0000_0000_0000 implies distance(scaled, n) <= distance(
        #[trigger] (m * power2::pow2(j)) as int,
        n,
    ) by {
        let other = (m * power2::pow2(j)) as int;
        power2::lemma_pow2_pos(j);
        if k == 0 {
            rounding::lemma_nearest_even_exact(product as int, 1);
            assert(scaled == n) by (nonlinear_arith)
                requires
                    scaled == (rounded * unit) * factor,
                    n == product * factor,
                    rounded == product,
                    unit == 1,
            ;
        } else if j >= top {
            let high = power2::pow2((j - top) as nat) as int;
            power2::lemma_pow2_adds((j - top) as nat, top);
            assert(other == (m * high) * step) by (nonlinear_arith)
                requires
                    other == m * (high * step),
            ;
            lemma_nearest_multiple(n, step, m * high);
        } else {
            power2::lemma_pow2_unfold(top);
            if j < top - 1 {
                power2::lemma_pow2_strictly_increases(j, (top - 1) as nat);
            }
            assert(other <= 0x10_0000_0000_0000 * step) by (nonlinear_arith)
                requires
                    other == m * power2::pow2(j),
                    m < 0x20_0000_0000_0000,
                    2 * power2::pow2(j) <= step,
                    power2::pow2(j) > 0,
            ;
            assert(product >= 0x10_0000_0000_0000 * unit) by (nonlinear_arith)
                requires
                    product as int / unit >= 0x10_0000_0000_0000,
                    unit > 0,
            ;
            assert(n >= 0x10_0000_0000_0000 * step) by (nonlinear_arith)
                requires
                    n == product * factor,
                    product >= 0x10_0000_0000_0000 * unit,
                    step == unit * factor,
                    factor > 0,
            ;
            lemma_nearest_multiple(n, step, 0x10_0000_0000_0000);
        }
    }
}

/// Whether microseconds are what the binary64 product of a position and a million
/// comes to, rounded up from halfway, as far as 64 bits hold it.
pub open spec fn is_rounded_product(position: Double, micros: i64) -> bool {
    exists|scaled: int|
        {
            &&& #[trigger] is_binary64_near(position.magnitude() * 1_000_000, scaled)
            &&& {
                ||| (2 * micros - 1) * double::one() <= 2 * scaled < (2 * micros + 1)
                    * double::one()
                ||| micros == i64::MAX && 2 * scaled >= (2 * micros + 1) * double::one()
            }
        }
}

/// Microseconds are the binary64 product of the position and a million, rounded
/// to a whole number.
pub proof fn law_positions_are_multiplied_in_binary64(position: Double, res: Option<i64>)
    requires
        call_ensures(seek::seek_position_micros, (position,), res),
    ensures
        res matches Some(micros) ==> is_rounded_product(position, micros),
{
    if let Some(micros) = res {
        let scaled = seek::scaled_position(position);
        let one = double::one();
        let m = seek::nearest_up(scaled, one);
        lemma_scaled(position);
        power2::lemma_pow2_pos(1074);
        div_mod::lemma_fundamental_div_mod(2 * scaled + one, 2 * one);
        let rest = (2 * scaled + one) % (2 * one);
        assert((2 * one) * m == (2 * m) * one) by (nonlinear_arith);
        assert((2 * m - 1) * one == (2 * m) * one - one) by (nonlinear_arith);
        assert((2 * m + 1) * one == (2 * m) * one + one) by (nonlinear_arith);
        if m > i64::MAX {
            assert((2 * micros + 1) * one <= (2 * m - 1) * one) by (nonlinear_arith)
                requires
                    micros + 1 <= m,
                    one > 0,
            ;
        }
        assert(is_binary64_near(position.magnitude() * 1_000_000, scaled));
    }
}

proof fn lemma_nearest_whole(scaled: int)
    ensures
        2 * distance(seek::nearest_up(scaled, double::one()) * double::one(), scaled)
            <= double::one(),
{
    power2::lemma_pow2_pos(1074);
    let one = double::one();
    let m = seek::nearest_up(scaled, one);
    let rest = (2 * scaled + one) % (2 * one);
    div_mod::lemma_fundamental_div_mod(2 * scaled + one, 2 * one);
    assert((2 * one) * m == 2 * (m * one)) by (nonlinear_arith);
}

proof fn lemma_micros(position: Double, res: Option<i64>)
    requires
        match res {
            Some(micros) => seek::position_micros(position) == Some(micros as int) && micros >= 0,
            None => seek::position_micros(position) is None,
        },
    ensures
        is_micros_of(position, res),
{
    payloads::lemma_time_bits(position);
    if payloads::time_bits(position.bits) {
        lemma_rounded_product(position);
        power2::lemma_pow2_pos(1074);
        power2::lemma_pow2_pos(63);
        power2::lemma2_to64_rest();
        let one = double::one();
        let product = position.magnitude() * 1_000_000;
        let scaled = seek::scaled_position(position);
        let limit = power2::pow2(63) * one;
        if res is Some {
            assert(scaled <= limit);
            assert(product * 0x1f_ffff_ffff_ffff <= limit * 0x20_0000_0000_0000) by {
                assert(0x20_0000_0000_0000 * (product - scaled) <= product);
            }
            lemma_nearest_whole(scaled);
            let m = seek::nearest_up(scaled, one);
            assert(is_within_rounding(m, product));
            assert(m <= 0x8000_0000_0000_0000) by (nonlinear_arith)
                requires
                    2 * distance(m * one, scaled) <= one,
                    scaled <= 0x8000_0000_0000_0000 * one,
                    one > 0,
            ;
        }
    }
}

/// Positions become the whole microseconds that lie nearest, as far as binary64
/// arithmetic tells, and only those that are finite, not negative and not too
/// large do.
pub proof fn law_positions_become_microseconds(position: Double, res: Option<i64>)
    requires
        call_ensures(seek::seek_position_micros, (position,), res),
    ensures
        is_micros_of(position, res),
{
    lemma_micros(position, res);
}

/// A seek takes the position to the adapter in microseconds, and as it is to the
/// native layer where the adapter did not deliver it. Where it has no
/// microseconds, nothing is sought. Only a delivered seek outdates the cache.
pub proof fn law_seeks_are_delivered_in_microseconds<
    A: FnOnce(i64) -> Option<bool>,
    D: FnOnce(Double) -> i32,
>(cache: &mut AdapterCache, position: Double, adapter: A, direct: D, res: bool)
    requires
        call_ensures(seek::seek::<A, D>, (cache, position, adapter, direct), res),
    ensures
        is_micros_of(position, None) && !res || exists|micros: i64, answer: Option<bool>|
            {
                &&& #[trigger] adapter.ensures((micros,), answer)
                &&& is_micros_of(position, Some(micros))
                &&& answer == Some(true) ==> res
                &&& answer != Some(true) ==> exists|status: i32|
                    {
                        &&& #[trigger] direct.ensures((position,), status)
                        &&& res <==> status != 0
                    }
            },
        delivery::leaves_cache(*old(cache), *final(cache), res),
{
    match seek::position_micros(position) {
        None => {
            lemma_micros(position, None);
        },
        Some(n) => {
            seek::law_accepted_positions(position);
            let micros = n as i64;
            lemma_micros(position, Some(micros));
            let answer = choose|answer: Option<bool>|
                {
                    &&& #[trigger] adapter.ensures((micros,), answer)
                    &&& if answer == Some(true) {
                        res
                    } else {
                        exists|status: i32|
                            {
                                &&& #[trigger] direct.ensures((position,), status)
                                &&& res == (status != 0)
                            }
                    }
                };
            assert(adapter.ensures((micros,), answer));
        },
    }
}

} // verus!
