//! Binary floating-point numbers by their bits, held against the machine's own.

use ultra_media_remote::single::nearest_single;
use ultra_media_remote::{
    output_volume, seek, seek_position_micros, set_output_volume, valid_output_volume,
    AdapterCache, Double,
};

fn double(value: f64) -> Double {
    Double { bits: value.to_bits() }
}

/// Numbers at the edges of the format and of the ranges in use, with their
/// neighbours and their negatives, and pseudo-random ones.
fn samples() -> Vec<f64> {
    let edges = [
        0.0,
        f64::MIN_POSITIVE,
        f64::EPSILON,
        1e-300,
        0.1,
        0.5,
        1.0,
        1.25,
        2.0,
        83.2,
        1e6,
        9_007_199_254.740_993,
        9_223_372_036_854.0,
        9_223_372_036_854.775,
        9_223_372_036_854.776,
        9_223_372_036_855.0,
        4_503_599_627.370_496_5,
        i64::MAX as f64,
        f64::MAX,
        f64::INFINITY,
    ];
    let mut res = vec![f64::NAN, -f64::NAN];
    for edge in edges {
        for distance in -3i64..=3 {
            let near = f64::from_bits(edge.to_bits().wrapping_add(distance as u64));
            res.push(near);
            res.push(-near);
        }
    }
    let mut state: u64 = 0x9e37_79b9_7f4a_7c15;
    for round in 0u64..400_000 {
        state ^= state << 13;
        state ^= state >> 7;
        state ^= state << 17;
        res.push(f64::from_bits(state));
        // Exponents around those of times and levels.
        let exponent = 1023 - 60 + state % 110;
        res.push(f64::from_bits((state >> 12) | (exponent << 52)));
        // Halves of microseconds.
        res.push((round as f64 + 0.5) / 1e6);
    }
    res
}

#[test]
fn comparisons_are_those_of_the_machine() {
    for value in samples() {
        let bits = double(value);
        assert_eq!(bits.is_finite(), value.is_finite(), "{value}");
        assert_eq!(bits.at_least_zero(), value >= 0.0, "{value}");
        assert_eq!(bits.above_zero(), value > 0.0, "{value}");
        assert_eq!(bits.below_zero(), value < 0.0, "{value}");
        assert_eq!(bits.above_one(), value > 1.0, "{value}");
        assert_eq!(
            valid_output_volume(bits),
            value.is_finite() && (0.0..=1.0).contains(&value),
            "{value}"
        );
        if value.is_finite() {
            assert_eq!(bits.clamp_to_unit_range(), double(value.clamp(0.0, 1.0)), "{value}");
        }
    }
    assert_eq!(double(-0.0).clamp_to_unit_range(), double(-0.0));
}

#[test]
fn narrowing_is_that_of_the_machine() {
    let mut narrowed = 0;
    for value in samples() {
        if (0.0..=1.0).contains(&value) {
            assert_eq!(nearest_single(double(value)).bits, (value as f32).to_bits(), "{value}");
            narrowed += 1;
        }
    }
    // Halfway between two neighbours, and just beside.
    for bits in [0u32, 1, 2, 0x7f_ffff, 0x80_0000, 0x3f00_0000, 0x3f7f_ffff, 0x3e80_0001] {
        let halfway = (f32::from_bits(bits) as f64 + f32::from_bits(bits + 1) as f64) / 2.0;
        for distance in -1i64..=1 {
            let value = f64::from_bits(halfway.to_bits().wrapping_add(distance as u64));
            assert_eq!(nearest_single(double(value)).bits, (value as f32).to_bits(), "{value}");
        }
    }
    assert!(narrowed > 100_000, "{narrowed}");
}

#[test]
fn seek_positions_convert_to_adapter_microseconds() {
    assert_eq!(seek_position_micros(double(0.0)), Some(0));
    assert_eq!(seek_position_micros(double(1.25)), Some(1_250_000));
    assert_eq!(seek_position_micros(double(-0.1)), None);
    assert_eq!(seek_position_micros(double(f64::NAN)), None);
    assert_eq!(seek_position_micros(double(f64::INFINITY)), None);
    assert_eq!(seek_position_micros(double(i64::MAX as f64)), None);
}

#[test]
fn microseconds_are_those_of_the_machine() {
    let mut accepted = 0;
    for value in samples() {
        let micros = value * 1_000_000.0;
        let expected = if !value.is_finite() || value < 0.0 || micros > i64::MAX as f64 {
            None
        } else {
            Some(micros.round() as i64)
        };
        assert_eq!(seek_position_micros(double(value)), expected, "{value}");
        if expected.is_some() {
            accepted += 1;
        }
    }
    assert!(accepted > 100_000, "{accepted}");
    assert_eq!(seek_position_micros(double(-0.0)), Some(0));
    assert_eq!(seek_position_micros(double(9_223_372_036_854.773)), Some(9_223_372_036_854_773_760));
    assert_eq!(seek_position_micros(double(9_223_372_036_854.776)), Some(i64::MAX));
    assert_eq!(seek_position_micros(double(0.0000005)), Some(1));
    assert_eq!(seek_position_micros(double(0.00000049)), Some(0));
}

#[test]
fn whole_microseconds_are_kept() {
    for micros in [0i64, 1, 999_999, 1_000_000, 3_600_000_000, 86_400_000_000] {
        assert_eq!(seek_position_micros(double(micros as f64 / 1e6)), Some(micros));
    }
}

#[test]
fn seeks_take_the_adapter_first() {
    let mut cache = AdapterCache { fetched_at: Some(5), value: None };
    for rejected in [-0.1, f64::NAN, f64::INFINITY, 1e13] {
        assert!(!seek(
            &mut cache,
            double(rejected),
            |_| panic!("nothing is delivered"),
            |_| panic!("nothing is delivered"),
        ));
    }
    assert!(!seek(&mut cache, double(1.0), |_| Some(false), |_| 0));
    assert_eq!(cache.fetched_at, Some(5));

    let mut asked = (0, double(0.0));
    assert!(seek(
        &mut cache,
        double(1.25),
        |micros| {
            asked.0 = micros;
            None
        },
        |position| {
            asked.1 = position;
            1
        },
    ));
    assert_eq!(asked, (1_250_000, double(1.25)));
    assert_eq!(cache.fetched_at, None);
    assert!(seek(&mut cache, double(2.0), |_| Some(true), |_| panic!("delivered")));
}

#[test]
fn output_volume_validation_rejects_out_of_bounds_values() {
    assert!(valid_output_volume(double(0.0)));
    assert!(valid_output_volume(double(1.0)));
    assert!(!valid_output_volume(double(-f64::EPSILON)));
    assert!(!valid_output_volume(double(1.0 + f64::EPSILON)));
    assert!(!valid_output_volume(double(f64::NAN)));
    assert!(!valid_output_volume(double(f64::INFINITY)));
}

#[test]
fn non_macos_volume_stubs_are_unavailable() {
    // The stubs answer with zero and write no volume.
    assert_eq!(output_volume(0, double(0.0)), None);
    assert!(!set_output_volume(double(0.5), |_| 0));
}

#[test]
fn volumes_are_normalized() {
    assert_eq!(output_volume(1, double(0.75)), Some(double(0.75)));
    assert_eq!(output_volume(1, double(1.5)), Some(double(1.0)));
    assert_eq!(output_volume(1, double(-0.5)), Some(double(0.0)));
    assert_eq!(output_volume(1, double(f64::NAN)), None);
    assert_eq!(output_volume(1, double(f64::NEG_INFINITY)), None);

    let mut set = None;
    assert!(set_output_volume(double(0.25), |volume| {
        set = Some(volume);
        1
    }));
    assert_eq!(set, Some(double(0.25)));
    assert!(!set_output_volume(double(1.01), |_| panic!("the volume is invalid")));
    assert!(!set_output_volume(double(f64::NAN), |_| panic!("the volume is invalid")));
}
