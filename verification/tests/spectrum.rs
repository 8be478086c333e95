//! The system-output spectrum.

use ultra_media_remote::{
    parse_spectrum, spectrum_levels, spectrum_permission_granted, spectrum_request_permission,
    spectrum_start, spectrum_start_with_existing_consent, Json, Spectrum,
    SPECTRUM_BAND_FREQUENCIES_HZ,
};

fn levels(text: &str) -> Option<Vec<f32>> {
    let levels = parse_spectrum(text)?;
    Some(levels.iter().map(|level| f32::from_bits(level.bits)).collect())
}

#[test]
fn non_macos_spectrum_preflight_and_start_are_unavailable() {
    // There the native layer answers with zero.
    assert!(!spectrum_permission_granted(0));
    assert!(!spectrum_request_permission(0));
    assert!(spectrum_start(spectrum_permission_granted(0), || 0).is_none());
    assert!(spectrum_start_with_existing_consent(0).is_none());
}

#[test]
fn spectrum_payload_parses_and_clamps() {
    let good = "[0.0, 0.25, 1.0, 0.5, 0.75, 0.1, 0.2, 0.3, 0.4, 0.9, 1.0]";
    let parsed = levels(good).expect("11-band payload parses");
    assert_eq!(parsed.len(), SPECTRUM_BAND_FREQUENCIES_HZ.len());
    assert_eq!(parsed[2], 1.0);

    // Out-of-range values clamp; wrong lengths are rejected.
    let clamped = parse_spectrum("[]");
    assert!(clamped.is_none());
    let bad = parse_spectrum("[0, 0, 0]");
    assert!(bad.is_none(), "wrong band count must be rejected");
    assert!(parse_spectrum("not json").is_none());
}

#[test]
fn levels_are_clamped_and_narrowed() {
    let parsed = levels("[-1, 1.5, 1e300, 0.1, 1e-60, \"x\", null, true, 2, 0, -0.0]").unwrap();
    assert_eq!(parsed, vec![0.0, 1.0, 1.0, 0.1f32, 0.0, 0.0, 0.0, 0.0, 1.0, 0.0, 0.0]);
    assert!(levels("[1,1,1,1,1,1,1,1,1,1]").is_none());
    assert!(levels("[1,1,1,1,1,1,1,1,1,1,1,1]").is_none());
    assert!(levels("{}").is_none());
    assert!(spectrum_levels(&Json::Null).is_none());
    assert_eq!(
        SPECTRUM_BAND_FREQUENCIES_HZ,
        [63, 125, 250, 500, 1000, 2000, 3500, 5000, 7500, 10000, 14000]
    );
}

#[test]
fn nothing_is_started_without_permission() {
    assert!(spectrum_start(false, || panic!("not permitted")).is_none());
    assert!(spectrum_start(true, || 0).is_none());
    assert_eq!(spectrum_start(true, || 9), Some(Spectrum { handle: 9 }));
    assert_eq!(spectrum_start_with_existing_consent(3), Some(Spectrum { handle: 3 }));
    assert!(spectrum_permission_granted(1));
    assert!(spectrum_request_permission(-1));
}

#[test]
fn fetches_read_the_native_reply() {
    let spectrum = Spectrum { handle: 9 };
    let mut asked = 0;
    let fetched = spectrum.fetch(|handle| {
        asked = handle;
        Some(b"[0.5,1,0,0,0,0,0,0,0,0,0.25]".to_vec())
    });
    let fetched: Vec<f32> =
        fetched.unwrap().iter().map(|level| f32::from_bits(level.bits)).collect();
    assert_eq!(asked, 9);
    assert_eq!((fetched[0], fetched[1], fetched[10]), (0.5, 1.0, 0.25));
    assert!(spectrum.fetch(|_| None).is_none());
    assert!(spectrum.fetch(|_| Some(b"\xff".to_vec())).is_none());
    assert!(spectrum.fetch(|_| Some(b"[1]".to_vec())).is_none());
}
