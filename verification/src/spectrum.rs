//! The live spectrum of the system output: permission, start, and levels.

use vstd::prelude::*;
use vstd::utf8;

use crate::double;
use crate::double::Double;
use crate::json;
use crate::json::{Json, JsonModel};
use crate::parser;
use crate::session;
use crate::single;
use crate::single::{nearest_single, Single};
use crate::text;

verus! {

/// Visual band frequencies in Hz, ordered low to high. The levels of a spectrum
/// map one-to-one onto these bins.
pub const SPECTRUM_BAND_FREQUENCIES_HZ: [u32; 11] = [
    63,
    125,
    250,
    500,
    1_000,
    2_000,
    3_500,
    5_000,
    7_500,
    10_000,
    14_000,
];

/// Live system-output spectrum handle.
#[derive(Debug, PartialEq, Eq, Structural)]
pub struct Spectrum {
    pub handle: u64,
}

// ----------------------------------------------------------------- levels

/// The level of a band: the item's number between zero and one, and zero where
/// the item is no number.
pub open spec fn band_level(item: JsonModel) -> Double {
    match item {
        JsonModel::Number(number) => match number.double {
            Some(level) => level.clamped(),
            None => Double { bits: 0 },
        },
        _ => Double { bits: 0 },
    }
}

/// The levels in a spectrum payload, which is an array of one item per band.
pub open spec fn band_levels(payload: JsonModel) -> Option<Seq<Double>> {
    match payload {
        JsonModel::Array(items) => if items.len() == 11 {
            Some(items.map_values(|item: JsonModel| band_level(item)))
        } else {
            None
        },
        _ => None,
    }
}

/// Whether the binary32 levels are the nearest to the given ones, band by band.
pub open spec fn are_nearest(levels: Seq<Double>, res: Seq<Single>) -> bool {
    &&& res.len() == levels.len()
    &&& forall|i: int|
        0 <= i < levels.len() ==> single::is_nearest_single(levels[i], #[trigger] res[i])
}

/// Whether the result is what a payload's levels come to in binary32, each of
/// them between zero and one, or is missing where they are.
pub open spec fn is_spectrum(levels: Option<Seq<Double>>, res: Option<Vec<Single>>) -> bool {
    match levels {
        Some(levels) => res matches Some(res) && {
            &&& are_nearest(levels, res@)
            &&& forall|i: int| 0 <= i < res@.len() ==> (#[trigger] res@[i]).in_unit_range()
        },
        None => res is None,
    }
}

/// The levels of a spectrum payload. Requires exactly one item per band; each
/// level is moved into the range from zero to one.
pub fn spectrum_levels(payload: &Json) -> (res: Option<Vec<Single>>)
    requires
        payload.is_finite(),
    ensures
        is_spectrum(band_levels(payload.model()), res),
{
    match payload {
        Json::Array(items) => {
            proof {
                json::lemma_items_model(items@);
            }
            if items.len() != SPECTRUM_BAND_FREQUENCIES_HZ.len() {
                return None;
            }
            let mut res: Vec<Single> = Vec::new();
            let ghost levels = band_levels(payload.model())->0;
            let mut i: usize = 0;
            while i < items.len()
                invariant
                    i <= items@.len() == levels.len(),
                    forall|j: int| 0 <= j < items@.len() ==> (#[trigger] items@[j]).is_finite(),
                    forall|j: int|
                        0 <= j < items@.len() ==> #[trigger] levels[j] == band_level(
                            items@[j].model(),
                        ),
                    res@.len() == i,
                    forall|j: int|
                        0 <= j < i ==> single::is_nearest_single(levels[j], #[trigger] res@[j]),
                    forall|j: int| 0 <= j < i ==> (#[trigger] res@[j]).in_unit_range(),
                decreases items@.len() - i,
            {
                let level = match &items[i] {
                    Json::Number(number) => match number.double {
                        Some(level) => level.clamp_to_unit_range(),
                        None => Double { bits: 0 },
                    },
                    _ => Double { bits: 0 },
                };
                assert(items@[i as int].is_finite());
                assert(level == band_level(items@[i as int].model()));
                proof {
                    lemma_band_level(items@[i as int]);
                }
                res.push(nearest_single(level));
                i += 1;
            }
            Some(res)
        },
        _ => None,
    }
}

/// The level of a band is between zero and one.
proof fn lemma_band_level(item: Json)
    requires
        item.is_finite(),
    ensures
        band_level(item.model())@.in_unit_range(),
{
    let zero = Double { bits: 0 };
    double::lemma_magnitude_sign(zero);
    vstd::arithmetic::power2::lemma_pow2_pos(1074);
    assert(zero@ == double::DoubleModel::Finite(0));
    if let Json::Number(number) = item {
        if let Some(level) = number.double {
            double::lemma_clamped(level);
        }
    }
}

/// Parses a spectrum JSON array (as produced by the native layer) into
/// normalized band levels.
pub fn parse_spectrum(json_text: &str) -> (res: Option<Vec<Single>>)
    ensures
        is_spectrum(text_levels(json_text@), res),
{
    match parser::parse_json_text(json_text) {
        Some(payload) => spectrum_levels(&payload),
        None => None,
    }
}

/// The levels in a text, where it is a spectrum payload.
pub open spec fn text_levels(json_text: Seq<char>) -> Option<Seq<Double>> {
    match parser::text_document(json_text) {
        Some(payload) => band_levels(payload),
        None => None,
    }
}

/// The levels in what the native layer answered: none where it did not, where
/// the bytes are not UTF-8 text, or where the text is no spectrum payload.
pub open spec fn reply_levels(reply: Option<Seq<u8>>) -> Option<Seq<Double>> {
    match reply {
        Some(bytes) => if utf8::valid_utf8(bytes) {
            text_levels(utf8::decode_utf8(bytes))
        } else {
            None
        },
        None => None,
    }
}

impl Spectrum {
    /// Returns the latest 11-band spectrum as normalized levels in [0, 1],
    /// ordered low to high frequency. `None` when the session died.
    ///
    /// `native_fetch` takes the handle and returns the bytes of the native
    /// layer's JSON, or nothing where it returned none.
    pub fn fetch<F: FnOnce(u64) -> Option<Vec<u8>>>(&self, native_fetch: F) -> (res: Option<
        Vec<Single>,
    >)
        requires
            native_fetch.requires((self.handle,)),
        ensures
            exists|reply: Option<Vec<u8>>|
                {
                    &&& #[trigger] native_fetch.ensures((self.handle,), reply)
                    &&& is_spectrum(reply_levels(session::buffer_view(reply)), res)
                },
    {
        let reply = native_fetch(self.handle);
        match &reply {
            Some(bytes) => match text::utf8_text(bytes.as_slice()) {
                Some(json_text) => {
                    proof {
                        utf8::encode_utf8_decode_utf8(json_text@);
                    }
                    parse_spectrum(json_text)
                },
                None => None,
            },
            None => None,
        }
    }
}

// ------------------------------------------------------ permission, start

/// Interprets the native layer's answer on whether Screen Recording permission
/// is already granted for the calling process.
pub fn spectrum_permission_granted(status: i32) -> (res: bool)
    ensures
        res == (status != 0),
{
    status != 0
}

/// Interprets the native layer's answer to a request for Screen Recording
/// permission.
pub fn spectrum_request_permission(status: i32) -> (res: bool)
    ensures
        res == (status != 0),
{
    status != 0
}

/// The spectrum of a native handle, where the handle is one.
pub open spec fn spectrum_of(handle: u64) -> Option<Spectrum> {
    if handle == 0 {
        None
    } else {
        Some(Spectrum { handle })
    }
}

/// Starts capturing system-output audio for spectral analysis through
/// `native_start`, which returns a handle, or zero where it did not start.
/// Nothing is started, and so nothing is prompted, without the permission.
pub fn spectrum_start<S: FnOnce() -> u64>(permission_granted: bool, native_start: S) -> (res: Option<
    Spectrum,
>)
    requires
        permission_granted ==> native_start.requires(()),
    ensures
        if permission_granted {
            exists|handle: u64|
                #[trigger] native_start.ensures((), handle) && res == spectrum_of(handle)
        } else {
            res is None
        },
{
    if !permission_granted {
        return None;
    }
    spectrum_start_with_existing_consent(native_start())
}

/// The spectrum that the native layer started after a host app confirmed
/// durable user consent, by the handle it returned, which is zero where it did
/// not start.
pub fn spectrum_start_with_existing_consent(handle: u64) -> (res: Option<Spectrum>)
    ensures
        res == spectrum_of(handle),
{
    if handle == 0 {
        None
    } else {
        Some(Spectrum { handle })
    }
}

// ------------------------------------------------------------------- laws

/// A spectrum has one level per band, eleven in all, and each of them is
/// between zero and one.
pub proof fn law_spectra_are_normalized(payload: JsonModel, res: Option<Vec<Single>>)
    requires
        is_spectrum(band_levels(payload), res),
    ensures
        res matches Some(levels) ==> {
            &&& levels@.len() == 11
            &&& forall|i: int| 0 <= i < 11 ==> (#[trigger] levels@[i]).in_unit_range()
        },
{
}

/// A payload with another number of items, or that is no array, is no spectrum.
pub proof fn law_wrong_band_counts_are_rejected(payload: JsonModel)
    requires
        payload matches JsonModel::Array(items) ==> items.len() != 11,
    ensures
        band_levels(payload) is None,
{
}

} // verus!
