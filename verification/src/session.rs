//! One point-in-time read of the system media session.

use vstd::prelude::*;

use crate::double;
use crate::double::Double;
use crate::now_playing;
use crate::now_playing::{parse_json_c_string, NowPlaying};
use crate::transport;
use crate::transport::Capabilities;

verus! {

/// Combined media state for one point-in-time read.
#[derive(Debug, PartialEq)]
pub struct MediaSnapshot {
    pub now_playing: Option<NowPlaying>,
    pub capabilities: Capabilities,
    pub output_volume: Option<Double>,
}

impl Clone for MediaSnapshot {
    fn clone(&self) -> (res: Self)
        ensures
            now_playing::snapshot_view(res.now_playing) == now_playing::snapshot_view(
                self.now_playing,
            ),
            res.capabilities == self.capabilities,
            res.output_volume == self.output_volume,
    {
        MediaSnapshot {
            now_playing: now_playing::copy_of(&self.now_playing),
            capabilities: self.capabilities,
            output_volume: self.output_volume,
        }
    }
}

// --------------------------------------------------------------- metadata

/// The whole milliseconds of a duration, as far as 32 bits hold them.
pub open spec fn duration_millis(secs: u64, subsec_nanos: u32) -> int {
    let millis = secs * 1000 + subsec_nanos / 1_000_000;
    if millis <= u32::MAX {
        millis
    } else {
        u32::MAX as int
    }
}

/// The whole milliseconds of a duration for the native layer; durations that 32
/// bits do not hold are cut to the longest that they do.
pub fn timeout_ms(secs: u64, subsec_nanos: u32) -> (res: u32)
    ensures
        res == duration_millis(secs, subsec_nanos),
{
    let millis: u128 = secs as u128 * 1000 + (subsec_nanos / 1_000_000) as u128;
    if millis <= u32::MAX as u128 {
        millis as u32
    } else {
        u32::MAX
    }
}

/// Interprets the native layer's answer on runtime MediaRemote metadata access.
pub fn now_playing_available(status: i32) -> (res: bool)
    ensures
        res == (status != 0),
{
    status != 0
}

/// The bytes of an optional buffer.
pub open spec fn buffer_view(buffer: Option<Vec<u8>>) -> Option<Seq<u8>> {
    match buffer {
        Some(bytes) => Some(bytes@),
        None => None,
    }
}

/// Fetches the current Now Playing snapshot: the adapter's where it has one, and
/// otherwise what the native layer answers. Returns `None` when neither has
/// anything, or the answer did not arrive in time.
///
/// `direct` takes the timeout in milliseconds and returns the bytes of the
/// native layer's JSON, or nothing where it returned none.
pub fn now_playing_fetch<D: FnOnce(u32) -> Option<Vec<u8>>>(
    timeout_secs: u64,
    timeout_subsec_nanos: u32,
    adapter: Option<NowPlaying>,
    direct: D,
) -> (res: Option<NowPlaying>)
    requires
        adapter is None ==> direct.requires(
            (duration_millis(timeout_secs, timeout_subsec_nanos) as u32,),
        ),
    ensures
        match adapter {
            Some(_) => res == adapter,
            None => exists|reply: Option<Vec<u8>>|
                {
                    &&& #[trigger] direct.ensures(
                        (duration_millis(timeout_secs, timeout_subsec_nanos) as u32,),
                        reply,
                    )
                    &&& now_playing::snapshot_view(res) == now_playing::native_now_playing(
                        buffer_view(reply),
                    )
                },
        },
{
    if adapter.is_some() {
        return adapter;
    }
    let reply = direct(timeout_ms(timeout_secs, timeout_subsec_nanos));
    match &reply {
        Some(bytes) => parse_json_c_string(Some(bytes.as_slice())),
        None => parse_json_c_string(None),
    }
}

// ----------------------------------------------------------------- volume

/// Whether a volume is a number between zero and one.
pub fn valid_output_volume(volume: Double) -> (res: bool)
    ensures
        res == volume@.in_unit_range(),
{
    volume.is_finite() && volume.at_least_zero() && !volume.above_one()
}

/// The volume that a device reports, moved into the range from zero to one;
/// none where it reports none or nothing finite.
pub open spec fn reported_volume(status: i32, volume: Double) -> Option<Double> {
    if status != 0 && volume@ is Finite {
        Some(volume.clamped())
    } else {
        None
    }
}

/// Reads the default system output volume as a normalized scalar in [0, 1] from
/// what the native layer answered and wrote. Returns `None` when the platform
/// or output device does not expose a readable scalar volume control.
pub fn output_volume(status: i32, volume: Double) -> (res: Option<Double>)
    ensures
        res == reported_volume(status, volume),
{
    if status != 0 && volume.is_finite() {
        Some(volume.clamp_to_unit_range())
    } else {
        None
    }
}

/// Sets the default system output volume as a normalized scalar in [0, 1]
/// through `native_set`, which answers with zero where it did not. Invalid
/// values and unavailable or read-only devices return `false`; invalid values
/// do not reach the device.
pub fn set_output_volume<S: FnOnce(Double) -> i32>(volume: Double, native_set: S) -> (res: bool)
    requires
        volume@.in_unit_range() ==> native_set.requires((volume,)),
    ensures
        if volume@.in_unit_range() {
            exists|status: i32|
                #[trigger] native_set.ensures((volume,), status) && res == (status != 0)
        } else {
            !res
        },
{
    valid_output_volume(volume) && native_set(volume) != 0
}

/// A volume that was read is between zero and one, and so can be set again; one
/// that the device reports there is read as it is.
pub proof fn law_read_volumes_can_be_set(status: i32, volume: Double)
    ensures
        reported_volume(status, volume) matches Some(level) ==> level@.in_unit_range(),
        status != 0 && volume@.in_unit_range() ==> reported_volume(status, volume) == Some(volume),
{
    if volume@ is Finite {
        double::lemma_clamped(volume);
    }
}

// --------------------------------------------------------------- snapshot

/// Puts metadata, transport capabilities, and default-output volume together.
/// Individual unavailable values remain as they are rather than invalidating
/// the rest of the snapshot.
pub fn compose_media_snapshot(
    now_playing: Option<NowPlaying>,
    capabilities: Capabilities,
    output_volume: Option<Double>,
) -> (res: MediaSnapshot)
    ensures
        res.now_playing == now_playing,
        res.capabilities == capabilities,
        res.output_volume == output_volume,
{
    MediaSnapshot { now_playing, capabilities, output_volume }
}

/// Reads metadata, transport capabilities, and default-output volume for one
/// point-in-time media snapshot. Individual unavailable values remain as they
/// are rather than invalidating the rest of the snapshot.
pub fn media_snapshot<
    F: FnOnce(u64, u32) -> Option<NowPlaying>,
    C: FnOnce() -> Capabilities,
    V: FnOnce() -> Option<Double>,
>(
    timeout_secs: u64,
    timeout_subsec_nanos: u32,
    fetch: F,
    capabilities: C,
    volume: V,
) -> (res: MediaSnapshot)
    requires
        fetch.requires((timeout_secs, timeout_subsec_nanos)),
        capabilities.requires(()),
        volume.requires(()),
    ensures
        fetch.ensures((timeout_secs, timeout_subsec_nanos), res.now_playing),
        capabilities.ensures((), res.capabilities),
        volume.ensures((), res.output_volume),
{
    let now_playing = fetch(timeout_secs, timeout_subsec_nanos);
    let capabilities = capabilities();
    compose_media_snapshot(now_playing, capabilities, volume())
}

/// Where the native layer has nothing and no adapter is staged, nothing is
/// reported: no metadata, no volume, no capability.
pub proof fn law_unavailable_systems_report_nothing(volume: Double, codes: Seq<u32>, count: i32)
    ensures
        now_playing::native_now_playing(None) is None,
        reported_volume(0, volume) is None,
        transport::session_capabilities(false, transport::discovered_codes(codes, count), false)
            == (Capabilities {
            play_pause: false,
            previous: false,
            next: false,
            like: false,
            dislike: false,
        }),
{
}

} // verus!
