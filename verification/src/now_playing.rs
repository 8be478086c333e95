//! Now Playing metadata, and how it is read from and written to JSON.

use vstd::prelude::*;
use vstd::utf8;

use crate::double::Double;
use crate::json::{Json, JsonModel, JsonNumber};
use crate::parser;
use crate::text;

verus! {

/// Current Now Playing metadata as exposed by the system media session.
#[derive(Debug, PartialEq)]
pub struct NowPlaying {
    /// Title of the current track, when reported.
    pub title: Option<String>,
    /// Artist of the current track, when reported.
    pub artist: Option<String>,
    /// Album of the current track, when reported.
    pub album: Option<String>,
    /// Localized name of the owning application, when resolvable.
    pub app_name: Option<String>,
    /// Bundle identifier of the owning application, when resolvable.
    pub bundle_id: Option<String>,
    /// MediaRemote's stable identifier for the active item, when reported.
    pub unique_identifier: Option<String>,
    /// Content catalog identifier for the active item, when reported.
    pub content_item_identifier: Option<String>,
    /// MediaPlayer media type (`1` audio, `2` video), when reported.
    pub media_type: Option<i64>,
    /// Process identifier of the owning application. Best-effort: some
    /// browser sessions expose metadata but withhold the PID.
    pub pid: Option<i32>,
    /// Elapsed playback position in seconds.
    pub elapsed_seconds: Option<Double>,
    /// Total track duration in seconds.
    pub duration_seconds: Option<Double>,
    /// Playback state. `None` when the session exposes no rate or playing flag.
    pub is_playing: Option<bool>,
    /// Cover art as a bounded `data:<mime>;base64,<data>` URL. Populated only
    /// by the adapter path; the direct MediaRemote path never yields it.
    pub artwork_data_url: Option<String>,
    /// Current positive rating, when exposed by the active media session.
    pub is_liked: Option<bool>,
    /// Current negative rating, when exposed by the active media session.
    pub is_disliked: Option<bool>,
    /// Whether the active media session accepts a positive rating command.
    pub supports_like: bool,
    /// Whether the active media session accepts a negative rating command.
    pub supports_dislike: bool,
}

/// [`NowPlaying`] with its strings as sequences of characters.
pub struct NowPlayingModel {
    pub title: Option<Seq<char>>,
    pub artist: Option<Seq<char>>,
    pub album: Option<Seq<char>>,
    pub app_name: Option<Seq<char>>,
    pub bundle_id: Option<Seq<char>>,
    pub unique_identifier: Option<Seq<char>>,
    pub content_item_identifier: Option<Seq<char>>,
    pub media_type: Option<i64>,
    pub pid: Option<i32>,
    pub elapsed_seconds: Option<Double>,
    pub duration_seconds: Option<Double>,
    pub is_playing: Option<bool>,
    pub artwork_data_url: Option<Seq<char>>,
    pub is_liked: Option<bool>,
    pub is_disliked: Option<bool>,
    pub supports_like: bool,
    pub supports_dislike: bool,
}

impl View for NowPlaying {
    type V = NowPlayingModel;

    open spec fn view(&self) -> NowPlayingModel {
        NowPlayingModel {
            title: text::string_view(self.title),
            artist: text::string_view(self.artist),
            album: text::string_view(self.album),
            app_name: text::string_view(self.app_name),
            bundle_id: text::string_view(self.bundle_id),
            unique_identifier: text::string_view(self.unique_identifier),
            content_item_identifier: text::string_view(self.content_item_identifier),
            media_type: self.media_type,
            pid: self.pid,
            elapsed_seconds: self.elapsed_seconds,
            duration_seconds: self.duration_seconds,
            is_playing: self.is_playing,
            artwork_data_url: text::string_view(self.artwork_data_url),
            is_liked: self.is_liked,
            is_disliked: self.is_disliked,
            supports_like: self.supports_like,
            supports_dislike: self.supports_dislike,
        }
    }
}

// ----------------------------------------------------------------- models

/// An optional snapshot with its strings as sequences of characters.
pub open spec fn snapshot_view(snapshot: Option<NowPlaying>) -> Option<NowPlayingModel> {
    match snapshot {
        Some(now_playing) => Some(now_playing@),
        None => None,
    }
}

/// A process identifier: a positive 32-bit integer.
pub open spec fn valid_pid(pid: Option<i64>) -> Option<i32> {
    match pid {
        Some(n) => if 0 < n <= i32::MAX {
            Some(n as i32)
        } else {
            None
        },
        None => None,
    }
}

/// A time in seconds: a finite number that is not negative.
pub open spec fn valid_time(time: Option<Double>) -> Option<Double> {
    match time {
        Some(seconds) => if seconds@.is_time() {
            Some(seconds)
        } else {
            None
        },
        None => None,
    }
}

/// The metadata in a now-playing payload of the direct MediaRemote path.
pub open spec fn direct_now_playing(payload: JsonModel) -> Option<NowPlayingModel> {
    if payload is Object {
        Some(
            NowPlayingModel {
                title: payload.text_at("title"@),
                artist: payload.text_at("artist"@),
                album: payload.text_at("album"@),
                app_name: payload.text_at("app_name"@),
                bundle_id: payload.text_at("bundle_id"@),
                unique_identifier: payload.text_at("unique_identifier"@),
                content_item_identifier: payload.text_at("content_item_identifier"@),
                media_type: payload.integer_at("media_type"@),
                pid: valid_pid(payload.integer_at("pid"@)),
                elapsed_seconds: valid_time(payload.double_at("elapsed_seconds"@)),
                duration_seconds: valid_time(payload.double_at("duration_seconds"@)),
                is_playing: payload.bool_at("is_playing"@),
                artwork_data_url: None,
                is_liked: payload.bool_at("is_liked"@),
                is_disliked: payload.bool_at("is_disliked"@),
                supports_like: payload.bool_at("supports_like"@) == Some(true),
                supports_dislike: payload.bool_at("supports_dislike"@) == Some(true),
            },
        )
    } else {
        None
    }
}

/// The bytes behind an optional slice.
pub open spec fn bytes_view(bytes: Option<&[u8]>) -> Option<Seq<u8>> {
    match bytes {
        Some(bytes) => Some(bytes@),
        None => None,
    }
}

/// The metadata in the bytes that the native layer hands out: none where there
/// are no bytes, where they are not UTF-8 text, or where the text is not a JSON
/// object.
pub open spec fn native_now_playing(json: Option<Seq<u8>>) -> Option<NowPlayingModel> {
    match json {
        Some(bytes) => if utf8::valid_utf8(bytes) {
            match parser::text_document(utf8::decode_utf8(bytes)) {
                Some(payload) => direct_now_playing(payload),
                None => None,
            }
        } else {
            None
        },
        None => None,
    }
}

impl NowPlayingModel {
    /// Whether no value is one that the parsers drop: times are finite and not
    /// negative, process identifiers positive.
    pub open spec fn is_valid(self) -> bool {
        &&& self.pid matches Some(pid) ==> pid > 0
        &&& self.elapsed_seconds matches Some(seconds) ==> seconds@.is_time()
        &&& self.duration_seconds matches Some(seconds) ==> seconds@.is_time()
    }
}

// ------------------------------------------------------------ executables

impl Clone for NowPlaying {
    fn clone(&self) -> (res: Self)
        ensures
            res@ == self@,
    {
        NowPlaying {
            title: text::copy_of(&self.title),
            artist: text::copy_of(&self.artist),
            album: text::copy_of(&self.album),
            app_name: text::copy_of(&self.app_name),
            bundle_id: text::copy_of(&self.bundle_id),
            unique_identifier: text::copy_of(&self.unique_identifier),
            content_item_identifier: text::copy_of(&self.content_item_identifier),
            media_type: self.media_type,
            pid: self.pid,
            elapsed_seconds: self.elapsed_seconds,
            duration_seconds: self.duration_seconds,
            is_playing: self.is_playing,
            artwork_data_url: text::copy_of(&self.artwork_data_url),
            is_liked: self.is_liked,
            is_disliked: self.is_disliked,
            supports_like: self.supports_like,
            supports_dislike: self.supports_dislike,
        }
    }
}

/// The same optional snapshot once more.
pub(crate) fn copy_of(snapshot: &Option<NowPlaying>) -> (res: Option<NowPlaying>)
    ensures
        snapshot_view(res) == snapshot_view(*snapshot),
{
    match snapshot {
        Some(now_playing) => Some(now_playing.clone()),
        None => None,
    }
}

/// The process identifier, where it is positive and fits 32 bits.
pub fn checked_pid(pid: Option<i64>) -> (res: Option<i32>)
    ensures
        res == valid_pid(pid),
{
    match pid {
        Some(n) => if 0 < n && n <= i32::MAX as i64 {
            Some(n as i32)
        } else {
            None
        },
        None => None,
    }
}

/// The time, where it is finite and not negative.
pub fn checked_time(time: Option<Double>) -> (res: Option<Double>)
    ensures
        res == valid_time(time),
{
    match time {
        Some(seconds) => if seconds.is_finite() && seconds.at_least_zero() {
            Some(seconds)
        } else {
            None
        },
        None => None,
    }
}

/// The string of a payload's member that is one.
fn text_field(payload: &Json, key: &str) -> (res: Option<String>)
    ensures
        text::string_view(res) == payload.model().text_at(key@),
{
    match payload.text_at(key) {
        Some(value) => Some(value.clone()),
        None => None,
    }
}

/// Parses a now-playing payload (the JSON of the native layer) into a
/// [`NowPlaying`]. Missing fields map to `None`; invalid values (negative or
/// non-finite times, non-positive PIDs) are dropped rather than propagated.
pub fn parse_now_playing(payload: &Json) -> (res: Option<NowPlaying>)
    ensures
        snapshot_view(res) == direct_now_playing(payload.model()),
{
    match payload {
        Json::Object(_) => {},
        _ => {
            return None;
        },
    }
    Some(
        NowPlaying {
            title: text_field(payload, "title"),
            artist: text_field(payload, "artist"),
            album: text_field(payload, "album"),
            app_name: text_field(payload, "app_name"),
            bundle_id: text_field(payload, "bundle_id"),
            unique_identifier: text_field(payload, "unique_identifier"),
            content_item_identifier: text_field(payload, "content_item_identifier"),
            media_type: payload.integer_at("media_type"),
            pid: checked_pid(payload.integer_at("pid")),
            elapsed_seconds: checked_time(payload.double_at("elapsed_seconds")),
            duration_seconds: checked_time(payload.double_at("duration_seconds")),
            is_playing: payload.bool_at("is_playing"),
            // The direct MediaRemote path exposes no artwork.
            artwork_data_url: None,
            is_liked: payload.bool_at("is_liked"),
            is_disliked: payload.bool_at("is_disliked"),
            supports_like: payload.bool_at("supports_like").unwrap_or(false),
            supports_dislike: payload.bool_at("supports_dislike").unwrap_or(false),
        },
    )
}

/// Parses the bytes of a JSON C string of the native layer into a
/// [`NowPlaying`]. `None` stands for a null pointer.
pub fn parse_json_c_string(json: Option<&[u8]>) -> (res: Option<NowPlaying>)
    ensures
        snapshot_view(res) == native_now_playing(bytes_view(json)),
{
    let bytes = match json {
        Some(bytes) => bytes,
        None => {
            return None;
        },
    };
    let json_text = match text::utf8_text(bytes) {
        Some(json_text) => json_text,
        None => {
            return None;
        },
    };
    proof {
        utf8::encode_utf8_decode_utf8(json_text@);
    }
    match parser::parse_json_text(json_text) {
        Some(payload) => parse_now_playing(&payload),
        None => None,
    }
}

} // verus!
