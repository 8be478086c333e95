//! The staged MediaRemoteAdapter: how it is asked, and what its answers mean.

use vstd::prelude::*;
use vstd::string::*;
use vstd::utf8;

use crate::double::Double;
use crate::json::{Json, JsonModel};
use crate::now_playing;
use crate::now_playing::{checked_pid, checked_time, NowPlaying, NowPlayingModel};
use crate::parser;
use crate::session;
use crate::staging;
use crate::staging::{adapter_arguments, AdapterRequest};
use crate::text;

verus! {

/// Upper bound for adapter output; larger output is treated as corrupt.
pub const MAX_ADAPTER_OUTPUT_BYTES: usize = 1536 * 1024;

/// Upper bound for base64 artwork payloads; larger covers are dropped.
pub const MAX_ARTWORK_BASE64_BYTES: usize = 1024 * 1024;

// ----------------------------------------------------- payloads: the model

/// A member's string without white space around it, where anything is left.
pub open spec fn trimmed_text(payload: JsonModel, key: Seq<char>) -> Option<Seq<char>> {
    match payload.text_at(key) {
        Some(value) => if text::trim(value).len() > 0 {
            Some(text::trim(value))
        } else {
            None
        },
        None => None,
    }
}

/// A member's string as it is, where it is more than white space.
pub open spec fn nonblank_text(payload: JsonModel, key: Seq<char>) -> Option<Seq<char>> {
    match payload.text_at(key) {
        Some(value) => if text::trim(value).len() > 0 {
            Some(value)
        } else {
            None
        },
        None => None,
    }
}

/// The time of a member that is one.
pub open spec fn seconds_at(payload: JsonModel, key: Seq<char>) -> Option<Double> {
    now_playing::valid_time(payload.double_at(key))
}

/// The data URL of a cover: a declared image of bounded size.
pub open spec fn artwork_url(data: Option<Seq<char>>, mime: Option<Seq<char>>) -> Option<
    Seq<char>,
> {
    match (data, mime) {
        (Some(data), Some(mime)) => if "image/"@.is_prefix_of(mime) && utf8::encode_utf8(data).len()
            <= MAX_ARTWORK_BASE64_BYTES {
            Some("data:"@ + mime + ";base64,"@ + data)
        } else {
            None
        },
        _ => None,
    }
}

/// The playback state: the flag, or else whether the rate is positive.
pub open spec fn playing_state(playing: Option<bool>, rate: Option<Double>) -> Option<bool> {
    match (playing, rate) {
        (Some(flag), _) => Some(flag),
        (None, Some(rate)) => Some(rate@.above_zero()),
        (None, None) => None,
    }
}

/// Whether the payload holds any metadata at all.
pub open spec fn has_metadata(payload: JsonModel) -> bool {
    ||| trimmed_text(payload, "title"@) is Some
    ||| trimmed_text(payload, "artist"@) is Some
    ||| trimmed_text(payload, "album"@) is Some
    ||| nonblank_text(payload, "uniqueIdentifier"@) is Some
    ||| nonblank_text(payload, "contentItemIdentifier"@) is Some
    ||| payload.integer_at("mediaType"@) is Some
}

/// The metadata in a payload of the adapter.
pub open spec fn adapter_payload(payload: JsonModel) -> Option<NowPlayingModel> {
    if has_metadata(payload) {
        Some(
            NowPlayingModel {
                title: trimmed_text(payload, "title"@),
                artist: trimmed_text(payload, "artist"@),
                album: trimmed_text(payload, "album"@),
                app_name: trimmed_text(payload, "applicationName"@),
                bundle_id: trimmed_text(payload, "bundleIdentifier"@),
                unique_identifier: nonblank_text(payload, "uniqueIdentifier"@),
                content_item_identifier: nonblank_text(payload, "contentItemIdentifier"@),
                media_type: payload.integer_at("mediaType"@),
                pid: now_playing::valid_pid(payload.integer_at("processIdentifier"@)),
                elapsed_seconds: match seconds_at(payload, "elapsedTimeNow"@) {
                    Some(seconds) => Some(seconds),
                    None => seconds_at(payload, "elapsedTime"@),
                },
                duration_seconds: seconds_at(payload, "duration"@),
                is_playing: playing_state(
                    payload.bool_at("playing"@),
                    payload.double_at("playbackRate"@),
                ),
                artwork_data_url: artwork_url(
                    trimmed_text(payload, "artworkData"@),
                    trimmed_text(payload, "artworkMimeType"@),
                ),
                is_liked: payload.bool_at("isLiked"@),
                is_disliked: payload.bool_at("isBanned"@),
                supports_like: payload.bool_at("supportsIsLiked"@) == Some(true),
                supports_dislike: payload.bool_at("supportsIsBanned"@) == Some(true),
            },
        )
    } else {
        None
    }
}

/// The metadata in what the adapter wrote before it ended: none where it wrote
/// too much, ended with a failure, or did not write JSON.
pub open spec fn adapter_output(output: Seq<u8>, succeeded: bool) -> Option<NowPlayingModel> {
    if output.len() > MAX_ADAPTER_OUTPUT_BYTES || !succeeded {
        None
    } else {
        match parser::bytes_document(output) {
            Some(payload) => adapter_payload(payload),
            None => None,
        }
    }
}

// ------------------------------------------------- payloads: the functions

/// The string of a member without white space around it, where anything is
/// left.
pub fn adapter_string(payload: &Json, key: &str) -> (res: Option<String>)
    ensures
        text::string_view(res) == trimmed_text(payload.model(), key@),
{
    match payload.text_at(key) {
        Some(value) => {
            let chars = text::chars_of(value.as_str());
            let trimmed = text::trim_chars(chars.as_slice());
            if trimmed.len() == 0 {
                None
            } else {
                Some(text::string_of(trimmed))
            }
        },
        None => None,
    }
}

/// The string of a member as it is, where it is more than white space.
pub fn adapter_identifier(payload: &Json, key: &str) -> (res: Option<String>)
    ensures
        text::string_view(res) == nonblank_text(payload.model(), key@),
{
    match payload.text_at(key) {
        Some(value) => {
            let chars = text::chars_of(value.as_str());
            if text::trim_chars(chars.as_slice()).len() == 0 {
                None
            } else {
                Some(value.clone())
            }
        },
        None => None,
    }
}

/// The time of a member that is one.
pub fn adapter_seconds(payload: &Json, key: &str) -> (res: Option<Double>)
    ensures
        res == seconds_at(payload.model(), key@),
{
    checked_time(payload.double_at(key))
}

/// The data URL of a cover: a declared image of bounded size.
pub fn artwork_data_url(data: Option<String>, mime: Option<String>) -> (res: Option<String>)
    ensures
        text::string_view(res) == artwork_url(text::string_view(data), text::string_view(mime)),
{
    match (data, mime) {
        (Some(data), Some(mime)) => {
            let is_image = text::starts_with(
                text::chars_of(mime.as_str()).as_slice(),
                text::chars_of("image/").as_slice(),
            );
            if is_image && data.as_str().as_bytes().len() <= MAX_ARTWORK_BASE64_BYTES {
                let mut url = "data:".to_owned();
                url.append(mime.as_str());
                url.append(";base64,");
                url.append(data.as_str());
                Some(url)
            } else {
                None
            }
        },
        _ => None,
    }
}

/// Parses the adapter's JSON payload into a [`NowPlaying`]. Payloads without
/// any metadata are rejected so empty sessions do not shadow the fallback.
pub fn parse_adapter_now_playing(payload: &Json) -> (res: Option<NowPlaying>)
    ensures
        now_playing::snapshot_view(res) == adapter_payload(payload.model()),
{
    let title = adapter_string(payload, "title");
    let artist = adapter_string(payload, "artist");
    let album = adapter_string(payload, "album");
    let unique_identifier = adapter_identifier(payload, "uniqueIdentifier");
    let content_item_identifier = adapter_identifier(payload, "contentItemIdentifier");
    let media_type = payload.integer_at("mediaType");
    if title.is_none() && artist.is_none() && album.is_none() && unique_identifier.is_none()
        && content_item_identifier.is_none() && media_type.is_none() {
        return None;
    }
    let elapsed_seconds = match adapter_seconds(payload, "elapsedTimeNow") {
        Some(seconds) => Some(seconds),
        None => adapter_seconds(payload, "elapsedTime"),
    };
    let is_playing = match payload.bool_at("playing") {
        Some(flag) => Some(flag),
        None => match payload.double_at("playbackRate") {
            Some(rate) => Some(rate.above_zero()),
            None => None,
        },
    };
    Some(
        NowPlaying {
            title,
            artist,
            album,
            app_name: adapter_string(payload, "applicationName"),
            bundle_id: adapter_string(payload, "bundleIdentifier"),
            unique_identifier,
            content_item_identifier,
            media_type,
            pid: checked_pid(payload.integer_at("processIdentifier")),
            elapsed_seconds,
            duration_seconds: adapter_seconds(payload, "duration"),
            is_playing,
            artwork_data_url: artwork_data_url(
                adapter_string(payload, "artworkData"),
                adapter_string(payload, "artworkMimeType"),
            ),
            is_liked: payload.bool_at("isLiked"),
            is_disliked: payload.bool_at("isBanned"),
            supports_like: payload.bool_at("supportsIsLiked").unwrap_or(false),
            supports_dislike: payload.bool_at("supportsIsBanned").unwrap_or(false),
        },
    )
}

/// Whether the adapter is stopped instead of waited for: its output could not
/// be read, or is larger than it may be.
pub open spec fn output_rejected(output: Option<Seq<u8>>) -> bool {
    match output {
        Some(bytes) => bytes.len() > MAX_ADAPTER_OUTPUT_BYTES,
        None => true,
    }
}

/// Parses what the adapter wrote. Output beyond [`MAX_ADAPTER_OUTPUT_BYTES`] or
/// a nonzero exit is rejected.
pub fn parse_adapter_output(output: &[u8], succeeded: bool) -> (res: Option<NowPlaying>)
    ensures
        now_playing::snapshot_view(res) == adapter_output(output@, succeeded),
{
    if output.len() > MAX_ADAPTER_OUTPUT_BYTES || !succeeded {
        return None;
    }
    match parser::parse_json_bytes(output) {
        Some(payload) => parse_adapter_now_playing(&payload),
        None => None,
    }
}

/// Whether `run` can have answered so when it was asked for the current payload
/// and for no more bytes than tell that there are too many.
pub open spec fn ran<R: FnOnce(Vec<String>, usize) -> Option<Option<Vec<u8>>>>(
    run: R,
    answer: Option<Option<Vec<u8>>>,
) -> bool {
    exists|arguments: Vec<String>|
        {
            &&& #[trigger] run.ensures(
                (arguments, (MAX_ADAPTER_OUTPUT_BYTES + 1) as usize),
                answer,
            )
            &&& staging::strings_view(arguments@) == staging::request_arguments(
                AdapterRequest::Get,
            )
        }
}

/// Reads the current payload through the staged adapter. Output beyond
/// [`MAX_ADAPTER_OUTPUT_BYTES`] or a nonzero exit is rejected.
///
/// `run` runs the adapter with the given arguments and reads no more than the
/// given number of bytes from it: it returns nothing where no adapter is staged
/// or it could not be started, and otherwise the bytes, or nothing where they
/// could not be read. After that the adapter is either ended by `stop` or waited
/// for by `wait`, which returns whether it succeeded, or nothing where that could
/// not be told.
pub fn read_adapter_now_playing<
    R: FnOnce(Vec<String>, usize) -> Option<Option<Vec<u8>>>,
    S: FnOnce(),
    W: FnOnce() -> Option<bool>,
>(run: R, stop: S, wait: W) -> (res: Option<NowPlaying>)
    requires
        forall|arguments: Vec<String>|
            staging::strings_view(arguments@) == staging::request_arguments(AdapterRequest::Get)
                ==> #[trigger] run.requires((arguments, (MAX_ADAPTER_OUTPUT_BYTES + 1) as usize)),
        forall|output: Option<Vec<u8>>| #[trigger]
            ran(run, Some(output)) ==> if output_rejected(session::buffer_view(output)) {
                stop.requires(())
            } else {
                wait.requires(())
            },
    ensures
        exists|answer: Option<Option<Vec<u8>>>|
            {
                &&& #[trigger] ran(run, answer)
                &&& match answer {
                    None => res is None,
                    Some(output) => if output_rejected(session::buffer_view(output)) {
                        res is None && stop.ensures((), ())
                    } else {
                        exists|ended: Option<bool>|
                            {
                                &&& #[trigger] wait.ensures((), ended)
                                &&& now_playing::snapshot_view(res) == adapter_output(
                                    output->0@,
                                    ended == Some(true),
                                )
                            }
                    },
                }
            },
{
    let arguments = adapter_arguments(AdapterRequest::Get);
    let answer = run(arguments, MAX_ADAPTER_OUTPUT_BYTES + 1);
    assert(ran(run, answer));
    match answer {
        None => None,
        Some(Some(bytes)) if bytes.len() <= MAX_ADAPTER_OUTPUT_BYTES => {
            let ended = wait();
            parse_adapter_output(bytes.as_slice(), ended.unwrap_or(false))
        },
        Some(_) => {
            stop();
            None
        },
    }
}

// ------------------------------------------------------------------- laws

/// Neither path lets an invalid value through: times are finite and not
/// negative, process identifiers positive.
pub proof fn law_snapshots_are_valid(payload: JsonModel)
    ensures
        now_playing::direct_now_playing(payload) matches Some(now_playing)
            ==> now_playing.is_valid(),
        adapter_payload(payload) matches Some(now_playing) ==> now_playing.is_valid(),
{
}

/// A snapshot of the adapter holds metadata: a title, an artist, an album, an
/// identifier or a media type.
pub proof fn law_adapter_snapshots_hold_metadata(payload: JsonModel)
    ensures
        adapter_payload(payload) matches Some(now_playing) ==> {
            ||| now_playing.title is Some
            ||| now_playing.artist is Some
            ||| now_playing.album is Some
            ||| now_playing.unique_identifier is Some
            ||| now_playing.content_item_identifier is Some
            ||| now_playing.media_type is Some
        },
{
}

/// Whether a text is there and neither starts nor ends with white space.
pub open spec fn is_trimmed(field: Option<Seq<char>>) -> bool {
    field matches Some(value) ==> {
        &&& value.len() > 0
        &&& !text::is_white_space(value.first())
        &&& !text::is_white_space(value.last())
    }
}

/// The descriptive texts of the adapter's snapshots are never blank and never
/// padded.
pub proof fn law_adapter_texts_are_trimmed(payload: JsonModel)
    ensures
        adapter_payload(payload) matches Some(now_playing) ==> {
            &&& is_trimmed(now_playing.title)
            &&& is_trimmed(now_playing.artist)
            &&& is_trimmed(now_playing.album)
            &&& is_trimmed(now_playing.app_name)
            &&& is_trimmed(now_playing.bundle_id)
        },
{
    lemma_trimmed_text(payload, "title"@);
    lemma_trimmed_text(payload, "artist"@);
    lemma_trimmed_text(payload, "album"@);
    lemma_trimmed_text(payload, "applicationName"@);
    lemma_trimmed_text(payload, "bundleIdentifier"@);
}

proof fn lemma_trimmed_text(payload: JsonModel, key: Seq<char>)
    ensures
        is_trimmed(trimmed_text(payload, key)),
{
    if let Some(value) = payload.text_at(key) {
        text::lemma_trim_ends(value);
    }
}

/// Cover art is a data URL of a declared image and of bounded size, and comes
/// from the adapter only.
pub proof fn law_artwork_is_bounded(payload: JsonModel)
    ensures
        now_playing::direct_now_playing(payload) matches Some(now_playing)
            ==> now_playing.artwork_data_url is None,
        adapter_payload(payload) matches Some(now_playing) ==> (
        now_playing.artwork_data_url matches Some(url) ==> exists|mime: Seq<char>, data: Seq<char>|
            {
                &&& #[trigger] ("data:"@ + mime + ";base64,"@ + data) == url
                &&& "image/"@.is_prefix_of(mime)
                &&& utf8::encode_utf8(data).len() <= 1024 * 1024
            }),
{
}

/// Whether a text is missing or nothing but white space.
pub open spec fn is_blank(field: Option<Seq<char>>) -> bool {
    field matches Some(value) ==> text::trim(value).len() == 0
}

/// Payloads without any metadata leave the direct path to answer, whatever else
/// they hold.
pub proof fn law_empty_sessions_are_rejected(payload: JsonModel)
    requires
        is_blank(payload.text_at("title"@)),
        is_blank(payload.text_at("artist"@)),
        is_blank(payload.text_at("album"@)),
        is_blank(payload.text_at("uniqueIdentifier"@)),
        is_blank(payload.text_at("contentItemIdentifier"@)),
        payload.integer_at("mediaType"@) is None,
    ensures
        adapter_payload(payload) is None,
{
}

/// Payloads that are no objects hold nothing on either path.
pub proof fn law_only_objects_are_payloads(payload: JsonModel)
    requires
        payload !is Object,
    ensures
        now_playing::direct_now_playing(payload) is None,
        adapter_payload(payload) is None,
{
}

} // verus!
