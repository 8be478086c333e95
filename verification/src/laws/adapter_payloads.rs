//! What the adapter's payloads become, member by member, and how it is run.

use vstd::prelude::*;
use vstd::utf8;

use crate::adapter;
use crate::cache;
use crate::cache::AdapterCache;
use crate::double::Double;
use crate::json::{Json, JsonModel};
use crate::laws::payloads;
use crate::now_playing;
use crate::now_playing::NowPlaying;
use crate::parser;
use crate::session;
use crate::staging;
use crate::text;

verus! {

// ---------------------------------------------------------------- payloads

/// Whether a member is a string that is more than white space.
pub open spec fn is_worded(members: Map<Seq<char>, JsonModel>, key: Seq<char>) -> bool {
    payloads::member_text(members, key) matches Some(value) && !payloads::all_white(value)
}

/// Whether the members hold any metadata.
pub open spec fn names_something(members: Map<Seq<char>, JsonModel>) -> bool {
    ||| is_worded(members, "title"@)
    ||| is_worded(members, "artist"@)
    ||| is_worded(members, "album"@)
    ||| is_worded(members, "uniqueIdentifier"@)
    ||| is_worded(members, "contentItemIdentifier"@)
    ||| payloads::member_integer(members, "mediaType"@) is Some
}

/// Whether `data` and `mime` are what the members say of a cover: declared as an
/// image, and both without the white space around them.
pub open spec fn is_image(
    members: Map<Seq<char>, JsonModel>,
    data: Seq<char>,
    mime: Seq<char>,
) -> bool {
    &&& payloads::member_text(members, "artworkData"@) matches Some(value) && payloads::is_core(
        value,
        data,
    )
    &&& data.len() > 0
    &&& payloads::member_text(members, "artworkMimeType"@) matches Some(value)
        && payloads::is_core(value, mime)
    &&& mime.len() >= 6
    &&& mime.take(6) == seq!['i', 'm', 'a', 'g', 'e', '/']
}

/// Whether a field is the data URL of the members' image, and empty where there
/// is none or it is larger than a mebibyte.
pub open spec fn is_cover_of(
    members: Map<Seq<char>, JsonModel>,
    field: Option<String>,
) -> bool {
    match field {
        Some(url) => exists|data: Seq<char>, mime: Seq<char>|
            {
                &&& #[trigger] is_image(members, data, mime)
                &&& utf8::encode_utf8(data).len() <= 0x10_0000
                &&& url@ == seq!['d', 'a', 't', 'a', ':'] + mime + seq![
                    ';',
                    'b',
                    'a',
                    's',
                    'e',
                    '6',
                    '4',
                    ',',
                ] + data
            },
        None => forall|data: Seq<char>, mime: Seq<char>| #[trigger]
            is_image(members, data, mime) ==> utf8::encode_utf8(data).len() > 0x10_0000,
    }
}

/// Whether a field is the position: the current one, and the one last reported
/// where that is missing or no time.
pub open spec fn is_elapsed_of(
    members: Map<Seq<char>, JsonModel>,
    field: Option<Double>,
) -> bool {
    match payloads::member_bits(members, "elapsedTimeNow"@) {
        Some(bits) => if payloads::time_bits(bits) {
            field == Some(Double { bits })
        } else {
            payloads::is_time_of(members, "elapsedTime"@, field)
        },
        None => payloads::is_time_of(members, "elapsedTime"@, field),
    }
}

/// Whether a field is the playing state: the flag, and whether the rate is
/// positive where there is no flag.
pub open spec fn is_playing_of(members: Map<Seq<char>, JsonModel>, field: Option<bool>) -> bool {
    match payloads::member_bool(members, "playing"@) {
        Some(flag) => field == Some(flag),
        None => match payloads::member_bits(members, "playbackRate"@) {
            Some(bits) => field == Some(payloads::positive_bits(bits)),
            None => field is None,
        },
    }
}

/// Whether a snapshot holds what the members of the adapter's payload say, each
/// field what its own member says.
pub open spec fn is_adapter_reading(
    members: Map<Seq<char>, JsonModel>,
    snapshot: NowPlaying,
) -> bool {
    &&& payloads::is_core_of(members, "title"@, snapshot.title)
    &&& payloads::is_core_of(members, "artist"@, snapshot.artist)
    &&& payloads::is_core_of(members, "album"@, snapshot.album)
    &&& payloads::is_core_of(members, "applicationName"@, snapshot.app_name)
    &&& payloads::is_core_of(members, "bundleIdentifier"@, snapshot.bundle_id)
    &&& payloads::is_identifier_of(members, "uniqueIdentifier"@, snapshot.unique_identifier)
    &&& payloads::is_identifier_of(
        members,
        "contentItemIdentifier"@,
        snapshot.content_item_identifier,
    )
    &&& snapshot.media_type == payloads::member_integer(members, "mediaType"@)
    &&& payloads::is_pid_of(members, "processIdentifier"@, snapshot.pid)
    &&& is_elapsed_of(members, snapshot.elapsed_seconds)
    &&& payloads::is_time_of(members, "duration"@, snapshot.duration_seconds)
    &&& is_playing_of(members, snapshot.is_playing)
    &&& is_cover_of(members, snapshot.artwork_data_url)
    &&& snapshot.is_liked == payloads::member_bool(members, "isLiked"@)
    &&& snapshot.is_disliked == payloads::member_bool(members, "isBanned"@)
    &&& snapshot.supports_like <==> payloads::member_bool(members, "supportsIsLiked"@) == Some(true)
    &&& snapshot.supports_dislike <==> payloads::member_bool(members, "supportsIsBanned"@) == Some(
        true,
    )
}

/// Whether a result is what a payload of the adapter says.
pub open spec fn is_adapter_answer(payload: JsonModel, res: Option<NowPlaying>) -> bool {
    match payload {
        JsonModel::Object(members) => if names_something(members) {
            res matches Some(snapshot) && is_adapter_reading(members, snapshot)
        } else {
            res is None
        },
        _ => res is None,
    }
}

proof fn lemma_core_of(members: Map<Seq<char>, JsonModel>, key: Seq<char>)
    ensures
        ({
            let value = payloads::member_text(members, key);
            let trimmed = adapter::trimmed_text(JsonModel::Object(members), key);
            let kept = adapter::nonblank_text(JsonModel::Object(members), key);
            &&& trimmed matches Some(core) ==> value matches Some(whole) && payloads::is_core(
                whole,
                core,
            ) && core.len() > 0 && !payloads::all_white(whole)
            &&& trimmed is None ==> (value matches Some(whole) ==> payloads::all_white(whole))
            &&& kept matches Some(whole) ==> value == Some(whole) && !payloads::all_white(whole)
            &&& kept is None ==> (value matches Some(whole) ==> payloads::all_white(whole))
        }),
{
    if let Some(value) = payloads::member_text(members, key) {
        payloads::lemma_trim_core(value);
    }
}

proof fn lemma_cover_of(members: Map<Seq<char>, JsonModel>, field: Option<String>)
    requires
        text::string_view(field) == adapter::artwork_url(
            adapter::trimmed_text(JsonModel::Object(members), "artworkData"@),
            adapter::trimmed_text(JsonModel::Object(members), "artworkMimeType"@),
        ),
    ensures
        is_cover_of(members, field),
{
    reveal_strlit("image/");
    reveal_strlit("data:");
    reveal_strlit(";base64,");
    assert("image/"@ =~= seq!['i', 'm', 'a', 'g', 'e', '/']);
    assert("data:"@ =~= seq!['d', 'a', 't', 'a', ':']);
    assert(";base64,"@ =~= seq![';', 'b', 'a', 's', 'e', '6', '4', ',']);
    let payload = JsonModel::Object(members);
    let trimmed_data = adapter::trimmed_text(payload, "artworkData"@);
    let trimmed_mime = adapter::trimmed_text(payload, "artworkMimeType"@);
    lemma_core_of(members, "artworkData"@);
    lemma_core_of(members, "artworkMimeType"@);
    match field {
        Some(url) => {
            let (data, mime) = (trimmed_data->0, trimmed_mime->0);
            assert(mime.take(6) =~= "image/"@);
            assert(is_image(members, data, mime));
        },
        None => {
            assert forall|data: Seq<char>, mime: Seq<char>| #[trigger]
                is_image(members, data, mime) implies utf8::encode_utf8(data).len() > 0x10_0000 by {
                let whole_data = payloads::member_text(members, "artworkData"@)->0;
                let whole_mime = payloads::member_text(members, "artworkMimeType"@)->0;
                payloads::lemma_trim_core(whole_data);
                payloads::lemma_trim_core(whole_mime);
                payloads::lemma_core_is_unique(whole_data, data, text::trim(whole_data));
                payloads::lemma_core_is_unique(whole_mime, mime, text::trim(whole_mime));
                assert(trimmed_data == Some(data));
                assert(trimmed_mime == Some(mime));
                assert("image/"@.is_prefix_of(mime)) by {
                    assert(mime.take(6) == "image/"@);
                    assert forall|i: int| 0 <= i < 6 implies mime[i] == "image/"@[i] by {
                        assert(mime.take(6)[i] == mime[i]);
                    }
                }
            }
        },
    }
}

proof fn lemma_adapter_reading(members: Map<Seq<char>, JsonModel>, snapshot: NowPlaying)
    requires
        adapter::adapter_payload(JsonModel::Object(members)) == Some(snapshot@),
    ensures
        is_adapter_reading(members, snapshot),
{
    let payload = JsonModel::Object(members);
    lemma_core_of(members, "title"@);
    lemma_core_of(members, "artist"@);
    lemma_core_of(members, "album"@);
    lemma_core_of(members, "applicationName"@);
    lemma_core_of(members, "bundleIdentifier"@);
    lemma_core_of(members, "uniqueIdentifier"@);
    lemma_core_of(members, "contentItemIdentifier"@);
    payloads::lemma_time_of(members, "elapsedTimeNow"@);
    payloads::lemma_time_of(members, "elapsedTime"@);
    payloads::lemma_time_of(members, "duration"@);
    lemma_cover_of(members, snapshot.artwork_data_url);
    if let Some(rate) = payload.double_at("playbackRate"@) {
        payloads::lemma_time_bits(rate);
    }
}

proof fn lemma_adapter_answer(payload: JsonModel, res: Option<NowPlaying>)
    requires
        now_playing::snapshot_view(res) == adapter::adapter_payload(payload),
    ensures
        is_adapter_answer(payload, res),
{
    match payload {
        JsonModel::Object(members) => {
            lemma_core_of(members, "title"@);
            lemma_core_of(members, "artist"@);
            lemma_core_of(members, "album"@);
            lemma_core_of(members, "uniqueIdentifier"@);
            lemma_core_of(members, "contentItemIdentifier"@);
            if let Some(snapshot) = res {
                lemma_adapter_reading(members, snapshot);
            }
        },
        _ => {},
    }
}

/// An object with any metadata becomes a snapshot, and nothing else does; each
/// field of the snapshot is what the adapter's member for it says.
pub proof fn law_adapter_payloads_are_read_by_member(payload: Json, res: Option<NowPlaying>)
    requires
        call_ensures(adapter::parse_adapter_now_playing, (&payload,), res),
    ensures
        is_adapter_answer(payload.model(), res),
{
    lemma_adapter_answer(payload.model(), res);
}

// ------------------------------------------------------------------ output

/// Whether a result is what the adapter's output says: nothing where the adapter
/// failed, wrote more than one and a half mebibytes, or wrote no JSON.
pub open spec fn is_output_answer(
    output: Seq<u8>,
    succeeded: bool,
    res: Option<NowPlaying>,
) -> bool {
    if !succeeded || output.len() > 0x18_0000 {
        res is None
    } else {
        match parser::bytes_document(output) {
            Some(payload) => is_adapter_answer(payload, res),
            None => res is None,
        }
    }
}

proof fn lemma_output_answer(output: Seq<u8>, succeeded: bool, res: Option<NowPlaying>)
    requires
        now_playing::snapshot_view(res) == adapter::adapter_output(output, succeeded),
    ensures
        is_output_answer(output, succeeded, res),
{
    if let Some(payload) = parser::bytes_document(output) {
        if succeeded && output.len() <= 0x18_0000 {
            lemma_adapter_answer(payload, res);
        }
    }
}

/// What the adapter wrote is read where it succeeded and kept within bounds.
pub proof fn law_adapter_output_is_read_within_bounds(
    output: &[u8],
    succeeded: bool,
    res: Option<NowPlaying>,
)
    requires
        call_ensures(adapter::parse_adapter_output, (output, succeeded), res),
    ensures
        is_output_answer(output@, succeeded, res),
{
    lemma_output_answer(output@, succeeded, res);
}

/// Whether the words are those of a request for the current payload.
pub open spec fn asks_for_payload(arguments: Vec<String>) -> bool {
    &&& arguments@.len() == 2
    &&& arguments@[0]@ == seq!['g', 'e', 't']
    &&& arguments@[1]@ == seq!['-', '-', 'n', 'o', 'w']
}

proof fn lemma_asks_for_payload(arguments: Vec<String>)
    requires
        staging::strings_view(arguments@) == staging::request_arguments(
            staging::AdapterRequest::Get,
        ),
    ensures
        asks_for_payload(arguments),
{
    reveal_strlit("get");
    reveal_strlit("--now");
    let words = staging::strings_view(arguments@);
    assert(words.len() == 2);
    assert(arguments@.len() == 2);
    assert(words[0] == arguments@[0]@ && words[1] == arguments@[1]@);
    assert("get"@ =~= seq!['g', 'e', 't']);
    assert("--now"@ =~= seq!['-', '-', 'n', 'o', 'w']);
}

/// A read asks the adapter for the current payload and for one byte more than it
/// may write. It ends the adapter where the output cannot be read or is too much,
/// and otherwise waits for it and returns what the output says.
pub proof fn law_adapter_reads_are_bounded<
    R: FnOnce(Vec<String>, usize) -> Option<Option<Vec<u8>>>,
    S: FnOnce(),
    W: FnOnce() -> Option<bool>,
>(run: R, stop: S, wait: W, res: Option<NowPlaying>)
    requires
        call_ensures(adapter::read_adapter_now_playing::<R, S, W>, (run, stop, wait), res),
    ensures
        exists|arguments: Vec<String>, limit: usize, answer: Option<Option<Vec<u8>>>|
            {
                &&& #[trigger] run.ensures((arguments, limit), answer)
                &&& asks_for_payload(arguments)
                &&& limit == 0x18_0001
                &&& match answer {
                    None => res is None,
                    Some(None) => res is None && stop.ensures((), ()),
                    Some(Some(bytes)) => if bytes@.len() > 0x18_0000 {
                        res is None && stop.ensures((), ())
                    } else {
                        exists|ended: Option<bool>|
                            {
                                &&& #[trigger] wait.ensures((), ended)
                                &&& is_output_answer(bytes@, ended == Some(true), res)
                            }
                    },
                }
            },
{
    let limit = 0x18_0001usize;
    let answer = choose|answer: Option<Option<Vec<u8>>>|
        {
            &&& #[trigger] adapter::ran(run, answer)
            &&& match answer {
                None => res is None,
                Some(output) => if adapter::output_rejected(session::buffer_view(output)) {
                    res is None && stop.ensures((), ())
                } else {
                    exists|ended: Option<bool>|
                        {
                            &&& #[trigger] wait.ensures((), ended)
                            &&& now_playing::snapshot_view(res) == adapter::adapter_output(
                                output->0@,
                                ended == Some(true),
                            )
                        }
                },
            }
        };
    let arguments = choose|arguments: Vec<String>|
        {
            &&& #[trigger] run.ensures((arguments, limit), answer)
            &&& staging::strings_view(arguments@) == staging::request_arguments(
                staging::AdapterRequest::Get,
            )
        };
    lemma_asks_for_payload(arguments);
    assert(run.ensures((arguments, limit), answer));
    if let Some(Some(bytes)) = answer {
        if bytes@.len() <= 0x18_0000 {
            let ended = choose|ended: Option<bool>|
                {
                    &&& #[trigger] wait.ensures((), ended)
                    &&& now_playing::snapshot_view(res) == adapter::adapter_output(
                        bytes@,
                        ended == Some(true),
                    )
                };
            lemma_output_answer(bytes@, ended == Some(true), res);
            assert(wait.ensures((), ended));
        }
    }
}

// ------------------------------------------------------------------- cache

/// Whether two fields hold the same characters, or are both empty.
pub open spec fn same_text(a: Option<String>, b: Option<String>) -> bool {
    match (a, b) {
        (Some(a), Some(b)) => a@ == b@,
        (None, None) => true,
        _ => false,
    }
}

/// Whether two snapshots agree in every field.
pub open spec fn same_fields(a: NowPlaying, b: NowPlaying) -> bool {
    &&& same_text(a.title, b.title)
    &&& same_text(a.artist, b.artist)
    &&& same_text(a.album, b.album)
    &&& same_text(a.app_name, b.app_name)
    &&& same_text(a.bundle_id, b.bundle_id)
    &&& same_text(a.unique_identifier, b.unique_identifier)
    &&& same_text(a.content_item_identifier, b.content_item_identifier)
    &&& a.media_type == b.media_type
    &&& a.pid == b.pid
    &&& a.elapsed_seconds == b.elapsed_seconds
    &&& a.duration_seconds == b.duration_seconds
    &&& a.is_playing == b.is_playing
    &&& same_text(a.artwork_data_url, b.artwork_data_url)
    &&& a.is_liked == b.is_liked
    &&& a.is_disliked == b.is_disliked
    &&& a.supports_like == b.supports_like
    &&& a.supports_dislike == b.supports_dislike
}

/// Whether two optional snapshots are both missing, or agree in every field.
pub open spec fn same_snapshot(a: Option<NowPlaying>, b: Option<NowPlaying>) -> bool {
    match (a, b) {
        (Some(a), Some(b)) => same_fields(a, b),
        (None, None) => true,
        _ => false,
    }
}

pub proof fn lemma_same_snapshot(a: Option<NowPlaying>, b: Option<NowPlaying>)
    requires
        now_playing::snapshot_view(a) == now_playing::snapshot_view(b),
    ensures
        same_snapshot(a, b),
{
    if let (Some(a), Some(b)) = (a, b) {
        assert(a@ == b@);
        assert(text::string_view(a.title) == text::string_view(b.title));
        assert(text::string_view(a.artist) == text::string_view(b.artist));
        assert(text::string_view(a.album) == text::string_view(b.album));
        assert(text::string_view(a.app_name) == text::string_view(b.app_name));
        assert(text::string_view(a.bundle_id) == text::string_view(b.bundle_id));
        assert(text::string_view(a.unique_identifier) == text::string_view(b.unique_identifier));
        assert(text::string_view(a.content_item_identifier) == text::string_view(
            b.content_item_identifier,
        ));
        assert(text::string_view(a.artwork_data_url) == text::string_view(b.artwork_data_url));
    }
}

/// A copy of a snapshot agrees with it in every field.
pub proof fn law_copies_agree(snapshot: NowPlaying, res: NowPlaying)
    requires
        call_ensures(NowPlaying::clone, (&snapshot,), res),
    ensures
        same_fields(snapshot, res),
{
    lemma_same_snapshot(Some(snapshot), Some(res));
}

/// Within two seconds of an answer, the same answer comes back and nothing is
/// asked or changed; at any other time the adapter is asked, and its answer
/// returned and kept, with the time at which it came.
pub proof fn law_answers_are_kept<R: FnOnce() -> (Option<NowPlaying>, u128)>(
    cache: &mut AdapterCache,
    now: u128,
    read: R,
    res: Option<NowPlaying>,
)
    requires
        call_ensures(cache::adapter_now_playing::<R>, (cache, now, read), res),
    ensures
        (old(cache).fetched_at matches Some(time) && now - time < 2_000_000_000) ==> {
            &&& *final(cache) == *old(cache)
            &&& same_snapshot(res, old(cache).value)
        },
        !(old(cache).fetched_at matches Some(time) && now - time < 2_000_000_000) ==> {
            exists|answer: Option<NowPlaying>, time: u128|
                {
                    &&& #[trigger] read.ensures((), (answer, time))
                    &&& res == answer
                    &&& final(cache).fetched_at == Some(time)
                    &&& same_snapshot(final(cache).value, answer)
                }
        },
{
    if old(cache).is_fresh(now) {
        lemma_same_snapshot(res, old(cache).value);
    } else {
        let answer = choose|answer: (Option<NowPlaying>, u128)|
            {
                &&& #[trigger] read.ensures((), answer)
                &&& res == answer.0
                &&& final(cache).fetched_at == Some(answer.1)
                &&& now_playing::snapshot_view(final(cache).value) == now_playing::snapshot_view(
                    answer.0,
                )
            };
        lemma_same_snapshot(final(cache).value, answer.0);
        assert(read.ensures((), (answer.0, answer.1)));
    }
}

/// A cache is fresh where its answer came less than two seconds ago.
pub proof fn law_freshness_lasts_two_seconds(cache: AdapterCache, now: u128, res: bool)
    requires
        call_ensures(AdapterCache::fresh, (&cache, now), res),
    ensures
        res <==> (cache.fetched_at matches Some(time) && now - time < 2_000_000_000),
{
}

/// An invalidated cache keeps its answer and no time for it.
pub proof fn law_invalidation_takes_the_time(cache: &mut AdapterCache)
    requires
        call_ensures(cache::invalidate_adapter_cache, (cache,), ()),
    ensures
        final(cache).fetched_at is None,
        final(cache).value == old(cache).value,
{
}

} // verus!
