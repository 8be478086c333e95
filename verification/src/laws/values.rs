//! What JSON values stand for, and what snapshots are written as.

use vstd::prelude::*;

use crate::double::Double;
use crate::json;
use crate::json::{Json, JsonModel, JsonNumber};
use crate::laws::adapter_payloads;
use crate::laws::payloads;
use crate::now_playing;
use crate::now_playing::NowPlaying;
use crate::parser;
use crate::rendering;
use crate::session::MediaSnapshot;
use crate::transport::Capabilities;

verus! {

// ------------------------------------------------------------------ values

/// Whether the member at `i` is the last one with its key.
pub open spec fn is_last(members: Seq<(String, Json)>, i: int, key: Seq<char>) -> bool {
    &&& 0 <= i < members.len()
    &&& members[i].0@ == key
    &&& forall|j: int| i < j < members.len() ==> (#[trigger] members[j]).0@ != key
}

/// Whether no member has the key.
pub open spec fn is_absent(members: Seq<(String, Json)>, key: Seq<char>) -> bool {
    forall|j: int| 0 <= j < members.len() ==> (#[trigger] members[j]).0@ != key
}

proof fn lemma_last_member(members: Seq<(String, Json)>, i: int, key: Seq<char>)
    requires
        is_last(members, i, key),
    ensures
        json::members_model(members).contains_key(key),
        json::members_model(members)[key] == members[i].1.model(),
    decreases members.len(),
{
    let rest = members.drop_last();
    if i < members.len() - 1 {
        assert(members.last() == members[members.len() - 1]);
        assert forall|j: int| i < j < rest.len() implies (#[trigger] rest[j]).0@ != key by {
            assert(rest[j] == members[j]);
        }
        lemma_last_member(rest, i, key);
    }
}

proof fn lemma_absent_member(members: Seq<(String, Json)>, key: Seq<char>)
    requires
        is_absent(members, key),
    ensures
        !json::members_model(members).contains_key(key),
    decreases members.len(),
{
    if members.len() > 0 {
        let rest = members.drop_last();
        assert(members.last() == members[members.len() - 1]);
        assert forall|j: int| 0 <= j < rest.len() implies (#[trigger] rest[j]).0@ != key by {
            assert(rest[j] == members[j]);
        }
        lemma_absent_member(rest, key);
    }
}

/// A value stands for what it is made of: an array for its items in order, an
/// object for its members by their keys, of which the last one counts.
pub proof fn law_values_stand_for_their_parts(value: Json, i: int, key: Seq<char>)
    ensures
        match value {
            Json::Null => value.model() == JsonModel::Null,
            Json::Bool(b) => value.model() == JsonModel::Bool(b),
            Json::Number(number) => value.model() == JsonModel::Number(number),
            Json::Text(text) => value.model() == JsonModel::Text(text@),
            Json::Array(items) => value.model() matches JsonModel::Array(models) && {
                &&& models.len() == items@.len()
                &&& 0 <= i < items@.len() ==> models[i] == items@[i].model()
            },
            Json::Object(members) => value.model() matches JsonModel::Object(map) && {
                &&& is_last(members@, i, key) ==> map.contains_key(key) && map[key]
                    == members@[i].1.model()
                &&& is_absent(members@, key) ==> !map.contains_key(key)
            },
        },
{
    match value {
        Json::Array(items) => {
            json::lemma_items_model(items@);
        },
        Json::Object(members) => {
            if is_last(members@, i, key) {
                lemma_last_member(members@, i, key);
            }
            if is_absent(members@, key) {
                lemma_absent_member(members@, key);
            }
        },
        _ => {},
    }
}

/// A member is found by its key in objects alone, and its string, integer, number
/// or truth value where it is one.
pub proof fn law_members_are_found_by_key<'a>(
    value: &'a Json,
    key: &str,
    member: Option<&'a Json>,
    string: Option<&'a String>,
    integer: Option<i64>,
    number: Option<Double>,
    flag: Option<bool>,
)
    requires
        call_ensures(Json::member, (value, key), member),
        call_ensures(Json::text_at, (value, key), string),
        call_ensures(Json::integer_at, (value, key), integer),
        call_ensures(Json::double_at, (value, key), number),
        call_ensures(Json::bool_at, (value, key), flag),
    ensures
        match value.model() {
            JsonModel::Object(members) => {
                &&& member is Some <==> members.contains_key(key@)
                &&& member matches Some(found) ==> found.model() == members[key@]
                &&& string is Some <==> payloads::member_text(members, key@) is Some
                &&& string matches Some(found) ==> payloads::member_text(members, key@) == Some(
                    found@,
                )
                &&& integer == payloads::member_integer(members, key@)
                &&& number is Some <==> payloads::member_bits(members, key@) is Some
                &&& number matches Some(found) ==> payloads::member_bits(members, key@) == Some(
                    found.bits,
                )
                &&& flag == payloads::member_bool(members, key@)
            },
            _ => member is None && string is None && integer is None && number is None
                && flag is None,
        },
{
}

/// A text and bytes are read as what the parser reads them as.
pub proof fn law_documents_are_read_whole(
    chars: &str,
    from_text: Option<Json>,
    bytes: &[u8],
    from_bytes: Option<Json>,
)
    requires
        call_ensures(parser::parse_json_text, (chars,), from_text),
        call_ensures(parser::parse_json_bytes, (bytes,), from_bytes),
    ensures
        from_text is Some <==> parser::text_document(chars@) is Some,
        from_text matches Some(value) ==> Some(value.model()) == parser::text_document(chars@),
        from_bytes is Some <==> parser::bytes_document(bytes@) is Some,
        from_bytes matches Some(value) ==> Some(value.model()) == parser::bytes_document(bytes@),
{
}

// ----------------------------------------------------------------- writing

/// Whether the value is written under the key, and nothing else is.
pub open spec fn is_written(
    members: Seq<(String, Json)>,
    key: Seq<char>,
    value: JsonModel,
) -> bool {
    &&& exists|i: int|
        0 <= i < members.len() && (#[trigger] members[i]).0@ == key && members[i].1.model() == value
    &&& forall|i: int, j: int|
        0 <= i < j < members.len() && (#[trigger] members[i]).0@ == key ==> (
        #[trigger] members[j]).0@ != key
}

/// Whether a time is written under the key, and left out where there is none.
pub open spec fn is_time_written(
    members: Seq<(String, Json)>,
    key: Seq<char>,
    time: Option<Double>,
) -> bool {
    match time {
        Some(seconds) => is_written(
            members,
            key,
            JsonModel::Number(JsonNumber { integer: None, double: Some(seconds) }),
        ),
        None => is_absent(members, key),
    }
}

/// A text as a JSON value, and `null` for none.
pub open spec fn text_value(value: Option<String>) -> JsonModel {
    match value {
        Some(string) => JsonModel::Text(string@),
        None => JsonModel::Null,
    }
}

/// An integer as a JSON value, and `null` for none.
pub open spec fn integer_value(value: Option<i64>) -> JsonModel {
    match value {
        Some(n) => JsonModel::Number(JsonNumber { integer: Some(n), double: None }),
        None => JsonModel::Null,
    }
}

/// A truth value as a JSON value, and `null` for none.
pub open spec fn bool_value(value: Option<bool>) -> JsonModel {
    match value {
        Some(b) => JsonModel::Bool(b),
        None => JsonModel::Null,
    }
}

/// Whether the members are those of a snapshot: each field under its own name.
pub open spec fn is_snapshot_written(
    members: Seq<(String, Json)>,
    snapshot: NowPlaying,
) -> bool {
    let times: int = (if snapshot.elapsed_seconds is Some {
        1int
    } else {
        0
    }) + (if snapshot.duration_seconds is Some {
        1int
    } else {
        0
    });
    &&& members.len() == 15 + times
    &&& is_written(members, "title"@, text_value(snapshot.title))
    &&& is_written(members, "artist"@, text_value(snapshot.artist))
    &&& is_written(members, "album"@, text_value(snapshot.album))
    &&& is_written(members, "app_name"@, text_value(snapshot.app_name))
    &&& is_written(members, "bundle_id"@, text_value(snapshot.bundle_id))
    &&& is_written(members, "unique_identifier"@, text_value(snapshot.unique_identifier))
    &&& is_written(members, "content_item_identifier"@, text_value(snapshot.content_item_identifier))
    &&& is_written(members, "media_type"@, integer_value(snapshot.media_type))
    &&& is_written(
        members,
        "pid"@,
        match snapshot.pid {
            Some(pid) => integer_value(Some(pid as i64)),
            None => JsonModel::Null,
        },
    )
    &&& is_time_written(members, "elapsed_seconds"@, snapshot.elapsed_seconds)
    &&& is_time_written(members, "duration_seconds"@, snapshot.duration_seconds)
    &&& is_written(members, "is_playing"@, bool_value(snapshot.is_playing))
    &&& is_written(members, "artwork_data_url"@, text_value(snapshot.artwork_data_url))
    &&& is_written(members, "is_liked"@, bool_value(snapshot.is_liked))
    &&& is_written(members, "is_disliked"@, bool_value(snapshot.is_disliked))
    &&& is_written(members, "supports_like"@, JsonModel::Bool(snapshot.supports_like))
    &&& is_written(members, "supports_dislike"@, JsonModel::Bool(snapshot.supports_dislike))
}

proof fn lemma_view_at(members: Seq<(String, Json)>, i: int)
    requires
        0 <= i < members.len(),
    ensures
        rendering::members_view(members)[i] == (members[i].0@, members[i].1.model()),
{
}

proof fn lemma_written_at(
    members: Seq<(String, Json)>,
    view: Seq<(Seq<char>, JsonModel)>,
    i: int,
    key: Seq<char>,
)
    requires
        rendering::members_view(members) == view,
        0 <= i < view.len(),
        view[i].0 == key,
        forall|j: int, k: int| 0 <= j < k < view.len() ==> (#[trigger] view[j]).0 != (
        #[trigger] view[k]).0,
    ensures
        is_written(members, key, view[i].1),
{
    lemma_view_at(members, i);
    assert(members[i].0@ == key);
    assert forall|j: int, k: int|
        0 <= j < k < members.len() && (#[trigger] members[j]).0@ == key implies (
    #[trigger] members[k]).0@ != key by {
        lemma_view_at(members, j);
        lemma_view_at(members, k);
        assert(view[j].0 != view[k].0);
    }
}

proof fn lemma_not_written(
    members: Seq<(String, Json)>,
    view: Seq<(Seq<char>, JsonModel)>,
    key: Seq<char>,
)
    requires
        rendering::members_view(members) == view,
        forall|j: int| 0 <= j < view.len() ==> (#[trigger] view[j]).0 != key,
    ensures
        is_absent(members, key),
{
    assert forall|j: int| 0 <= j < members.len() implies (#[trigger] members[j]).0@ != key by {
        lemma_view_at(members, j);
        assert(view[j].0 != key);
    }
}

/// The keys of a written snapshot, by how long they are and how they start.
spec fn mark(key: Seq<char>) -> (int, char) {
    (key.len() as int, key[0])
}

#[verifier::spinoff_prover]
proof fn lemma_keys(snapshot: NowPlaying)
    ensures
        ({
            let view = rendering::now_playing_members(snapshot@);
            &&& forall|j: int, k: int| 0 <= j < k < view.len() ==> (#[trigger] view[j]).0 != (
            #[trigger] view[k]).0
            &&& snapshot.elapsed_seconds is None ==> forall|j: int|
                0 <= j < view.len() ==> (#[trigger] view[j]).0 != "elapsed_seconds"@
            &&& snapshot.duration_seconds is None ==> forall|j: int|
                0 <= j < view.len() ==> (#[trigger] view[j]).0 != "duration_seconds"@
        }),
{
    reveal_strlit("title");
    reveal_strlit("artist");
    reveal_strlit("album");
    reveal_strlit("app_name");
    reveal_strlit("bundle_id");
    reveal_strlit("unique_identifier");
    reveal_strlit("content_item_identifier");
    reveal_strlit("media_type");
    reveal_strlit("pid");
    reveal_strlit("elapsed_seconds");
    reveal_strlit("duration_seconds");
    reveal_strlit("is_playing");
    reveal_strlit("artwork_data_url");
    reveal_strlit("is_liked");
    reveal_strlit("is_disliked");
    reveal_strlit("supports_like");
    reveal_strlit("supports_dislike");
    assert("title"@.len() == 5 && "title"@[0] == 't');
    assert("artist"@.len() == 6 && "artist"@[0] == 'a');
    assert("album"@.len() == 5 && "album"@[0] == 'a');
    assert("app_name"@.len() == 8 && "app_name"@[0] == 'a');
    assert("bundle_id"@.len() == 9 && "bundle_id"@[0] == 'b');
    assert("unique_identifier"@.len() == 17 && "unique_identifier"@[0] == 'u');
    assert("content_item_identifier"@.len() == 23 && "content_item_identifier"@[0] == 'c');
    assert("media_type"@.len() == 10 && "media_type"@[0] == 'm');
    assert("pid"@.len() == 3 && "pid"@[0] == 'p');
    assert("elapsed_seconds"@.len() == 15 && "elapsed_seconds"@[0] == 'e');
    assert("duration_seconds"@.len() == 16 && "duration_seconds"@[0] == 'd');
    assert("is_playing"@.len() == 10 && "is_playing"@[0] == 'i');
    assert("artwork_data_url"@.len() == 16 && "artwork_data_url"@[0] == 'a');
    assert("is_liked"@.len() == 8 && "is_liked"@[0] == 'i');
    assert("is_disliked"@.len() == 11 && "is_disliked"@[0] == 'i');
    assert("supports_like"@.len() == 13 && "supports_like"@[0] == 's');
    assert("supports_dislike"@.len() == 16 && "supports_dislike"@[0] == 's');
    let view = rendering::now_playing_members(snapshot@);
    assert forall|j: int, k: int| 0 <= j < k < view.len() implies (#[trigger] view[j]).0 != (
    #[trigger] view[k]).0 by {
        assert(mark(view[j].0) != mark(view[k].0));
    }
}

proof fn lemma_snapshot_written(members: Seq<(String, Json)>, snapshot: NowPlaying)
    requires
        rendering::members_view(members) == rendering::now_playing_members(snapshot@),
    ensures
        is_snapshot_written(members, snapshot),
{
    let view = rendering::now_playing_members(snapshot@);
    let first: int = if snapshot.elapsed_seconds is Some {
        1
    } else {
        0
    };
    let times: int = first + (if snapshot.duration_seconds is Some {
        1int
    } else {
        0
    });
    lemma_keys(snapshot);
    assert(members.len() == view.len());
    lemma_written_at(members, view, 0, "title"@);
    lemma_written_at(members, view, 1, "artist"@);
    lemma_written_at(members, view, 2, "album"@);
    lemma_written_at(members, view, 3, "app_name"@);
    lemma_written_at(members, view, 4, "bundle_id"@);
    lemma_written_at(members, view, 5, "unique_identifier"@);
    lemma_written_at(members, view, 6, "content_item_identifier"@);
    lemma_written_at(members, view, 7, "media_type"@);
    lemma_written_at(members, view, 8, "pid"@);
    if snapshot.elapsed_seconds is Some {
        lemma_written_at(members, view, 9, "elapsed_seconds"@);
    } else {
        lemma_not_written(members, view, "elapsed_seconds"@);
    }
    if snapshot.duration_seconds is Some {
        lemma_written_at(members, view, 9 + first, "duration_seconds"@);
    } else {
        lemma_not_written(members, view, "duration_seconds"@);
    }
    lemma_written_at(members, view, 9 + times + 0, "is_playing"@);
    lemma_written_at(members, view, 9 + times + 1, "artwork_data_url"@);
    lemma_written_at(members, view, 9 + times + 2, "is_liked"@);
    lemma_written_at(members, view, 9 + times + 3, "is_disliked"@);
    lemma_written_at(members, view, 9 + times + 4, "supports_like"@);
    lemma_written_at(members, view, 9 + times + 5, "supports_dislike"@);
}

/// A snapshot is written with each field once and under its own name, a missing
/// value as `null`, and a missing time not at all.
pub proof fn law_snapshots_are_written_by_field(
    snapshot: NowPlaying,
    res: Vec<(String, Json)>,
)
    requires
        call_ensures(NowPlaying::members, (&snapshot,), res),
    ensures
        is_snapshot_written(res@, snapshot),
{
    lemma_snapshot_written(res@, snapshot);
}

/// Whether the members are those of capabilities: each one under its own name.
pub open spec fn are_capabilities_written(
    members: Seq<(String, Json)>,
    capabilities: Capabilities,
) -> bool {
    &&& members.len() == 5
    &&& is_written(members, "play_pause"@, JsonModel::Bool(capabilities.play_pause))
    &&& is_written(members, "previous"@, JsonModel::Bool(capabilities.previous))
    &&& is_written(members, "next"@, JsonModel::Bool(capabilities.next))
    &&& is_written(members, "like"@, JsonModel::Bool(capabilities.like))
    &&& is_written(members, "dislike"@, JsonModel::Bool(capabilities.dislike))
}

proof fn lemma_capabilities_written(members: Seq<(String, Json)>, capabilities: Capabilities)
    requires
        rendering::members_view(members) == rendering::capabilities_members(capabilities),
    ensures
        are_capabilities_written(members, capabilities),
{
    reveal_strlit("play_pause");
    reveal_strlit("previous");
    reveal_strlit("next");
    reveal_strlit("like");
    reveal_strlit("dislike");
    assert("play_pause"@.len() == 10);
    assert("previous"@.len() == 8);
    assert("next"@.len() == 4 && "next"@[0] == 'n');
    assert("like"@.len() == 4 && "like"@[0] == 'l');
    assert("dislike"@.len() == 7);
    let view = rendering::capabilities_members(capabilities);
    assert(members.len() == view.len());
    lemma_written_at(members, view, 0, "play_pause"@);
    lemma_written_at(members, view, 1, "previous"@);
    lemma_written_at(members, view, 2, "next"@);
    lemma_written_at(members, view, 3, "like"@);
    lemma_written_at(members, view, 4, "dislike"@);
}

/// Capabilities are written with each one once and under its own name.
pub proof fn law_capabilities_are_written_by_name(
    capabilities: Capabilities,
    res: Vec<(String, Json)>,
)
    requires
        call_ensures(Capabilities::members, (&capabilities,), res),
    ensures
        are_capabilities_written(res@, capabilities),
{
    lemma_capabilities_written(res@, capabilities);
}

/// A media snapshot is written with its three parts, each under its own name and
/// as it is written by itself.
pub proof fn law_media_snapshots_are_written_by_part(
    snapshot: MediaSnapshot,
    res: Vec<(String, Json)>,
)
    requires
        call_ensures(MediaSnapshot::members, (&snapshot,), res),
    ensures
        res@.len() == 3,
        res@[0].0@ == seq!['n', 'o', 'w', '_', 'p', 'l', 'a', 'y', 'i', 'n', 'g'],
        match snapshot.now_playing {
            Some(now_playing) => res@[0].1 matches Json::Object(members) && is_snapshot_written(
                members@,
                now_playing,
            ),
            None => res@[0].1 is Null,
        },
        res@[1].0@ == seq!['c', 'a', 'p', 'a', 'b', 'i', 'l', 'i', 't', 'i', 'e', 's'],
        res@[1].1 matches Json::Object(members) && are_capabilities_written(
            members@,
            snapshot.capabilities,
        ),
        res@[2].0@ == seq!['o', 'u', 't', 'p', 'u', 't', '_', 'v', 'o', 'l', 'u', 'm', 'e'],
        res@[2].1.model() == (match snapshot.output_volume {
            Some(volume) => JsonModel::Number(
                JsonNumber { integer: None, double: Some(volume) },
            ),
            None => JsonModel::Null,
        }),
{
    reveal_strlit("now_playing");
    reveal_strlit("capabilities");
    reveal_strlit("output_volume");
    if let Some(now_playing) = snapshot.now_playing {
        lemma_snapshot_written(res@[0].1->Object_0@, now_playing);
    }
    lemma_capabilities_written(res@[1].1->Object_0@, snapshot.capabilities);
}

/// What is written of a snapshot with valid values is read back as that snapshot,
/// but for its cover.
pub proof fn law_snapshots_come_back(
    snapshot: NowPlaying,
    members: Vec<(String, Json)>,
    res: Option<NowPlaying>,
)
    requires
        call_ensures(NowPlaying::members, (&snapshot,), members),
        call_ensures(now_playing::parse_now_playing, (&Json::Object(members),), res),
        snapshot.pid matches Some(pid) ==> pid > 0,
        snapshot.elapsed_seconds matches Some(seconds) ==> payloads::time_bits(seconds.bits),
        snapshot.duration_seconds matches Some(seconds) ==> payloads::time_bits(seconds.bits),
    ensures
        res matches Some(read) && adapter_payloads::same_fields(
            read,
            (NowPlaying { artwork_data_url: None, ..snapshot }),
        ),
{
    if let Some(seconds) = snapshot.elapsed_seconds {
        payloads::lemma_time_bits(seconds);
    }
    if let Some(seconds) = snapshot.duration_seconds {
        payloads::lemma_time_bits(seconds);
    }
    rendering::law_snapshots_are_read_as_written(Json::Object(members), snapshot@);
    let bare = NowPlaying { artwork_data_url: None, ..snapshot };
    assert(bare@ == (now_playing::NowPlayingModel { artwork_data_url: None, ..snapshot@ }));
    adapter_payloads::lemma_same_snapshot(res, Some(bare));
}

} // verus!
