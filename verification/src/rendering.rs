//! The JSON that snapshots are written as: members in the order of the fields
//! and under their names, missing values as `null`, missing times left out.

use vstd::prelude::*;

use crate::double::Double;
use crate::json;
use crate::json::{Json, JsonModel, JsonNumber};
use crate::now_playing;
use crate::now_playing::{NowPlaying, NowPlayingModel};
use crate::session::MediaSnapshot;
use crate::text;
use crate::transport::Capabilities;

verus! {

// ----------------------------------------------------------------- models

/// What the members of an object stand for, in order.
pub open spec fn members_view(members: Seq<(String, Json)>) -> Seq<(Seq<char>, JsonModel)> {
    members.map_values(|member: (String, Json)| (member.0@, member.1.model()))
}

/// An optional text.
pub open spec fn text_json(value: Option<Seq<char>>) -> JsonModel {
    match value {
        Some(text) => JsonModel::Text(text),
        None => JsonModel::Null,
    }
}

/// An optional truth value.
pub open spec fn bool_json(value: Option<bool>) -> JsonModel {
    match value {
        Some(b) => JsonModel::Bool(b),
        None => JsonModel::Null,
    }
}

/// An optional integer.
pub open spec fn integer_json(value: Option<i64>) -> JsonModel {
    match value {
        Some(n) => JsonModel::Number(JsonNumber { integer: Some(n), double: None }),
        None => JsonModel::Null,
    }
}

/// An optional process identifier.
pub open spec fn pid_json(value: Option<i32>) -> JsonModel {
    match value {
        Some(n) => integer_json(Some(n as i64)),
        None => JsonModel::Null,
    }
}

/// An optional binary64 number.
pub open spec fn double_json(value: Option<Double>) -> JsonModel {
    match value {
        Some(double) => JsonModel::Number(JsonNumber { integer: None, double: Some(double) }),
        None => JsonModel::Null,
    }
}

/// A time's member, which is left out where there is no time.
pub open spec fn time_member(key: Seq<char>, time: Option<Double>) -> Seq<(Seq<char>, JsonModel)> {
    match time {
        Some(_) => seq![(key, double_json(time))],
        None => Seq::empty(),
    }
}

/// The members of a Now Playing snapshot.
pub open spec fn now_playing_members(snapshot: NowPlayingModel) -> Seq<(Seq<char>, JsonModel)> {
    seq![
        ("title"@, text_json(snapshot.title)),
        ("artist"@, text_json(snapshot.artist)),
        ("album"@, text_json(snapshot.album)),
        ("app_name"@, text_json(snapshot.app_name)),
        ("bundle_id"@, text_json(snapshot.bundle_id)),
        ("unique_identifier"@, text_json(snapshot.unique_identifier)),
        ("content_item_identifier"@, text_json(snapshot.content_item_identifier)),
        ("media_type"@, integer_json(snapshot.media_type)),
        ("pid"@, pid_json(snapshot.pid)),
    ] + time_member("elapsed_seconds"@, snapshot.elapsed_seconds) + time_member(
        "duration_seconds"@,
        snapshot.duration_seconds,
    ) + seq![
        ("is_playing"@, bool_json(snapshot.is_playing)),
        ("artwork_data_url"@, text_json(snapshot.artwork_data_url)),
        ("is_liked"@, bool_json(snapshot.is_liked)),
        ("is_disliked"@, bool_json(snapshot.is_disliked)),
        ("supports_like"@, JsonModel::Bool(snapshot.supports_like)),
        ("supports_dislike"@, JsonModel::Bool(snapshot.supports_dislike)),
    ]
}

/// The members of transport capabilities.
pub open spec fn capabilities_members(capabilities: Capabilities) -> Seq<(Seq<char>, JsonModel)> {
    seq![
        ("play_pause"@, JsonModel::Bool(capabilities.play_pause)),
        ("previous"@, JsonModel::Bool(capabilities.previous)),
        ("next"@, JsonModel::Bool(capabilities.next)),
        ("like"@, JsonModel::Bool(capabilities.like)),
        ("dislike"@, JsonModel::Bool(capabilities.dislike)),
    ]
}

// ------------------------------------------------------------ executables

/// Appends a member.
fn push_member(members: &mut Vec<(String, Json)>, key: &str, value: Json)
    ensures
        members_view(final(members)@) == members_view(old(members)@).push((key@, value.model())),
{
    members.push((key.to_owned(), value));
    assert(members_view(members@) =~= members_view(old(members)@).push((key@, value.model())));
}

fn text_value(value: &Option<String>) -> (res: Json)
    ensures
        res.model() == text_json(text::string_view(*value)),
{
    match value {
        Some(text) => Json::Text(text.clone()),
        None => Json::Null,
    }
}

fn bool_value(value: Option<bool>) -> (res: Json)
    ensures
        res.model() == bool_json(value),
{
    match value {
        Some(b) => Json::Bool(b),
        None => Json::Null,
    }
}

fn integer_value(value: Option<i64>) -> (res: Json)
    ensures
        res.model() == integer_json(value),
{
    match value {
        Some(n) => Json::Number(JsonNumber { integer: Some(n), double: None }),
        None => Json::Null,
    }
}

fn pid_value(value: Option<i32>) -> (res: Json)
    ensures
        res.model() == pid_json(value),
{
    match value {
        Some(n) => integer_value(Some(n as i64)),
        None => Json::Null,
    }
}

fn double_value(value: Option<Double>) -> (res: Json)
    ensures
        res.model() == double_json(value),
{
    match value {
        Some(double) => Json::Number(JsonNumber { integer: None, double: Some(double) }),
        None => Json::Null,
    }
}

/// Appends a time's member, where there is a time.
fn push_time(members: &mut Vec<(String, Json)>, key: &str, time: Option<Double>)
    ensures
        members_view(final(members)@) == members_view(old(members)@) + time_member(key@, time),
{
    if time.is_some() {
        push_member(members, key, double_value(time));
    }
    assert(members_view(members@) =~= members_view(old(members)@) + time_member(key@, time));
}

impl NowPlaying {
    /// The members that the snapshot is written as.
    pub fn members(&self) -> (res: Vec<(String, Json)>)
        ensures
            members_view(res@) == now_playing_members(self@),
    {
        let mut res: Vec<(String, Json)> = Vec::new();
        push_member(&mut res, "title", text_value(&self.title));
        push_member(&mut res, "artist", text_value(&self.artist));
        push_member(&mut res, "album", text_value(&self.album));
        push_member(&mut res, "app_name", text_value(&self.app_name));
        push_member(&mut res, "bundle_id", text_value(&self.bundle_id));
        push_member(&mut res, "unique_identifier", text_value(&self.unique_identifier));
        push_member(
            &mut res,
            "content_item_identifier",
            text_value(&self.content_item_identifier),
        );
        push_member(&mut res, "media_type", integer_value(self.media_type));
        push_member(&mut res, "pid", pid_value(self.pid));
        push_time(&mut res, "elapsed_seconds", self.elapsed_seconds);
        push_time(&mut res, "duration_seconds", self.duration_seconds);
        push_member(&mut res, "is_playing", bool_value(self.is_playing));
        push_member(&mut res, "artwork_data_url", text_value(&self.artwork_data_url));
        push_member(&mut res, "is_liked", bool_value(self.is_liked));
        push_member(&mut res, "is_disliked", bool_value(self.is_disliked));
        push_member(&mut res, "supports_like", Json::Bool(self.supports_like));
        push_member(&mut res, "supports_dislike", Json::Bool(self.supports_dislike));
        assert(members_view(res@) =~= now_playing_members(self@));
        res
    }
}

impl Capabilities {
    /// The members that the capabilities are written as.
    pub fn members(&self) -> (res: Vec<(String, Json)>)
        ensures
            members_view(res@) == capabilities_members(*self),
    {
        let mut res: Vec<(String, Json)> = Vec::new();
        push_member(&mut res, "play_pause", Json::Bool(self.play_pause));
        push_member(&mut res, "previous", Json::Bool(self.previous));
        push_member(&mut res, "next", Json::Bool(self.next));
        push_member(&mut res, "like", Json::Bool(self.like));
        push_member(&mut res, "dislike", Json::Bool(self.dislike));
        assert(members_view(res@) =~= capabilities_members(*self));
        res
    }
}

/// Whether a value is an object with the given members, in order.
pub open spec fn is_object_of(value: Json, members: Seq<(Seq<char>, JsonModel)>) -> bool {
    value matches Json::Object(written) && members_view(written@) == members
}

impl MediaSnapshot {
    /// The members that the snapshot is written as.
    pub fn members(&self) -> (res: Vec<(String, Json)>)
        ensures
            res@.len() == 3,
            res@[0].0@ == "now_playing"@,
            match self.now_playing {
                Some(now_playing) => is_object_of(res@[0].1, now_playing_members(now_playing@)),
                None => res@[0].1 is Null,
            },
            res@[1].0@ == "capabilities"@,
            is_object_of(res@[1].1, capabilities_members(self.capabilities)),
            res@[2].0@ == "output_volume"@,
            res@[2].1.model() == double_json(self.output_volume),
    {
        let now_playing = match &self.now_playing {
            Some(now_playing) => Json::Object(now_playing.members()),
            None => Json::Null,
        };
        let mut res: Vec<(String, Json)> = Vec::new();
        res.push(("now_playing".to_owned(), now_playing));
        res.push(("capabilities".to_owned(), Json::Object(self.capabilities.members())));
        res.push(("output_volume".to_owned(), double_value(self.output_volume)));
        res
    }
}

// ------------------------------------------------------------------- laws

/// The map that members make up, one after the other.
pub open spec fn object_of(members: Seq<(Seq<char>, JsonModel)>) -> Map<Seq<char>, JsonModel>
    decreases members.len(),
{
    if members.len() == 0 {
        Map::empty()
    } else {
        object_of(members.drop_last()).insert(members.last().0, members.last().1)
    }
}

/// An object that is written from members stands for the map they make up.
proof fn lemma_written_object(members: Seq<(String, Json)>)
    ensures
        json::members_model(members) == object_of(members_view(members)),
    decreases members.len(),
{
    if members.len() > 0 {
        lemma_written_object(members.drop_last());
        assert(members_view(members).drop_last() =~= members_view(members.drop_last()));
    }
}

proof fn lemma_object_of_push(members: Seq<(Seq<char>, JsonModel)>, key: Seq<char>, value: JsonModel)
    ensures
        object_of(members.push((key, value))) == object_of(members).insert(key, value),
{
    assert(members.push((key, value)).drop_last() =~= members);
}

proof fn lemma_object_of_time(
    members: Seq<(Seq<char>, JsonModel)>,
    key: Seq<char>,
    time: Option<Double>,
)
    ensures
        object_of(members + time_member(key, time)) == (match time {
            Some(_) => object_of(members).insert(key, double_json(time)),
            None => object_of(members),
        }),
{
    match time {
        Some(_) => {
            lemma_object_of_push(members, key, double_json(time));
            assert(members + time_member(key, time) =~= members.push((key, double_json(time))));
        },
        None => {
            assert(members + time_member(key, time) =~= members);
        },
    }
}

/// A map with a time's member, which is left out where there is no time.
spec fn insert_time(
    members: Map<Seq<char>, JsonModel>,
    key: Seq<char>,
    time: Option<Double>,
) -> Map<Seq<char>, JsonModel> {
    match time {
        Some(_) => members.insert(key, double_json(time)),
        None => members,
    }
}

/// The map that the members of a snapshot make up.
#[verifier::opaque]
spec fn written_map(snapshot: NowPlayingModel) -> Map<Seq<char>, JsonModel> {
    let described = Map::<Seq<char>, JsonModel>::empty()
        .insert("title"@, text_json(snapshot.title))
        .insert("artist"@, text_json(snapshot.artist))
        .insert("album"@, text_json(snapshot.album))
        .insert("app_name"@, text_json(snapshot.app_name))
        .insert("bundle_id"@, text_json(snapshot.bundle_id))
        .insert("unique_identifier"@, text_json(snapshot.unique_identifier))
        .insert("content_item_identifier"@, text_json(snapshot.content_item_identifier))
        .insert("media_type"@, integer_json(snapshot.media_type))
        .insert("pid"@, pid_json(snapshot.pid));
    let timed = insert_time(
        insert_time(described, "elapsed_seconds"@, snapshot.elapsed_seconds),
        "duration_seconds"@,
        snapshot.duration_seconds,
    );
    timed
        .insert("is_playing"@, bool_json(snapshot.is_playing))
        .insert("artwork_data_url"@, text_json(snapshot.artwork_data_url))
        .insert("is_liked"@, bool_json(snapshot.is_liked))
        .insert("is_disliked"@, bool_json(snapshot.is_disliked))
        .insert("supports_like"@, JsonModel::Bool(snapshot.supports_like))
        .insert("supports_dislike"@, JsonModel::Bool(snapshot.supports_dislike))
}

proof fn lemma_written_map(snapshot: NowPlayingModel)
    ensures
        object_of(now_playing_members(snapshot)) == written_map(snapshot),
{
    reveal(written_map);
    let s0 = Seq::<(Seq<char>, JsonModel)>::empty();
    let s1 = s0.push(("title"@, text_json(snapshot.title)));
    lemma_object_of_push(s0, "title"@, text_json(snapshot.title));
    let s2 = s1.push(("artist"@, text_json(snapshot.artist)));
    lemma_object_of_push(s1, "artist"@, text_json(snapshot.artist));
    let s3 = s2.push(("album"@, text_json(snapshot.album)));
    lemma_object_of_push(s2, "album"@, text_json(snapshot.album));
    let s4 = s3.push(("app_name"@, text_json(snapshot.app_name)));
    lemma_object_of_push(s3, "app_name"@, text_json(snapshot.app_name));
    let s5 = s4.push(("bundle_id"@, text_json(snapshot.bundle_id)));
    lemma_object_of_push(s4, "bundle_id"@, text_json(snapshot.bundle_id));
    let s6 = s5.push(("unique_identifier"@, text_json(snapshot.unique_identifier)));
    lemma_object_of_push(s5, "unique_identifier"@, text_json(snapshot.unique_identifier));
    let s7 = s6.push(("content_item_identifier"@, text_json(snapshot.content_item_identifier)));
    lemma_object_of_push(s6, "content_item_identifier"@, text_json(snapshot.content_item_identifier));
    let s8 = s7.push(("media_type"@, integer_json(snapshot.media_type)));
    lemma_object_of_push(s7, "media_type"@, integer_json(snapshot.media_type));
    let s9 = s8.push(("pid"@, pid_json(snapshot.pid)));
    lemma_object_of_push(s8, "pid"@, pid_json(snapshot.pid));
    let s10 = s9 + time_member("elapsed_seconds"@, snapshot.elapsed_seconds);
    lemma_object_of_time(s9, "elapsed_seconds"@, snapshot.elapsed_seconds);
    let s11 = s10 + time_member("duration_seconds"@, snapshot.duration_seconds);
    lemma_object_of_time(s10, "duration_seconds"@, snapshot.duration_seconds);
    let s12 = s11.push(("is_playing"@, bool_json(snapshot.is_playing)));
    lemma_object_of_push(s11, "is_playing"@, bool_json(snapshot.is_playing));
    let s13 = s12.push(("artwork_data_url"@, text_json(snapshot.artwork_data_url)));
    lemma_object_of_push(s12, "artwork_data_url"@, text_json(snapshot.artwork_data_url));
    let s14 = s13.push(("is_liked"@, bool_json(snapshot.is_liked)));
    lemma_object_of_push(s13, "is_liked"@, bool_json(snapshot.is_liked));
    let s15 = s14.push(("is_disliked"@, bool_json(snapshot.is_disliked)));
    lemma_object_of_push(s14, "is_disliked"@, bool_json(snapshot.is_disliked));
    let s16 = s15.push(("supports_like"@, JsonModel::Bool(snapshot.supports_like)));
    lemma_object_of_push(s15, "supports_like"@, JsonModel::Bool(snapshot.supports_like));
    let s17 = s16.push(("supports_dislike"@, JsonModel::Bool(snapshot.supports_dislike)));
    lemma_object_of_push(s16, "supports_dislike"@, JsonModel::Bool(snapshot.supports_dislike));
    assert(s17 =~= now_playing_members(snapshot));
}

/// Every member of a written snapshot is found under its key.
#[verifier::spinoff_prover]
proof fn lemma_written_members(snapshot: NowPlayingModel)
    ensures
        written_map(snapshot).contains_key("title"@),
        written_map(snapshot)["title"@] == text_json(snapshot.title),
        written_map(snapshot).contains_key("artist"@),
        written_map(snapshot)["artist"@] == text_json(snapshot.artist),
        written_map(snapshot).contains_key("album"@),
        written_map(snapshot)["album"@] == text_json(snapshot.album),
        written_map(snapshot).contains_key("app_name"@),
        written_map(snapshot)["app_name"@] == text_json(snapshot.app_name),
        written_map(snapshot).contains_key("bundle_id"@),
        written_map(snapshot)["bundle_id"@] == text_json(snapshot.bundle_id),
        written_map(snapshot).contains_key("unique_identifier"@),
        written_map(snapshot)["unique_identifier"@] == text_json(snapshot.unique_identifier),
        written_map(snapshot).contains_key("content_item_identifier"@),
        written_map(snapshot)["content_item_identifier"@] == text_json(snapshot.content_item_identifier),
        written_map(snapshot).contains_key("media_type"@),
        written_map(snapshot)["media_type"@] == integer_json(snapshot.media_type),
        written_map(snapshot).contains_key("pid"@),
        written_map(snapshot)["pid"@] == pid_json(snapshot.pid),
        written_map(snapshot).contains_key("elapsed_seconds"@) <==> snapshot.elapsed_seconds is Some,
        snapshot.elapsed_seconds is Some ==> written_map(snapshot)["elapsed_seconds"@] == double_json(snapshot.elapsed_seconds),
        written_map(snapshot).contains_key("duration_seconds"@) <==> snapshot.duration_seconds is Some,
        snapshot.duration_seconds is Some ==> written_map(snapshot)["duration_seconds"@] == double_json(snapshot.duration_seconds),
        written_map(snapshot).contains_key("is_playing"@),
        written_map(snapshot)["is_playing"@] == bool_json(snapshot.is_playing),
        written_map(snapshot).contains_key("artwork_data_url"@),
        written_map(snapshot)["artwork_data_url"@] == text_json(snapshot.artwork_data_url),
        written_map(snapshot).contains_key("is_liked"@),
        written_map(snapshot)["is_liked"@] == bool_json(snapshot.is_liked),
        written_map(snapshot).contains_key("is_disliked"@),
        written_map(snapshot)["is_disliked"@] == bool_json(snapshot.is_disliked),
        written_map(snapshot).contains_key("supports_like"@),
        written_map(snapshot)["supports_like"@] == JsonModel::Bool(snapshot.supports_like),
        written_map(snapshot).contains_key("supports_dislike"@),
        written_map(snapshot)["supports_dislike"@] == JsonModel::Bool(snapshot.supports_dislike),
{
    reveal(written_map);
    reveal_strlit("title");
    reveal_strlit("artist");
    reveal_strlit("album");
    reveal_strlit("app_name");
    reveal_strlit("bundle_id");
    reveal_strlit("unique_identifier");
    reveal_strlit("content_item_identifier");
    reveal_strlit("media_type");
    reveal_strlit("pid");
    reveal_strlit("elapsed_seconds");
    reveal_strlit("duration_seconds");
    reveal_strlit("is_playing");
    reveal_strlit("artwork_data_url");
    reveal_strlit("is_liked");
    reveal_strlit("is_disliked");
    reveal_strlit("supports_like");
    reveal_strlit("supports_dislike");
    assert("title"@.len() == 5 && "title"@[0] == 't');
    assert("artist"@.len() == 6 && "artist"@[0] == 'a');
    assert("album"@.len() == 5 && "album"@[0] == 'a');
    assert("app_name"@.len() == 8 && "app_name"@[0] == 'a');
    assert("bundle_id"@.len() == 9 && "bundle_id"@[0] == 'b');
    assert("unique_identifier"@.len() == 17 && "unique_identifier"@[0] == 'u');
    assert("content_item_identifier"@.len() == 23 && "content_item_identifier"@[0] == 'c');
    assert("media_type"@.len() == 10 && "media_type"@[0] == 'm');
    assert("pid"@.len() == 3 && "pid"@[0] == 'p');
    assert("elapsed_seconds"@.len() == 15 && "elapsed_seconds"@[0] == 'e');
    assert("duration_seconds"@.len() == 16 && "duration_seconds"@[0] == 'd');
    assert("is_playing"@.len() == 10 && "is_playing"@[0] == 'i');
    assert("artwork_data_url"@.len() == 16 && "artwork_data_url"@[0] == 'a');
    assert("is_liked"@.len() == 8 && "is_liked"@[0] == 'i');
    assert("is_disliked"@.len() == 11 && "is_disliked"@[0] == 'i');
    assert("supports_like"@.len() == 13 && "supports_like"@[0] == 's');
    assert("supports_dislike"@.len() == 16 && "supports_dislike"@[0] == 's');
}

proof fn lemma_text_read(payload: JsonModel, key: Seq<char>, value: Option<Seq<char>>)
    requires
        payload.member(key) == Some(text_json(value)),
    ensures
        payload.text_at(key) == value,
{
}

proof fn lemma_integer_read(payload: JsonModel, key: Seq<char>, value: Option<i64>)
    requires
        payload.member(key) == Some(integer_json(value)),
    ensures
        payload.integer_at(key) == value,
{
}

proof fn lemma_pid_read(payload: JsonModel, key: Seq<char>, value: Option<i32>)
    requires
        payload.member(key) == Some(pid_json(value)),
        value matches Some(pid) ==> pid > 0,
    ensures
        now_playing::valid_pid(payload.integer_at(key)) == value,
{
}

proof fn lemma_time_read(payload: JsonModel, key: Seq<char>, value: Option<Double>)
    requires
        payload.member(key) is Some <==> value is Some,
        value is Some ==> payload.member(key) == Some(double_json(value)),
        value matches Some(seconds) ==> seconds@.is_time(),
    ensures
        now_playing::valid_time(payload.double_at(key)) == value,
{
}

proof fn lemma_bool_read(payload: JsonModel, key: Seq<char>, value: Option<bool>)
    requires
        payload.member(key) == Some(bool_json(value)),
    ensures
        payload.bool_at(key) == value,
{
}

/// A snapshot is read from what it is written as, but for its cover, which the
/// payloads of the direct path do not carry.
pub proof fn law_snapshots_are_read_as_written(written: Json, snapshot: NowPlayingModel)
    requires
        is_object_of(written, now_playing_members(snapshot)),
        snapshot.is_valid(),
    ensures
        now_playing::direct_now_playing(written.model()) == Some(
            NowPlayingModel { artwork_data_url: None, ..snapshot },
        ),
{
    lemma_written_object(written->Object_0@);
    lemma_written_map(snapshot);
    lemma_written_members(snapshot);
    let payload = written.model();
    let read = now_playing::direct_now_playing(payload)->0;
    lemma_text_read(payload, "title"@, snapshot.title);
    lemma_text_read(payload, "artist"@, snapshot.artist);
    lemma_text_read(payload, "album"@, snapshot.album);
    lemma_text_read(payload, "app_name"@, snapshot.app_name);
    lemma_text_read(payload, "bundle_id"@, snapshot.bundle_id);
    lemma_text_read(payload, "unique_identifier"@, snapshot.unique_identifier);
    lemma_text_read(payload, "content_item_identifier"@, snapshot.content_item_identifier);
    lemma_integer_read(payload, "media_type"@, snapshot.media_type);
    lemma_pid_read(payload, "pid"@, snapshot.pid);
    lemma_time_read(payload, "elapsed_seconds"@, snapshot.elapsed_seconds);
    lemma_time_read(payload, "duration_seconds"@, snapshot.duration_seconds);
    lemma_bool_read(payload, "is_playing"@, snapshot.is_playing);
    lemma_bool_read(payload, "is_liked"@, snapshot.is_liked);
    lemma_bool_read(payload, "is_disliked"@, snapshot.is_disliked);
    lemma_bool_read(payload, "supports_like"@, Some(snapshot.supports_like));
    lemma_bool_read(payload, "supports_dislike"@, Some(snapshot.supports_dislike));
    assert(read == NowPlayingModel { artwork_data_url: None, ..snapshot });
}

/// The members of times are written exactly where there are times.
pub proof fn law_missing_times_are_left_out(written: Json, snapshot: NowPlayingModel)
    requires
        is_object_of(written, now_playing_members(snapshot)),
    ensures
        written.model().member("elapsed_seconds"@) is Some <==> snapshot.elapsed_seconds is Some,
        written.model().member("duration_seconds"@) is Some <==> snapshot.duration_seconds is Some,
{
    lemma_written_object(written->Object_0@);
    lemma_written_map(snapshot);
    lemma_written_members(snapshot);
}

} // verus!
