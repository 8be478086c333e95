//! What the parsers make of payloads, member by member.

use vstd::prelude::*;
use vstd::utf8;

use crate::double;
use crate::double::Double;
use crate::json::{Json, JsonModel};
use crate::now_playing;
use crate::now_playing::NowPlaying;
use crate::parser;
use crate::session;
use crate::subscription;
use crate::subscription::Subscriptions;
use crate::text;

verus! {

// ------------------------------------------------------- fields and members

/// Whether a field holds the characters, or is empty where there are none.
pub open spec fn holds(field: Option<String>, value: Option<Seq<char>>) -> bool {
    match (field, value) {
        (Some(string), Some(chars)) => string@ == chars,
        (None, None) => true,
        _ => false,
    }
}

/// The characters of a member, where there is such a member and it is a string.
pub open spec fn member_text(members: Map<Seq<char>, JsonModel>, key: Seq<char>) -> Option<
    Seq<char>,
> {
    if members.contains_key(key) && members[key] is Text {
        Some(members[key]->Text_0)
    } else {
        None
    }
}

/// The truth value of a member, where there is such a member and it is one.
pub open spec fn member_bool(members: Map<Seq<char>, JsonModel>, key: Seq<char>) -> Option<bool> {
    if members.contains_key(key) && members[key] is Bool {
        Some(members[key]->Bool_0)
    } else {
        None
    }
}

/// The integer of a member, where there is such a member and it reads as one.
pub open spec fn member_integer(members: Map<Seq<char>, JsonModel>, key: Seq<char>) -> Option<i64> {
    if members.contains_key(key) && members[key] is Number {
        (members[key]->Number_0).integer
    } else {
        None
    }
}

/// The bits of a member's binary64 number, where there is such a member and it
/// is a number.
pub open spec fn member_bits(members: Map<Seq<char>, JsonModel>, key: Seq<char>) -> Option<u64> {
    if members.contains_key(key) && members[key] is Number {
        match (members[key]->Number_0).double {
            Some(double) => Some(double.bits),
            None => None,
        }
    } else {
        None
    }
}

/// Whether the bits are those of a finite number that is not negative, the
/// negative zero among them.
pub open spec fn time_bits(bits: u64) -> bool {
    bits < 0x7ff0_0000_0000_0000 || bits == 0x8000_0000_0000_0000
}

/// Whether the bits are those of a number above zero, infinity among them.
pub open spec fn positive_bits(bits: u64) -> bool {
    0 < bits <= 0x7ff0_0000_0000_0000
}

/// Whether a field is the member's time: its number as it is, where that is
/// finite and not negative.
pub open spec fn is_time_of(
    members: Map<Seq<char>, JsonModel>,
    key: Seq<char>,
    field: Option<Double>,
) -> bool {
    match member_bits(members, key) {
        Some(bits) => if time_bits(bits) {
            field == Some(Double { bits })
        } else {
            field is None
        },
        None => field is None,
    }
}

/// Whether a field is the member's process identifier: its integer, where that
/// is positive and fits 32 bits.
pub open spec fn is_pid_of(
    members: Map<Seq<char>, JsonModel>,
    key: Seq<char>,
    field: Option<i32>,
) -> bool {
    match member_integer(members, key) {
        Some(n) => if 1 <= n <= 0x7fff_ffff {
            field matches Some(pid) && pid == n
        } else {
            field is None
        },
        None => field is None,
    }
}

/// Whether all of the characters are white space.
pub open spec fn all_white(s: Seq<char>) -> bool {
    forall|i: int| 0 <= i < s.len() ==> text::is_white_space(#[trigger] s[i])
}

/// Whether `core` is what is left of `s` without the white space around it.
pub open spec fn is_core(s: Seq<char>, core: Seq<char>) -> bool {
    &&& exists|lead: Seq<char>, trail: Seq<char>|
        all_white(lead) && all_white(trail) && s == #[trigger] (lead + core + trail)
    &&& core.len() > 0 ==> !text::is_white_space(core.first()) && !text::is_white_space(core.last())
}

/// Whether a field is the member's string without the white space around it,
/// and empty where nothing is left.
pub open spec fn is_core_of(
    members: Map<Seq<char>, JsonModel>,
    key: Seq<char>,
    field: Option<String>,
) -> bool {
    match (member_text(members, key), field) {
        (Some(value), Some(string)) => is_core(value, string@) && string@.len() > 0,
        (Some(value), None) => all_white(value),
        (None, Some(_)) => false,
        (None, None) => true,
    }
}

/// Whether a field is the member's string as it is, and empty where that is
/// nothing but white space.
pub open spec fn is_identifier_of(
    members: Map<Seq<char>, JsonModel>,
    key: Seq<char>,
    field: Option<String>,
) -> bool {
    match member_text(members, key) {
        Some(value) => if all_white(value) {
            field is None
        } else {
            holds(field, Some(value))
        },
        None => field is None,
    }
}

// ------------------------------------------------------------------- texts

proof fn lemma_trim_start_parts(s: Seq<char>) -> (lead: Seq<char>)
    ensures
        all_white(lead),
        s == lead + text::trim_start(s),
    decreases s.len(),
{
    if s.len() > 0 && text::is_white_space(s.first()) {
        let rest = lemma_trim_start_parts(s.drop_first());
        let lead = seq![s.first()] + rest;
        assert(s =~= lead + text::trim_start(s)) by {
            assert(s =~= seq![s.first()] + s.drop_first());
        }
        lead
    } else {
        assert(s =~= Seq::<char>::empty() + s);
        Seq::empty()
    }
}

proof fn lemma_trim_end_parts(s: Seq<char>) -> (trail: Seq<char>)
    ensures
        all_white(trail),
        s == text::trim_end(s) + trail,
    decreases s.len(),
{
    if s.len() > 0 && text::is_white_space(s.last()) {
        let rest = lemma_trim_end_parts(s.drop_last());
        let trail = rest.push(s.last());
        assert(s =~= text::trim_end(s) + trail) by {
            assert(s =~= s.drop_last().push(s.last()));
        }
        trail
    } else {
        assert(s =~= s + Seq::<char>::empty());
        Seq::empty()
    }
}

/// What a trim leaves is the text without the white space around it.
pub proof fn lemma_trim_core(s: Seq<char>)
    ensures
        is_core(s, text::trim(s)),
        text::trim(s).len() == 0 <==> all_white(s),
{
    let lead = lemma_trim_start_parts(s);
    let trail = lemma_trim_end_parts(text::trim_start(s));
    let core = text::trim(s);
    assert(s =~= lead + core + trail);
    text::lemma_trim_ends(s);
    if core.len() == 0 {
        assert forall|i: int| 0 <= i < s.len() implies text::is_white_space(#[trigger] s[i]) by {
            if i < lead.len() {
                assert(s[i] == lead[i]);
            } else {
                assert(s[i] == trail[i - lead.len()]);
            }
        }
    } else {
        assert(s[lead.len() as int] == core.first());
    }
}

/// A stretch that neither starts nor ends with white space lies within what is
/// left of a text without the white space around it.
proof fn lemma_core_place(
    s: Seq<char>,
    from: int,
    to: int,
    lead: Seq<char>,
    core: Seq<char>,
    trail: Seq<char>,
)
    requires
        s == lead + core + trail,
        all_white(lead),
        all_white(trail),
        0 <= from < to <= s.len(),
        !text::is_white_space(s[from]),
        !text::is_white_space(s[to - 1]),
    ensures
        lead.len() <= from,
        to <= lead.len() + core.len(),
{
    if from < lead.len() {
        assert(s[from] == lead[from]);
    }
    if to > lead.len() + core.len() {
        let i = to - 1 - lead.len() - core.len();
        assert(s[to - 1] == trail[i]);
    }
}

/// Without the white space around it, a text is one and the same.
pub proof fn lemma_core_is_unique(s: Seq<char>, a: Seq<char>, b: Seq<char>)
    requires
        is_core(s, a),
        is_core(s, b),
    ensures
        a == b,
{
    let (la, ta) = choose|lead: Seq<char>, trail: Seq<char>|
        all_white(lead) && all_white(trail) && s == #[trigger] (lead + a + trail);
    let (lb, tb) = choose|lead: Seq<char>, trail: Seq<char>|
        all_white(lead) && all_white(trail) && s == #[trigger] (lead + b + trail);
    let (fa, ea) = (la.len() as int, (la.len() + a.len()) as int);
    let (fb, eb) = (lb.len() as int, (lb.len() + b.len()) as int);
    if a.len() > 0 {
        assert(s[fa] == a.first() && s[ea - 1] == a.last());
        lemma_core_place(s, fa, ea, lb, b, tb);
    }
    if b.len() > 0 {
        assert(s[fb] == b.first() && s[eb - 1] == b.last());
        lemma_core_place(s, fb, eb, la, a, ta);
    }
    assert(a.len() == b.len());
    if a.len() > 0 {
        assert(s.subrange(fa, ea) =~= a);
        assert(s.subrange(fb, eb) =~= b);
    } else {
        assert(a =~= b);
    }
}

/// A trim takes away the white space around a text, and nothing else: whatever
/// white space is put around it, the same text comes back.
pub proof fn law_trims_take_white_space_only(chars: &[char], res: &[char])
    requires
        call_ensures(text::trim_chars, (chars,), res),
    ensures
        is_core(chars@, res@),
        forall|lead: Seq<char>, core: Seq<char>, trail: Seq<char>|
            all_white(lead) && all_white(trail) && is_core(core, core) && chars@ == #[trigger] (lead
                + core + trail) ==> res@ == core,
{
    lemma_trim_core(chars@);
    assert forall|lead: Seq<char>, core: Seq<char>, trail: Seq<char>|
        all_white(lead) && all_white(trail) && is_core(core, core) && chars@ == #[trigger] (lead
            + core + trail) implies res@ == core by {
        assert(is_core(chars@, core));
        lemma_core_is_unique(chars@, core, res@);
    }
}

// ----------------------------------------------------------------- numbers

pub proof fn lemma_time_bits(d: Double)
    ensures
        d@.is_time() <==> time_bits(d.bits),
        d@.above_zero() <==> positive_bits(d.bits),
{
    if d.exponent_field() != 2047 {
        double::lemma_magnitude_sign(d);
    }
}

pub proof fn lemma_time_of(members: Map<Seq<char>, JsonModel>, key: Seq<char>)
    ensures
        is_time_of(
            members,
            key,
            now_playing::valid_time(JsonModel::Object(members).double_at(key)),
        ),
{
    if let Some(bits) = member_bits(members, key) {
        lemma_time_bits(Double { bits });
        assert((members[key]->Number_0).double == Some(Double { bits }));
    }
}

// ------------------------------------------------------------- direct path

/// Whether a snapshot holds what the members of a payload of the direct path
/// say, each field what its own member says.
pub open spec fn is_direct_reading(
    members: Map<Seq<char>, JsonModel>,
    snapshot: NowPlaying,
) -> bool {
    &&& holds(snapshot.title, member_text(members, "title"@))
    &&& holds(snapshot.artist, member_text(members, "artist"@))
    &&& holds(snapshot.album, member_text(members, "album"@))
    &&& holds(snapshot.app_name, member_text(members, "app_name"@))
    &&& holds(snapshot.bundle_id, member_text(members, "bundle_id"@))
    &&& holds(snapshot.unique_identifier, member_text(members, "unique_identifier"@))
    &&& holds(snapshot.content_item_identifier, member_text(members, "content_item_identifier"@))
    &&& snapshot.media_type == member_integer(members, "media_type"@)
    &&& is_pid_of(members, "pid"@, snapshot.pid)
    &&& is_time_of(members, "elapsed_seconds"@, snapshot.elapsed_seconds)
    &&& is_time_of(members, "duration_seconds"@, snapshot.duration_seconds)
    &&& snapshot.is_playing == member_bool(members, "is_playing"@)
    &&& snapshot.artwork_data_url is None
    &&& snapshot.is_liked == member_bool(members, "is_liked"@)
    &&& snapshot.is_disliked == member_bool(members, "is_disliked"@)
    &&& snapshot.supports_like <==> member_bool(members, "supports_like"@) == Some(true)
    &&& snapshot.supports_dislike <==> member_bool(members, "supports_dislike"@) == Some(true)
}

proof fn lemma_direct_reading(members: Map<Seq<char>, JsonModel>, snapshot: NowPlaying)
    requires
        now_playing::direct_now_playing(JsonModel::Object(members)) == Some(snapshot@),
    ensures
        is_direct_reading(members, snapshot),
{
    lemma_time_of(members, "elapsed_seconds"@);
    lemma_time_of(members, "duration_seconds"@);
}

/// Every object is a payload of the direct path, whatever its members hold, and
/// nothing else is; each field of the snapshot is what the member of its own
/// name says.
pub proof fn law_direct_payloads_are_read_by_member(payload: Json, res: Option<NowPlaying>)
    requires
        call_ensures(now_playing::parse_now_playing, (&payload,), res),
    ensures
        match payload.model() {
            JsonModel::Object(members) => res matches Some(snapshot) && is_direct_reading(
                members,
                snapshot,
            ),
            _ => res is None,
        },
{
    if let JsonModel::Object(members) = payload.model() {
        lemma_direct_reading(members, res->0);
    }
}

/// Whether a result is what the native layer's bytes say: a snapshot of the
/// members of the object they hold, and none only without bytes, where they are
/// not UTF-8, or where the text is no JSON object.
pub open spec fn is_native_reading(json: Option<Seq<u8>>, res: Option<NowPlaying>) -> bool {
    match json {
        None => res is None,
        Some(bytes) => {
            &&& !utf8::valid_utf8(bytes) ==> res is None
            &&& forall|chars: Seq<char>| #[trigger]
                utf8::encode_utf8(chars) == bytes ==> match parser::text_document(chars) {
                    Some(JsonModel::Object(members)) => res matches Some(snapshot)
                        && is_direct_reading(members, snapshot),
                    _ => res is None,
                }
        },
    }
}

proof fn lemma_native_reading(json: Option<Seq<u8>>, res: Option<NowPlaying>)
    requires
        now_playing::snapshot_view(res) == now_playing::native_now_playing(json),
    ensures
        is_native_reading(json, res),
{
    if let Some(bytes) = json {
        assert forall|chars: Seq<char>| #[trigger]
            utf8::encode_utf8(chars) == bytes implies match parser::text_document(chars) {
            Some(JsonModel::Object(members)) => res matches Some(snapshot) && is_direct_reading(
                members,
                snapshot,
            ),
            _ => res is None,
        } by {
            utf8::encode_utf8_valid_utf8(chars);
            utf8::encode_utf8_decode_utf8(chars);
            if let Some(JsonModel::Object(members)) = parser::text_document(chars) {
                lemma_direct_reading(members, res->0);
            }
        }
    }
}

/// The native layer's JSON becomes a snapshot whenever it is an object, and each
/// field is what its member says.
pub proof fn law_native_objects_are_snapshots(json: Option<&[u8]>, res: Option<NowPlaying>)
    requires
        call_ensures(now_playing::parse_json_c_string, (json,), res),
    ensures
        match json {
            Some(bytes) => is_native_reading(Some(bytes@), res),
            None => is_native_reading(None, res),
        },
{
    lemma_native_reading(now_playing::bytes_view(json), res);
}

/// Without an answer of the adapter, a fetch returns what the native layer's
/// bytes say, and hands it the timeout in whole milliseconds; an answer of the
/// adapter is returned as it is.
pub proof fn law_fetches_return_what_was_answered<D: FnOnce(u32) -> Option<Vec<u8>>>(
    secs: u64,
    nanos: u32,
    adapter: Option<NowPlaying>,
    direct: D,
    res: Option<NowPlaying>,
)
    requires
        call_ensures(session::now_playing_fetch::<D>, (secs, nanos, adapter, direct), res),
    ensures
        adapter is Some ==> res == adapter,
        adapter is None ==> exists|millis: u32, reply: Option<Vec<u8>>|
            {
                &&& #[trigger] direct.ensures((millis,), reply)
                &&& is_millis_of(secs, nanos, millis)
                &&& match reply {
                    Some(bytes) => is_native_reading(Some(bytes@), res),
                    None => res is None,
                }
            },
{
    if adapter is None {
        let millis = session::duration_millis(secs, nanos) as u32;
        let reply = choose|reply: Option<Vec<u8>>|
            {
                &&& #[trigger] direct.ensures((millis,), reply)
                &&& now_playing::snapshot_view(res) == now_playing::native_now_playing(
                    session::buffer_view(reply),
                )
            };
        lemma_native_reading(session::buffer_view(reply), res);
        lemma_millis(secs, nanos);
        assert(direct.ensures((millis,), reply));
    }
}

/// Whether `millis` are the whole milliseconds of a duration, or the most that
/// 32 bits hold where there are more.
pub open spec fn is_millis_of(secs: u64, nanos: u32, millis: u32) -> bool {
    let total = secs * 1_000_000_000 + nanos;
    if total >= 0x1_0000_0000 * 1_000_000 {
        millis == 0xffff_ffff
    } else {
        millis * 1_000_000 <= total < (millis + 1) * 1_000_000
    }
}

pub proof fn lemma_millis(secs: u64, nanos: u32)
    ensures
        is_millis_of(secs, nanos, session::duration_millis(secs, nanos) as u32),
{
}

/// Timeouts are the whole milliseconds of a duration, and the longest there are
/// for longer ones.
pub proof fn law_timeouts_are_whole_milliseconds(secs: u64, nanos: u32, res: u32)
    requires
        call_ensures(session::timeout_ms, (secs, nanos), res),
    ensures
        is_millis_of(secs, nanos, res),
{
    lemma_millis(secs, nanos);
}

// ----------------------------------------------------------- subscriptions

/// Whether a callback is called, and with what: nothing playing without JSON, a
/// snapshot where the JSON is an object, and no call otherwise.
pub open spec fn is_update(json: Option<&[u8]>, res: Option<Option<NowPlaying>>) -> bool {
    match json {
        None => res == Some(None::<NowPlaying>),
        Some(bytes) => match res {
            Some(Some(snapshot)) => is_native_reading(Some(bytes@), Some(snapshot)),
            Some(None) => false,
            None => is_native_reading(Some(bytes@), None),
        },
    }
}

proof fn lemma_update(json: Option<&[u8]>, res: Option<Option<NowPlaying>>)
    requires
        subscription::update_view(res) == subscription::update_for(now_playing::bytes_view(json)),
    ensures
        is_update(json, res),
{
    if let Some(bytes) = json {
        let snapshot = match res {
            Some(snapshot) => snapshot,
            None => None,
        };
        lemma_native_reading(Some(bytes@), snapshot);
    }
}

/// Subscribers hear of every object that the native layer hands out, and of
/// nothing playing exactly where it hands out nothing.
pub proof fn law_subscribers_hear_of_every_object(
    json: Option<&[u8]>,
    res: Option<Option<NowPlaying>>,
)
    requires
        call_ensures(subscription::subscription_update, (json,), res),
    ensures
        is_update(json, res),
{
    lemma_update(json, res);
}

/// A call back of the native layer reaches the callback of its context where
/// that is registered, and no other one.
pub proof fn law_calls_reach_their_context<'a, C>(
    subscriptions: &'a Subscriptions<C>,
    context: u64,
    json: Option<&[u8]>,
    res: Option<(&'a C, Option<NowPlaying>)>,
)
    requires
        call_ensures(
            subscription::subscription_trampoline::<C>,
            (subscriptions, context, json),
            res,
        ),
    ensures
        !subscriptions.callbacks@.contains_key(context) ==> res is None,
        subscriptions.callbacks@.contains_key(context) ==> match res {
            Some((callback, snapshot)) => *callback == subscriptions.callbacks@[context]
                && is_update(json, Some(snapshot)),
            None => is_update(json, None),
        },
{
    if subscriptions.callbacks@.contains_key(context) {
        match res {
            Some((callback, snapshot)) => {
                lemma_update(json, Some(snapshot));
            },
            None => {
                lemma_update(json, None);
            },
        }
    }
}

} // verus!
