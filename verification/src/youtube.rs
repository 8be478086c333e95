//! YouTube video IDs from MediaRemote identifier fields.

use vstd::prelude::*;
use vstd::slice::slice_subrange;

use crate::text;

verus! {

// ----------------------------------------------------------------- models

/// The alphabet of video IDs: ASCII letters and digits, `_` and `-`.
pub open spec fn is_id_char(c: char) -> bool {
    ||| 'A' <= c <= 'Z'
    ||| 'a' <= c <= 'z'
    ||| '0' <= c <= '9'
    ||| c == '_'
    ||| c == '-'
}

/// A video ID: exactly eleven characters of the alphabet.
pub open spec fn is_video_id(s: Seq<char>) -> bool {
    &&& s.len() == 11
    &&& forall|i: int| 0 <= i < s.len() ==> is_id_char(#[trigger] s[i])
}

/// `s`, where it is a video ID.
pub open spec fn video_id(s: Seq<char>) -> Option<Seq<char>> {
    if is_video_id(s) {
        Some(s)
    } else {
        None
    }
}

/// The parts of a URL that matter here.
pub struct UrlModel {
    /// What stands before `://`.
    pub scheme: Seq<char>,
    /// The host in lower case, without user information and port.
    pub host: Seq<char>,
    /// Path, query and fragment.
    pub remainder: Seq<char>,
}

/// The parts of the URL `s`, which has them where it holds `://`.
pub open spec fn split_url(s: Seq<char>) -> Option<UrlModel> {
    match text::find(s, "://"@) {
        None => None,
        Some(i) => {
            let rest = s.skip(i + 3);
            let authority = text::until(rest, seq!['/', '?', '#']);
            Some(
                UrlModel {
                    scheme: s.take(i),
                    host: text::lower_case(
                        text::until(text::after_last(authority, '@'), seq![':']),
                    ),
                    remainder: rest.skip(authority.len() as int),
                },
            )
        },
    }
}

/// The value of the first `v` parameter of a query.
pub open spec fn v_parameter(query: Seq<char>) -> Option<Seq<char>>
    decreases query.len(),
{
    let part = text::until(query, seq!['&']);
    match text::strip_prefix(part, "v="@) {
        Some(value) => Some(value),
        None => if part.len() < query.len() {
            v_parameter(query.skip(part.len() as int + 1))
        } else {
            None
        },
    }
}

/// What follows the first of the path prefixes that name a video.
pub open spec fn path_candidate(path: Seq<char>) -> Option<Seq<char>> {
    match text::strip_prefix(path, "/shorts/"@) {
        Some(rest) => Some(rest),
        None => match text::strip_prefix(path, "/embed/"@) {
            Some(rest) => Some(rest),
            None => text::strip_prefix(path, "/live/"@),
        },
    }
}

/// The video ID in what follows the host of a `youtu.be` URL.
pub open spec fn short_link_id(remainder: Seq<char>) -> Option<Seq<char>> {
    video_id(text::until(text::trim_start_char(remainder, '/'), seq!['?', '#']))
}

/// The video ID in what follows the host of a `youtube.com` URL.
pub open spec fn site_link_id(remainder: Seq<char>) -> Option<Seq<char>> {
    let path = text::until(remainder, seq!['?']);
    if text::same_ignoring_case(path, "/watch"@) {
        let query = if path.len() < remainder.len() {
            remainder.skip(path.len() as int + 1)
        } else {
            Seq::empty()
        };
        match v_parameter(query) {
            Some(candidate) => video_id(text::until(candidate, seq!['#'])),
            None => None,
        }
    } else {
        match path_candidate(path) {
            Some(candidate) => video_id(text::until(candidate, seq!['/', '?', '#'])),
            None => None,
        }
    }
}

/// The video ID that an explicit YouTube URL names.
pub open spec fn url_video_id(value: Seq<char>) -> Option<Seq<char>> {
    match split_url(text::trim(value)) {
        None => None,
        Some(url) => if !text::same_ignoring_case(url.scheme, "http"@)
            && !text::same_ignoring_case(url.scheme, "https"@) {
            None
        } else if url.host == "youtu.be"@ {
            short_link_id(url.remainder)
        } else if url.host == "youtube.com"@ || url.host == "www.youtube.com"@ || url.host
            == "m.youtube.com"@ {
            site_link_id(url.remainder)
        } else {
            None
        },
    }
}

/// The video ID that one identifier field confirms: the field itself, or the
/// ID in the YouTube URL that it is.
pub open spec fn value_video_id(value: Seq<char>) -> Option<Seq<char>> {
    if is_video_id(value) {
        Some(value)
    } else {
        url_video_id(value)
    }
}

/// What one identifier field confirms, where it is there.
pub open spec fn field_video_id(field: Option<Seq<char>>) -> Option<Seq<char>> {
    match field {
        Some(value) => value_video_id(value),
        None => None,
    }
}

/// The video ID that two identifier fields confirm: what one of them
/// confirms, unless the other confirms another.
pub open spec fn confirmed_video_id(first: Option<Seq<char>>, second: Option<Seq<char>>) -> Option<
    Seq<char>,
> {
    match (field_video_id(first), field_video_id(second)) {
        (Some(a), Some(b)) => if a == b {
            Some(a)
        } else {
            None
        },
        (Some(a), None) => Some(a),
        (None, b) => b,
    }
}

// ------------------------------------------------------------ executables

/// Whether `c` belongs to the alphabet of video IDs.
fn id_char(c: char) -> (res: bool)
    ensures
        res == is_id_char(c),
{
    ('A' <= c && c <= 'Z') || ('a' <= c && c <= 'z') || ('0' <= c && c <= '9') || c == '_' || c
        == '-'
}

/// The string of the given characters, where they are a video ID.
fn id_of(chars: &[char]) -> (res: Option<String>)
    ensures
        text::string_view(res) == video_id(chars@),
{
    if chars.len() != 11 {
        return None;
    }
    let mut i: usize = 0;
    while i < chars.len()
        invariant
            i <= chars@.len(),
            forall|j: int| 0 <= j < i ==> is_id_char(#[trigger] chars@[j]),
        decreases chars@.len() - i,
    {
        if !id_char(chars[i]) {
            assert(!is_id_char(chars@[i as int]));
            return None;
        }
        i += 1;
    }
    Some(text::string_of(chars))
}

/// `value`, where it is exactly eleven characters of the YouTube alphabet.
pub fn youtube_id(value: &str) -> (res: Option<String>)
    ensures
        text::string_view(res) == video_id(value@),
{
    id_of(text::chars_of(value).as_slice())
}

/// The value of the first `v` parameter of a query.
fn first_v_parameter(query: &[char]) -> (res: Option<&[char]>)
    ensures
        match res {
            Some(value) => v_parameter(query@) == Some(value@),
            None => v_parameter(query@) is None,
        },
{
    let mut rest = query;
    let key = text::chars_of("v=");
    loop
        invariant
            key@ == "v="@,
            v_parameter(query@) == v_parameter(rest@),
        decreases rest@.len(),
    {
        let separator = ['&'];
        let end = text::stop_position(rest, &separator);
        assert(separator@ == seq!['&']);
        let part = slice_subrange(rest, 0, end);
        assert(part@ == text::until(rest@, seq!['&']));
        match text::strip_prefix_chars(part, key.as_slice()) {
            Some(value) => {
                return Some(value);
            },
            None => {
                if end == rest.len() {
                    return None;
                }
                rest = slice_subrange(rest, end + 1, rest.len());
            },
        }
    }
}

/// The video ID in what follows the host of a `youtu.be` URL.
fn id_of_short_link(remainder: &[char]) -> (res: Option<String>)
    ensures
        text::string_view(res) == short_link_id(remainder@),
{
    let stops = ['?', '#'];
    assert(stops@ == seq!['?', '#']);
    id_of(text::until_chars(text::skip_leading_char(remainder, '/'), &stops))
}

/// What follows the first of the path prefixes that name a video.
fn candidate_in_path(path: &[char]) -> (res: Option<&[char]>)
    ensures
        match res {
            Some(candidate) => path_candidate(path@) == Some(candidate@),
            None => path_candidate(path@) is None,
        },
{
    match text::strip_prefix_chars(path, text::chars_of("/shorts/").as_slice()) {
        Some(rest) => Some(rest),
        None => match text::strip_prefix_chars(path, text::chars_of("/embed/").as_slice()) {
            Some(rest) => Some(rest),
            None => text::strip_prefix_chars(path, text::chars_of("/live/").as_slice()),
        },
    }
}

/// The video ID in what follows the host of a `youtube.com` URL.
fn id_of_site_link(remainder: &[char]) -> (res: Option<String>)
    ensures
        text::string_view(res) == site_link_id(remainder@),
{
    let question_mark = ['?'];
    assert(question_mark@ == seq!['?']);
    let path_end = text::stop_position(remainder, &question_mark);
    let path = slice_subrange(remainder, 0, path_end);
    assert(path@ == text::until(remainder@, seq!['?']));
    if text::equal_ignoring_case(path, text::chars_of("/watch").as_slice()) {
        let query = if path_end < remainder.len() {
            slice_subrange(remainder, path_end + 1, remainder.len())
        } else {
            slice_subrange(remainder, path_end, path_end)
        };
        match first_v_parameter(query) {
            Some(candidate) => {
                let hash = ['#'];
                assert(hash@ == seq!['#']);
                id_of(text::until_chars(candidate, &hash))
            },
            None => None,
        }
    } else {
        match candidate_in_path(path) {
            Some(candidate) => {
                let stops = ['/', '?', '#'];
                assert(stops@ == seq!['/', '?', '#']);
                id_of(text::until_chars(candidate, &stops))
            },
            None => None,
        }
    }
}

/// Extracts a YouTube video ID from an explicit YouTube URL.
///
/// The scheme is `http` or `https`, the host one of `youtu.be`, `youtube.com`,
/// `www.youtube.com` and `m.youtube.com`; user information, port and the case
/// of scheme and host do not matter, nor does white space around the URL.
pub fn youtube_video_id_from_url(value: &str) -> (res: Option<String>)
    ensures
        text::string_view(res) == url_video_id(value@),
{
    proof {
        reveal_strlit("://");
    }
    assert("://"@.len() == 3);
    let chars = text::chars_of(value);
    let url = text::trim_chars(chars.as_slice());
    let url_end = url.len();
    let scheme_end = match text::find_chars(url, text::chars_of("://").as_slice()) {
        Some(i) => i,
        None => {
            return None;
        },
    };
    let scheme = slice_subrange(url, 0, scheme_end);
    if !text::equal_ignoring_case(scheme, text::chars_of("http").as_slice())
        && !text::equal_ignoring_case(scheme, text::chars_of("https").as_slice()) {
        return None;
    }
    let rest = slice_subrange(url, scheme_end + 3, url_end);
    let stops = ['/', '?', '#'];
    assert(stops@ == seq!['/', '?', '#']);
    let authority_end = text::stop_position(rest, &stops);
    let authority = slice_subrange(rest, 0, authority_end);
    assert(authority@ == text::until(rest@, seq!['/', '?', '#']));
    let colon = [':'];
    assert(colon@ == seq![':']);
    let host = text::lower_case_chars(
        text::until_chars(text::after_last_char(authority, '@'), &colon),
    );
    let remainder = slice_subrange(rest, authority_end, rest.len());
    if text::equal_chars(host.as_slice(), text::chars_of("youtu.be").as_slice()) {
        return id_of_short_link(remainder);
    }
    if text::equal_chars(host.as_slice(), text::chars_of("youtube.com").as_slice())
        || text::equal_chars(host.as_slice(), text::chars_of("www.youtube.com").as_slice())
        || text::equal_chars(host.as_slice(), text::chars_of("m.youtube.com").as_slice()) {
        return id_of_site_link(remainder);
    }
    None
}

/// The video ID that one identifier field confirms: the field itself, or the
/// ID in the YouTube URL that it is.
pub fn youtube_video_id_from_value(value: &str) -> (res: Option<String>)
    ensures
        text::string_view(res) == value_video_id(value@),
{
    match youtube_id(value) {
        Some(id) => Some(id),
        None => youtube_video_id_from_url(value),
    }
}

/// Returns a confirmed YouTube video ID from MediaRemote identifier fields.
///
/// Identifiers are accepted only when they are exactly the eleven-character
/// YouTube alphabet, or when they are an explicit YouTube URL. Titles, UUIDs,
/// and arbitrary substrings are never treated as video IDs.
pub fn youtube_video_id(
    unique_identifier: Option<&str>,
    content_item_identifier: Option<&str>,
) -> (res: Option<String>)
    ensures
        text::string_view(res) == confirmed_video_id(
            text::str_view(unique_identifier),
            text::str_view(content_item_identifier),
        ),
{
    let first = match unique_identifier {
        Some(value) => youtube_video_id_from_value(value),
        None => None,
    };
    let second = match content_item_identifier {
        Some(value) => youtube_video_id_from_value(value),
        None => None,
    };
    match (first, second) {
        (Some(a), Some(b)) => if a == b {
            Some(a)
        } else {
            None
        },
        (Some(a), None) => Some(a),
        (None, other) => other,
    }
}

// ------------------------------------------------------------------- laws

/// Whatever the fields hold, a confirmed ID is exactly eleven characters of
/// the YouTube alphabet.
pub proof fn law_confirmed_ids_are_video_ids(
    unique_identifier: Option<Seq<char>>,
    content_item_identifier: Option<Seq<char>>,
)
    ensures
        match confirmed_video_id(unique_identifier, content_item_identifier) {
            Some(id) => is_video_id(id),
            None => true,
        },
{
}

/// Neither field has precedence over the other.
pub proof fn law_fields_are_interchangeable(first: Option<Seq<char>>, second: Option<Seq<char>>)
    ensures
        confirmed_video_id(first, second) == confirmed_video_id(second, first),
{
}

/// Fields that confirm different IDs confirm none.
pub proof fn law_contradicting_fields_confirm_nothing(first: Seq<char>, second: Seq<char>)
    requires
        value_video_id(first) is Some,
        value_video_id(second) is Some,
        value_video_id(first) != value_video_id(second),
    ensures
        confirmed_video_id(Some(first), Some(second)) is None,
{
}

/// A video ID confirms itself, and so does every ID that was confirmed before.
pub proof fn law_video_ids_confirm_themselves(id: Seq<char>)
    requires
        is_video_id(id),
    ensures
        confirmed_video_id(Some(id), None) == Some(id),
        confirmed_video_id(Some(id), Some(id)) == Some(id),
{
}

/// Text that is neither a video ID nor holds `://`, such as a title or a UUID,
/// confirms nothing, whatever stands inside it.
pub proof fn law_plain_text_confirms_nothing(value: Seq<char>)
    requires
        !is_video_id(value),
        forall|i: int| 0 <= i <= value.len() ==> !"://"@.is_prefix_of(#[trigger] value.skip(i)),
    ensures
        value_video_id(value) is None,
{
    text::lemma_trim_stretch(value);
    let trimmed = text::trim(value);
    let (a, b) = choose|a: int, b: int|
        0 <= a <= b <= value.len() && trimmed == #[trigger] value.subrange(a, b);
    text::lemma_found(trimmed, "://"@);
    if let Some(i) = text::find(trimmed, "://"@) {
        assert("://"@.is_prefix_of(value.skip(a + i))) by {
            assert forall|j: int| 0 <= j < "://"@.len() implies value.skip(a + i)[j]
                == "://"@[j] by {
                assert(trimmed.skip(i)[j] == "://"@[j]);
            }
            assert("://"@ =~= value.skip(a + i).take("://"@.len() as int));
        }
    }
}

/// White space around a bare video ID is not forgiven.
pub proof fn law_padded_ids_confirm_nothing(value: Seq<char>)
    requires
        is_video_id(text::trim(value)),
        text::trim(value) != value,
    ensures
        value_video_id(value) is None,
{
    let trimmed = text::trim(value);
    reveal_strlit("://");
    text::lemma_found(trimmed, "://"@);
    if let Some(i) = text::find(trimmed, "://"@) {
        assert(trimmed.skip(i)[0] == "://"@[0]);
        assert(is_id_char(trimmed[i]));
    }
    if is_video_id(value) {
        assert(is_id_char(value[0]) && is_id_char(value[10]));
        text::lemma_trim_keeps(value);
    }
}

/// Only `http` and `https` URLs of the four YouTube hosts name a video.
pub proof fn law_only_youtube_hosts_name_videos(value: Seq<char>)
    requires
        url_video_id(value) is Some,
    ensures
        split_url(text::trim(value)) matches Some(url) && {
            &&& text::same_ignoring_case(url.scheme, "http"@) || text::same_ignoring_case(
                url.scheme,
                "https"@,
            )
            &&& url.host == "youtu.be"@ || is_site_host(url.host)
        },
{
}

/// The hosts that serve video pages.
pub open spec fn is_site_host(host: Seq<char>) -> bool {
    host == "youtube.com"@ || host == "www.youtube.com"@ || host == "m.youtube.com"@
}

/// The schemes of web pages.
pub open spec fn is_web_scheme(scheme: Seq<char>) -> bool {
    scheme == "http"@ || scheme == "https"@
}

/// Whether `tail` can follow a part of a URL that ends at one of the `stops`:
/// it is empty, or starts with one of them and does not end in white space.
pub open spec fn is_tail(tail: Seq<char>, stops: Seq<char>) -> bool {
    tail.len() == 0 || (stops.contains(tail.first()) && !text::is_white_space(tail.last()))
}

/// A character of the given host: none that ends or splits an authority, and
/// none that the lower case changes.
spec fn is_host_char(c: char) -> bool {
    'a' <= c <= 'z' || c == '.'
}

proof fn lemma_host_chars(host: Seq<char>)
    requires
        host == "youtu.be"@ || is_site_host(host),
    ensures
        host.len() > 0,
        forall|i: int| 0 <= i < host.len() ==> is_host_char(#[trigger] host[i]),
{
    reveal_strlit("youtu.be");
    reveal_strlit("youtube.com");
    reveal_strlit("www.youtube.com");
    reveal_strlit("m.youtube.com");
    if host == "youtu.be"@ {
        assert(host =~= seq!['y', 'o', 'u', 't', 'u', '.', 'b', 'e']);
    } else if host == "youtube.com"@ {
        assert(host =~= seq!['y', 'o', 'u', 't', 'u', 'b', 'e', '.', 'c', 'o', 'm']);
    } else if host == "www.youtube.com"@ {
        assert(host =~= seq![
            'w',
            'w',
            'w',
            '.',
            'y',
            'o',
            'u',
            't',
            'u',
            'b',
            'e',
            '.',
            'c',
            'o',
            'm',
        ]);
    } else {
        assert(host =~= seq!['m', '.', 'y', 'o', 'u', 't', 'u', 'b', 'e', '.', 'c', 'o', 'm']);
    }
}

proof fn lemma_scheme_chars(scheme: Seq<char>)
    requires
        is_web_scheme(scheme),
    ensures
        scheme.len() > 0,
        forall|i: int| 0 <= i < scheme.len() ==> 'a' <= #[trigger] scheme[i] <= 'z',
{
    reveal_strlit("http");
    reveal_strlit("https");
    if scheme == "http"@ {
        assert(scheme =~= seq!['h', 't', 't', 'p']);
    } else {
        assert(scheme =~= seq!['h', 't', 't', 'p', 's']);
    }
}

/// The URL of the given parts.
pub open spec fn url(scheme: Seq<char>, host: Seq<char>, remainder: Seq<char>) -> Seq<char> {
    scheme + "://"@ + host + remainder
}

/// A URL that was put together from a scheme, a host and a path is taken apart
/// into the same three.
proof fn lemma_split_url(scheme: Seq<char>, host: Seq<char>, remainder: Seq<char>)
    requires
        is_web_scheme(scheme),
        host == "youtu.be"@ || is_site_host(host),
        remainder.len() > 0,
        remainder.first() == '/',
        !text::is_white_space(remainder.last()),
    ensures
        text::trim(url(scheme, host, remainder)) == url(scheme, host, remainder),
        split_url(url(scheme, host, remainder)) == Some(
            UrlModel { scheme, host, remainder },
        ),
{
    reveal_strlit("://");
    lemma_scheme_chars(scheme);
    lemma_host_chars(host);
    let s = url(scheme, host, remainder);
    let n = scheme.len() as int;
    assert(s.first() == scheme[0]);
    assert(s.last() == remainder.last());
    text::lemma_trim_keeps(s);
    assert forall|j: int| 0 <= j < n implies !"://"@.is_prefix_of(#[trigger] s.skip(j)) by {
        assert(s.skip(j)[0] == scheme[j]);
        if "://"@.is_prefix_of(s.skip(j)) {
            assert("://"@[0] == s.skip(j)[0]);
        }
    }
    assert("://"@.is_prefix_of(s.skip(n))) by {
        assert("://"@ =~= s.skip(n).take(3));
    }
    text::lemma_find(s, "://"@, n);
    let rest = s.skip(n + 3);
    assert(rest =~= host + remainder);
    let stops = seq!['/', '?', '#'];
    assert(stops.contains('/')) by {
        assert(stops[0] == '/');
    }
    assert forall|j: int| 0 <= j < host.len() implies !stops.contains(#[trigger] rest[j]) by {
        assert(is_host_char(host[j]));
    }
    assert(rest[host.len() as int] == '/');
    text::lemma_stop_index(rest, stops, host.len() as int);
    let authority = text::until(rest, stops);
    assert(authority =~= host);
    assert forall|j: int| 0 <= j < authority.len() implies #[trigger] authority[j] != '@' by {
        assert(is_host_char(host[j]));
    }
    text::lemma_after_last_absent(authority, '@');
    assert forall|j: int| 0 <= j < host.len() implies !seq![':'].contains(
        #[trigger] host[j],
    ) by {
        assert(is_host_char(host[j]));
    }
    text::lemma_stop_index(host, seq![':'], host.len() as int);
    assert(text::until(host, seq![':']) =~= host);
    assert(text::lower_case(host) =~= host) by {
        assert forall|j: int| 0 <= j < host.len() implies text::lower(#[trigger] host[j])
            == host[j] by {
            assert(is_host_char(host[j]));
        }
    }
    assert(s.take(n) =~= scheme);
    assert(rest.skip(authority.len() as int) =~= remainder);
}

/// An ID ends where a tail starts.
proof fn lemma_id_before_tail(id: Seq<char>, tail: Seq<char>, stops: Seq<char>)
    requires
        is_video_id(id),
        is_tail(tail, stops),
        forall|c: char| stops.contains(c) ==> !is_id_char(c),
    ensures
        text::until(id + tail, stops) == id,
{
    let s = id + tail;
    assert forall|j: int| 0 <= j < 11 implies !stops.contains(#[trigger] s[j]) by {
        assert(is_id_char(id[j]));
    }
    if tail.len() > 0 {
        assert(s[11] == tail[0]);
    }
    text::lemma_stop_index(s, stops, 11);
    assert(text::until(s, stops) =~= id);
}

/// Every short link, such as `https://youtu.be/<id>?t=4`, names its video.
pub proof fn law_short_links_name_their_video(scheme: Seq<char>, id: Seq<char>, tail: Seq<char>)
    requires
        is_web_scheme(scheme),
        is_video_id(id),
        is_tail(tail, seq!['?', '#']),
    ensures
        value_video_id(url(scheme, "youtu.be"@, "/"@ + id + tail)) == Some(id),
{
    reveal_strlit("/");
    reveal_strlit("://");
    let remainder = "/"@ + id + tail;
    assert(is_id_char(id[0]) && is_id_char(id[10]));
    if tail.len() == 0 {
        assert(remainder.last() == id[10]);
    } else {
        assert(remainder.last() == tail.last());
    }
    lemma_split_url(scheme, "youtu.be"@, remainder);
    assert(remainder.drop_first() =~= id + tail);
    assert((id + tail).first() == id[0]);
    assert(text::trim_start_char(id + tail, '/') == id + tail);
    assert(text::trim_start_char(remainder, '/') == id + tail);
    let stops = seq!['?', '#'];
    assert forall|c: char| stops.contains(c) implies !is_id_char(c) by {
        let k = choose|k: int| 0 <= k < stops.len() && stops[k] == c;
        assert(k == 0 || k == 1);
    }
    lemma_id_before_tail(id, tail, stops);
    lemma_links_are_no_ids(scheme, "youtu.be"@, remainder);
}

/// A URL is never a bare video ID.
proof fn lemma_links_are_no_ids(scheme: Seq<char>, host: Seq<char>, remainder: Seq<char>)
    ensures
        !is_video_id(url(scheme, host, remainder)),
{
    reveal_strlit("://");
    let s = url(scheme, host, remainder);
    if is_video_id(s) {
        assert(s[scheme.len() as int] == "://"@[0]);
        assert(is_id_char(s[scheme.len() as int]));
    }
}

/// Cutting a text at the first of the stops leaves a text without stops.
proof fn lemma_cut_tail(tail: Seq<char>, cut: char, other: char)
    requires
        tail.len() == 0 || tail.first() == cut || tail.first() == other,
    ensures
        ({
            let kept = text::until(tail, seq![cut]);
            kept.len() == 0 || kept.first() == other
        }),
{
    let stops = seq![cut];
    assert(stops.contains(cut)) by {
        assert(stops[0] == cut);
    }
    lemma_stop_index_bounds(tail, stops);
}

/// Text without stops is kept whole in front of what is cut.
proof fn lemma_until_behind(head: Seq<char>, rest: Seq<char>, stops: Seq<char>)
    requires
        forall|j: int| 0 <= j < head.len() ==> !stops.contains(#[trigger] head[j]),
    ensures
        text::stop_index(head + rest, stops) == head.len() + text::stop_index(rest, stops),
        text::until(head + rest, stops) == head + text::until(rest, stops),
        0 <= text::stop_index(rest, stops) <= rest.len(),
    decreases head.len(),
{
    lemma_stop_index_bounds(rest, stops);
    if head.len() == 0 {
        assert(head + rest =~= rest);
    } else {
        let s = head + rest;
        assert(!stops.contains(head[0]));
        assert(s.drop_first() =~= head.drop_first() + rest);
        assert forall|j: int| 0 <= j < head.len() - 1 implies !stops.contains(
            #[trigger] head.drop_first()[j],
        ) by {
            assert(!stops.contains(head[j + 1]));
        }
        lemma_until_behind(head.drop_first(), rest, stops);
    }
    assert(text::until(head + rest, stops) =~= head + text::until(rest, stops));
}

proof fn lemma_stop_index_bounds(s: Seq<char>, stops: Seq<char>)
    ensures
        0 <= text::stop_index(s, stops) <= s.len(),
    decreases s.len(),
{
    if s.len() > 0 && !stops.contains(s.first()) {
        lemma_stop_index_bounds(s.drop_first(), stops);
    }
}

/// Every watch link, such as `https://www.youtube.com/watch?v=<id>&t=4`, names
/// its video.
pub proof fn law_watch_links_name_their_video(
    scheme: Seq<char>,
    host: Seq<char>,
    id: Seq<char>,
    tail: Seq<char>,
)
    requires
        is_web_scheme(scheme),
        is_site_host(host),
        is_video_id(id),
        is_tail(tail, seq!['&', '#']),
    ensures
        value_video_id(url(scheme, host, "/watch?v="@ + id + tail)) == Some(id),
{
    reveal_strlit("/watch?v=");
    reveal_strlit("/watch");
    reveal_strlit("v=");
    reveal_strlit("youtu.be");
    reveal_strlit("youtube.com");
    reveal_strlit("www.youtube.com");
    reveal_strlit("m.youtube.com");
    let remainder = "/watch?v="@ + id + tail;
    assert(is_id_char(id[0]) && is_id_char(id[10]));
    if tail.len() == 0 {
        assert(remainder.last() == id[10]);
    } else {
        assert(remainder.last() == tail.last());
    }
    lemma_split_url(scheme, host, remainder);
    lemma_links_are_no_ids(scheme, host, remainder);
    assert(host != "youtu.be"@) by {
        assert("youtu.be"@.len() == 8);
        assert("youtube.com"@.len() == 11);
        assert("www.youtube.com"@.len() == 15);
        assert("m.youtube.com"@.len() == 13);
    }
    let question_mark = seq!['?'];
    assert(question_mark.contains('?')) by {
        assert(question_mark[0] == '?');
    }
    assert("/watch?v="@ =~= seq!['/', 'w', 'a', 't', 'c', 'h', '?', 'v', '=']);
    assert forall|j: int| 0 <= j < 6 implies !question_mark.contains(#[trigger] remainder[j]) by {
        assert(remainder[j] == "/watch?v="@[j]);
    }
    assert(remainder[6] == '?');
    text::lemma_stop_index(remainder, question_mark, 6);
    let path = text::until(remainder, question_mark);
    assert("/watch"@ =~= seq!['/', 'w', 'a', 't', 'c', 'h']);
    assert(path =~= "/watch"@);
    let query = remainder.skip(7);
    assert(query =~= "v="@ + id + tail);
    let ampersand = seq!['&'];
    let head = "v="@ + id;
    assert forall|j: int| 0 <= j < head.len() implies !ampersand.contains(#[trigger] head[j]) by {
        if j >= 2 {
            assert(is_id_char(id[j - 2]));
        }
    }
    assert(query =~= head + tail);
    lemma_until_behind(head, tail, ampersand);
    let kept = text::until(tail, ampersand);
    let part = text::until(query, ampersand);
    assert(part =~= head + kept);
    assert("v="@.is_prefix_of(part)) by {
        assert("v="@ =~= part.take(2));
    }
    assert(part.skip(2) =~= id + kept);
    if tail.len() > 0 {
        let k = choose|k: int| 0 <= k < 2 && seq!['&', '#'][k] == tail.first();
        assert(k == 0 || k == 1);
    }
    lemma_cut_tail(tail, '&', '#');
    let hash = seq!['#'];
    assert(hash.contains('#')) by {
        assert(hash[0] == '#');
    }
    assert forall|j: int| 0 <= j < id.len() implies !hash.contains(#[trigger] id[j]) by {
        assert(is_id_char(id[j]));
    }
    lemma_until_behind(id, kept, hash);
    assert(text::until(id + kept, hash) =~= id);
}

/// The path prefixes that name a video.
pub open spec fn is_video_path(prefix: Seq<char>) -> bool {
    prefix == "/shorts/"@ || prefix == "/embed/"@ || prefix == "/live/"@
}

/// Every link with the video in its path, such as
/// `https://www.youtube.com/shorts/<id>`, names its video.
pub proof fn law_path_links_name_their_video(
    scheme: Seq<char>,
    host: Seq<char>,
    prefix: Seq<char>,
    id: Seq<char>,
    tail: Seq<char>,
)
    requires
        is_web_scheme(scheme),
        is_site_host(host),
        is_video_path(prefix),
        is_video_id(id),
        is_tail(tail, seq!['/', '?', '#']),
    ensures
        value_video_id(url(scheme, host, prefix + id + tail)) == Some(id),
{
    reveal_strlit("/shorts/");
    reveal_strlit("/embed/");
    reveal_strlit("/live/");
    reveal_strlit("/watch");
    reveal_strlit("youtu.be");
    reveal_strlit("youtube.com");
    reveal_strlit("www.youtube.com");
    reveal_strlit("m.youtube.com");
    assert(host != "youtu.be"@) by {
        assert("youtu.be"@.len() == 8);
        assert("youtube.com"@.len() == 11);
        assert("www.youtube.com"@.len() == 15);
        assert("m.youtube.com"@.len() == 13);
    }
    assert("/shorts/"@ =~= seq!['/', 's', 'h', 'o', 'r', 't', 's', '/']);
    assert("/embed/"@ =~= seq!['/', 'e', 'm', 'b', 'e', 'd', '/']);
    assert("/live/"@ =~= seq!['/', 'l', 'i', 'v', 'e', '/']);
    let remainder = prefix + id + tail;
    assert(is_id_char(id[0]) && is_id_char(id[10]));
    if tail.len() == 0 {
        assert(remainder.last() == id[10]);
    } else {
        assert(remainder.last() == tail.last());
    }
    lemma_split_url(scheme, host, remainder);
    lemma_links_are_no_ids(scheme, host, remainder);
    let question_mark = seq!['?'];
    let head = prefix + id;
    assert forall|j: int| 0 <= j < head.len() implies !question_mark.contains(
        #[trigger] head[j],
    ) by {
        if j >= prefix.len() {
            assert(is_id_char(id[j - prefix.len()]));
        } else {
            assert(head[j] == prefix[j]);
        }
    }
    assert(remainder =~= head + tail);
    lemma_until_behind(head, tail, question_mark);
    let kept = text::until(tail, question_mark);
    let path = text::until(remainder, question_mark);
    assert(path =~= prefix + id + kept);
    assert(text::lower_case(path).len() == path.len());
    assert(text::lower_case("/watch"@).len() == 6);
    assert(!text::same_ignoring_case(path, "/watch"@));
    assert(prefix.is_prefix_of(path)) by {
        assert(prefix =~= path.take(prefix.len() as int));
    }
    assert(path[1] == prefix[1]);
    assert(path_candidate(path) == Some(path.skip(prefix.len() as int))) by {
        if "/shorts/"@.is_prefix_of(path) {
            assert("/shorts/"@[1] == path[1]);
        }
        if "/embed/"@.is_prefix_of(path) {
            assert("/embed/"@[1] == path[1]);
        }
    }
    assert(path.skip(prefix.len() as int) =~= id + kept);
    let stops = seq!['/', '?', '#'];
    if kept.len() > 0 {
        assert(kept.first() == tail.first());
    }
    assert forall|j: int| 0 <= j < id.len() implies !stops.contains(#[trigger] id[j]) by {
        assert(is_id_char(id[j]));
    }
    lemma_until_behind(id, kept, stops);
    assert(text::until(id + kept, stops) =~= id);
}

} // verus!
