//! Which links name a video, as a grammar of the characters that make them up.

use vstd::prelude::*;

use crate::laws::payloads;
use crate::text;
use crate::youtube;

verus! {

// ----------------------------------------------------------------- grammar

/// Whether the characters are a video ID: eleven letters, digits, `_` and `-`.
pub open spec fn is_id(s: Seq<char>) -> bool {
    &&& s.len() == 11
    &&& forall|i: int|
        0 <= i < 11 ==> {
            ||| 'A' <= #[trigger] s[i] <= 'Z'
            ||| 'a' <= s[i] <= 'z'
            ||| '0' <= s[i] <= '9'
            ||| s[i] == '_'
            ||| s[i] == '-'
        }
}

/// Whether none of the characters is one of the given ones.
pub open spec fn is_free_of(s: Seq<char>, stops: Seq<char>) -> bool {
    forall|i: int| 0 <= i < s.len() ==> !stops.contains(#[trigger] s[i])
}

/// Whether there are no characters, or the first is one of the given ones.
pub open spec fn begins_with(s: Seq<char>, starts: Seq<char>) -> bool {
    s.len() == 0 || starts.contains(s[0])
}

/// Whether the characters are a word in lower case, but for the case of theirs.
pub open spec fn reads(s: Seq<char>, word: Seq<char>) -> bool {
    &&& s.len() == word.len()
    &&& forall|i: int|
        0 <= i < s.len() ==> #[trigger] s[i] == word[i] || ('A' <= s[i] <= 'Z' && s[i] as int + 32
            == word[i] as int)
}

/// Whether the host stands in the authority, behind the user information and
/// before the port.
pub open spec fn is_host(authority: Seq<char>, host: Seq<char>) -> bool {
    exists|user: Seq<char>, port: Seq<char>|
        {
            &&& authority == #[trigger] (user + host + port)
            &&& user.len() == 0 || user.last() == '@'
            &&& is_free_of(host, seq!['@', ':'])
            &&& is_free_of(port, seq!['@'])
            &&& begins_with(port, seq![':'])
        }
}

/// Whether what follows the host is that of a short link to the video: slashes,
/// the ID, and a query or fragment.
pub open spec fn is_short(remainder: Seq<char>, id: Seq<char>) -> bool {
    exists|slashes: Seq<char>, tail: Seq<char>|
        {
            &&& remainder == #[trigger] (slashes + id + tail)
            &&& forall|i: int| 0 <= i < slashes.len() ==> #[trigger] slashes[i] == '/'
            &&& begins_with(tail, seq!['?', '#'])
        }
}

/// Whether `v=` stands at `i`.
pub open spec fn is_v_at(s: Seq<char>, i: int) -> bool {
    0 <= i && i + 1 < s.len() && s[i] == 'v' && s[i + 1] == '='
}

/// Whether the characters are query parameters, any number of them and each with
/// its `&`, of which none starts with `v=`.
pub open spec fn are_other_parameters(s: Seq<char>) -> bool {
    &&& s.len() == 0 || s.last() == '&'
    &&& forall|i: int| #[trigger] is_v_at(s, i) ==> i > 0 && s[i - 1] != '&'
}

/// A path with a query: other parameters, a `v` parameter, and what follows it.
pub open spec fn watch_parts(
    path: Seq<char>,
    others: Seq<char>,
    id: Seq<char>,
    tail: Seq<char>,
) -> Seq<char> {
    path + seq!['?'] + others + seq!['v', '='] + id + tail
}

/// Whether what follows the host is that of a watch link to the video: the path,
/// other parameters, the first `v` parameter, and more parameters or a fragment.
pub open spec fn is_watch(remainder: Seq<char>, id: Seq<char>) -> bool {
    exists|path: Seq<char>, others: Seq<char>, tail: Seq<char>|
        {
            &&& remainder == #[trigger] watch_parts(path, others, id, tail)
            &&& reads(path, seq!['/', 'w', 'a', 't', 'c', 'h'])
            &&& are_other_parameters(others)
            &&& begins_with(tail, seq!['&', '#'])
        }
}

/// Whether the characters are one of the paths that videos lie under.
pub open spec fn is_folder(s: Seq<char>) -> bool {
    ||| s == seq!['/', 's', 'h', 'o', 'r', 't', 's', '/']
    ||| s == seq!['/', 'e', 'm', 'b', 'e', 'd', '/']
    ||| s == seq!['/', 'l', 'i', 'v', 'e', '/']
}

/// Whether what follows the host is that of a link to the video by its path.
pub open spec fn is_by_path(remainder: Seq<char>, id: Seq<char>) -> bool {
    exists|folder: Seq<char>, tail: Seq<char>|
        {
            &&& remainder == #[trigger] (folder + id + tail)
            &&& is_folder(folder)
            &&& begins_with(tail, seq!['/', '?', '#'])
        }
}

/// Whether the host is that of short links.
pub open spec fn is_short_host(host: Seq<char>) -> bool {
    reads(host, seq!['y', 'o', 'u', 't', 'u', '.', 'b', 'e'])
}

/// Whether the host is one that serves video pages.
pub open spec fn is_page_host(host: Seq<char>) -> bool {
    let site = seq!['y', 'o', 'u', 't', 'u', 'b', 'e', '.', 'c', 'o', 'm'];
    ||| reads(host, site)
    ||| reads(host, seq!['w', 'w', 'w', '.'] + site)
    ||| reads(host, seq!['m', '.'] + site)
}

/// Whether a URL with these parts is a link to the video.
pub open spec fn is_link(
    scheme: Seq<char>,
    authority: Seq<char>,
    host: Seq<char>,
    remainder: Seq<char>,
    id: Seq<char>,
) -> bool {
    &&& reads(scheme, seq!['h', 't', 't', 'p']) || reads(scheme, seq!['h', 't', 't', 'p', 's'])
    &&& is_free_of(authority, seq!['/', '?', '#'])
    &&& is_host(authority, host)
    &&& begins_with(remainder, seq!['/', '?', '#'])
    &&& {
        ||| is_short_host(host) && is_short(remainder, id)
        ||| is_page_host(host) && (is_watch(remainder, id) || is_by_path(remainder, id))
    }
}

/// Whether a value is a link to the video, with white space around it or not.
pub open spec fn names(value: Seq<char>, id: Seq<char>) -> bool {
    &&& is_id(id)
    &&& exists|scheme: Seq<char>, authority: Seq<char>, host: Seq<char>, remainder: Seq<char>|
        {
            &&& #[trigger] is_link(scheme, authority, host, remainder, id)
            &&& payloads::is_core(value, scheme + seq![':', '/', '/'] + authority + remainder)
        }
}

// -------------------------------------------------------------- characters

proof fn lemma_id(s: Seq<char>)
    ensures
        is_id(s) <==> youtube::is_video_id(s),
{
    if is_id(s) {
        assert forall|i: int| 0 <= i < s.len() implies youtube::is_id_char(#[trigger] s[i]) by {}
    }
    if youtube::is_video_id(s) {
        assert forall|i: int| 0 <= i < 11 implies {
            ||| 'A' <= #[trigger] s[i] <= 'Z'
            ||| 'a' <= s[i] <= 'z'
            ||| '0' <= s[i] <= '9'
            ||| s[i] == '_'
            ||| s[i] == '-'
        } by {
            assert(youtube::is_id_char(s[i]));
        }
    }
}

/// Whether none of the characters can stand in a video ID.
spec fn are_marks(stops: Seq<char>) -> bool {
    forall|c: char| #[trigger] stops.contains(c) ==> !youtube::is_id_char(c)
}

proof fn lemma_marks()
    ensures
        are_marks(seq!['?', '#']),
        are_marks(seq!['&']),
        are_marks(seq!['#']),
        are_marks(seq!['?']),
        are_marks(seq!['/', '?', '#']),
{
    let a = seq!['?', '#'];
    assert forall|c: char| #[trigger] a.contains(c) implies !youtube::is_id_char(c) by {
        let k = choose|k: int| 0 <= k < a.len() && a[k] == c;
        assert(k == 0 || k == 1);
    }
    let b = seq!['&'];
    assert forall|c: char| #[trigger] b.contains(c) implies !youtube::is_id_char(c) by {
        let k = choose|k: int| 0 <= k < b.len() && b[k] == c;
    }
    let c1 = seq!['#'];
    assert forall|c: char| #[trigger] c1.contains(c) implies !youtube::is_id_char(c) by {
        let k = choose|k: int| 0 <= k < c1.len() && c1[k] == c;
    }
    let d = seq!['?'];
    assert forall|c: char| #[trigger] d.contains(c) implies !youtube::is_id_char(c) by {
        let k = choose|k: int| 0 <= k < d.len() && d[k] == c;
    }
    let e = seq!['/', '?', '#'];
    assert forall|c: char| #[trigger] e.contains(c) implies !youtube::is_id_char(c) by {
        let k = choose|k: int| 0 <= k < e.len() && e[k] == c;
        assert(k == 0 || k == 1 || k == 2);
    }
}

proof fn lemma_id_is_free(id: Seq<char>, stops: Seq<char>)
    requires
        is_id(id),
        are_marks(stops),
    ensures
        is_free_of(id, stops),
{
    lemma_id(id);
    assert forall|i: int| 0 <= i < id.len() implies !stops.contains(#[trigger] id[i]) by {
        assert(youtube::is_id_char(id[i]));
    }
}

proof fn lemma_contains_one(c: char, d: char)
    ensures
        seq![c].contains(d) <==> c == d,
{
    if c == d {
        assert(seq![c][0] == d);
    }
}

proof fn lemma_contains_two(a: char, b: char, d: char)
    ensures
        seq![a, b].contains(d) <==> a == d || b == d,
{
    let s = seq![a, b];
    assert(s[0] == a && s[1] == b);
    if s.contains(d) {
        let k = choose|k: int| 0 <= k < s.len() && s[k] == d;
        assert(k == 0 || k == 1);
    }
}

proof fn lemma_contains_three(a: char, b: char, c: char, d: char)
    ensures
        seq![a, b, c].contains(d) <==> a == d || b == d || c == d,
{
    let s = seq![a, b, c];
    assert(s[0] == a && s[1] == b && s[2] == c);
    if s.contains(d) {
        let k = choose|k: int| 0 <= k < s.len() && s[k] == d;
        assert(k == 0 || k == 1 || k == 2);
    }
}

/// Whether a word has no upper-case letters.
spec fn is_lower(word: Seq<char>) -> bool {
    forall|i: int| 0 <= i < word.len() ==> !('A' <= #[trigger] word[i] <= 'Z')
}

proof fn lemma_reads(s: Seq<char>, word: Seq<char>)
    requires
        is_lower(word),
    ensures
        reads(s, word) <==> text::lower_case(s) == word,
        reads(s, word) <==> text::same_ignoring_case(s, word),
{
    let lowered = text::lower_case(s);
    assert(text::lower_case(word) =~= word);
    if reads(s, word) {
        assert forall|i: int| 0 <= i < s.len() implies #[trigger] lowered[i] == word[i] by {
            assert(s[i] == word[i] || ('A' <= s[i] <= 'Z' && s[i] as int + 32 == word[i] as int));
            assert(!('A' <= word[i] <= 'Z'));
        }
        assert(lowered =~= word);
    }
    if lowered == word {
        assert(s.len() == word.len());
        assert forall|i: int| 0 <= i < s.len() implies #[trigger] s[i] == word[i] || ('A' <= s[i]
            <= 'Z' && s[i] as int + 32 == word[i] as int) by {
            assert(lowered[i] == text::lower(s[i]));
        }
    }
}

// ---------------------------------------------------------------- searches

proof fn lemma_until(a: Seq<char>, b: Seq<char>, stops: Seq<char>)
    requires
        is_free_of(a, stops),
        begins_with(b, stops),
    ensures
        text::until(a + b, stops) == a,
{
    let s = a + b;
    assert forall|j: int| 0 <= j < a.len() implies !stops.contains(#[trigger] s[j]) by {
        assert(s[j] == a[j]);
    }
    if b.len() > 0 {
        assert(s[a.len() as int] == b[0]);
    }
    text::lemma_stop_index(s, stops, a.len() as int);
    assert(s.take(a.len() as int) =~= a);
}

proof fn lemma_until_parts(s: Seq<char>, stops: Seq<char>) -> (rest: Seq<char>)
    ensures
        is_free_of(text::until(s, stops), stops),
        s == text::until(s, stops) + rest,
        begins_with(rest, stops),
        rest == s.skip(text::until(s, stops).len() as int),
    decreases s.len(),
{
    if s.len() == 0 || stops.contains(s.first()) {
        assert(text::until(s, stops) =~= Seq::<char>::empty());
        assert(s =~= text::until(s, stops) + s);
        assert(s.skip(0) =~= s);
        s
    } else {
        let rest = lemma_until_parts(s.drop_first(), stops);
        let front = text::until(s.drop_first(), stops);
        let k = text::stop_index(s.drop_first(), stops);
        assert(front.len() + rest.len() == s.len() - 1);
        lemma_stop_bounds(s.drop_first(), stops);
        assert(text::until(s, stops) =~= seq![s.first()] + front);
        assert(s =~= text::until(s, stops) + rest) by {
            assert(s =~= seq![s.first()] + s.drop_first());
        }
        assert forall|i: int| 0 <= i < text::until(s, stops).len() implies !stops.contains(
            #[trigger] text::until(s, stops)[i],
        ) by {
            if i > 0 {
                assert(text::until(s, stops)[i] == front[i - 1]);
            }
        }
        assert(rest =~= s.skip(text::until(s, stops).len() as int));
        rest
    }
}

proof fn lemma_stop_bounds(s: Seq<char>, stops: Seq<char>)
    ensures
        0 <= text::stop_index(s, stops) <= s.len(),
    decreases s.len(),
{
    if s.len() > 0 && !stops.contains(s.first()) {
        lemma_stop_bounds(s.drop_first(), stops);
    }
}

proof fn lemma_after_last(user: Seq<char>, rest: Seq<char>, c: char)
    requires
        is_free_of(rest, seq![c]),
        user.len() == 0 || user.last() == c,
    ensures
        text::after_last(user + rest, c) == rest,
    decreases rest.len(),
{
    let s = user + rest;
    if rest.len() == 0 {
        assert(s =~= user);
        assert(text::after_last(s, c) =~= Seq::<char>::empty());
    } else {
        let front = rest.drop_last();
        assert(s.last() == rest.last());
        lemma_contains_one(c, rest[rest.len() - 1]);
        assert(s.drop_last() =~= user + front);
        assert forall|i: int| 0 <= i < front.len() implies !seq![c].contains(
            #[trigger] front[i],
        ) by {
            assert(front[i] == rest[i]);
        }
        lemma_after_last(user, front, c);
        assert(rest =~= front.push(rest.last()));
    }
}

proof fn lemma_after_last_parts(s: Seq<char>, c: char) -> (user: Seq<char>)
    ensures
        s == user + text::after_last(s, c),
        user.len() == 0 || user.last() == c,
        is_free_of(text::after_last(s, c), seq![c]),
    decreases s.len(),
{
    if s.len() == 0 {
        assert(s =~= Seq::<char>::empty() + s);
        Seq::empty()
    } else if s.last() == c {
        assert(s =~= s + Seq::<char>::empty());
        s
    } else {
        let user = lemma_after_last_parts(s.drop_last(), c);
        let front = text::after_last(s.drop_last(), c);
        let rest = front.push(s.last());
        assert(s =~= user + rest) by {
            assert(s =~= s.drop_last().push(s.last()));
        }
        lemma_contains_one(c, s.last());
        assert forall|i: int| 0 <= i < rest.len() implies !seq![c].contains(#[trigger] rest[i]) by {
            if i < front.len() {
                assert(rest[i] == front[i]);
            }
        }
        user
    }
}

proof fn lemma_skip_char(lead: Seq<char>, rest: Seq<char>, c: char)
    requires
        forall|i: int| 0 <= i < lead.len() ==> #[trigger] lead[i] == c,
        rest.len() == 0 || rest[0] != c,
    ensures
        text::trim_start_char(lead + rest, c) == rest,
    decreases lead.len(),
{
    if lead.len() == 0 {
        assert(lead + rest =~= rest);
    } else {
        assert((lead + rest).first() == lead[0]);
        let less = lead.drop_first();
        assert forall|i: int| 0 <= i < less.len() implies #[trigger] less[i] == c by {
            assert(less[i] == lead[i + 1]);
        }
        assert((lead + rest).drop_first() =~= less + rest);
        lemma_skip_char(less, rest, c);
    }
}

proof fn lemma_skip_char_parts(s: Seq<char>, c: char) -> (lead: Seq<char>)
    ensures
        s == lead + text::trim_start_char(s, c),
        forall|i: int| 0 <= i < lead.len() ==> #[trigger] lead[i] == c,
    decreases s.len(),
{
    if s.len() > 0 && s.first() == c {
        let less = lemma_skip_char_parts(s.drop_first(), c);
        let lead = seq![c] + less;
        assert(s =~= lead + text::trim_start_char(s, c)) by {
            assert(s =~= seq![c] + s.drop_first());
        }
        lead
    } else {
        assert(s =~= Seq::<char>::empty() + s);
        Seq::empty()
    }
}

// ------------------------------------------------------------- remainders

proof fn lemma_short(remainder: Seq<char>, id: Seq<char>)
    requires
        is_id(id),
    ensures
        is_short(remainder, id) <==> youtube::short_link_id(remainder) == Some(id),
{
    let stops = seq!['?', '#'];
    lemma_marks();
    lemma_id(id);
    lemma_id_is_free(id, stops);
    assert(youtube::is_id_char(id[0]));
    if is_short(remainder, id) {
        let (slashes, tail) = choose|slashes: Seq<char>, tail: Seq<char>|
            {
                &&& remainder == #[trigger] (slashes + id + tail)
                &&& forall|i: int| 0 <= i < slashes.len() ==> #[trigger] slashes[i] == '/'
                &&& begins_with(tail, seq!['?', '#'])
            };
        assert(slashes + id + tail =~= slashes + (id + tail));
        assert((id + tail)[0] == id[0]);
        lemma_skip_char(slashes, id + tail, '/');
        lemma_until(id, tail, stops);
    }
    if youtube::short_link_id(remainder) == Some(id) {
        let slashes = lemma_skip_char_parts(remainder, '/');
        let rest = text::trim_start_char(remainder, '/');
        let tail = lemma_until_parts(rest, stops);
        assert(rest == id + tail);
        assert(remainder =~= slashes + id + tail);
    }
}

proof fn lemma_v_literal()
    ensures
        "v="@ == seq!['v', '='],
{
    reveal_strlit("v=");
    assert("v="@ =~= seq!['v', '=']);
}

proof fn lemma_v_prefix(part: Seq<char>)
    ensures
        "v="@.is_prefix_of(part) <==> part.len() >= 2 && part[0] == 'v' && part[1] == '=',
{
    lemma_v_literal();
    let v = seq!['v', '='];
    if part.len() >= 2 && part[0] == 'v' && part[1] == '=' {
        assert(v =~= part.take(2));
    }
    if v.is_prefix_of(part) {
        assert(part[0] == v[0] && part[1] == v[1]);
    }
}

/// Behind one of their `&`, the other parameters go on as such.
proof fn lemma_fewer_parameters(others: Seq<char>, n: int)
    requires
        are_other_parameters(others),
        0 <= n < others.len(),
        others[n] == '&',
    ensures
        are_other_parameters(others.skip(n + 1)),
{
    let less = others.skip(n + 1);
    if less.len() > 0 {
        assert(less.last() == others.last());
    }
    assert forall|i: int| #[trigger] is_v_at(less, i) implies i > 0 && less[i - 1] != '&' by {
        let j = i + n + 1;
        assert(less[i] == others[j] && less[i + 1] == others[j + 1]);
        assert(is_v_at(others, j));
        if i > 0 {
            assert(less[i - 1] == others[j - 1]);
        }
    }
}

/// One more parameter in front of the other ones is another one.
proof fn lemma_more_parameters(part: Seq<char>, others: Seq<char>)
    requires
        is_free_of(part, seq!['&']),
        !(part.len() >= 2 && part[0] == 'v' && part[1] == '='),
        are_other_parameters(others),
    ensures
        are_other_parameters(part + seq!['&'] + others),
{
    let all = part + seq!['&'] + others;
    let n = part.len() as int;
    assert(all[n] == '&');
    if others.len() > 0 {
        assert(all.last() == others.last());
    } else {
        assert(all.last() == all[n]);
    }
    assert forall|i: int| #[trigger] is_v_at(all, i) implies i > 0 && all[i - 1] != '&' by {
        if i <= n {
            if i > 0 {
                assert(all[i - 1] == part[i - 1]);
                lemma_contains_one('&', part[i - 1]);
            } else {
                if n >= 1 {
                    assert(all[0] == part[0]);
                }
                if n >= 2 {
                    assert(all[1] == part[1]);
                }
            }
        } else {
            let j = i - n - 1;
            assert(all[i] == others[j] && all[i + 1] == others[j + 1]);
            assert(is_v_at(others, j));
            assert(all[i - 1] == others[j - 1]);
        }
    }
}

/// A query that starts with `v=` has its value there.
proof fn lemma_v_here(rest: Seq<char>)
    ensures
        youtube::v_parameter(seq!['v', '='] + rest) == Some(text::until(rest, seq!['&'])),
{
    let key = seq!['v', '='];
    let query = key + rest;
    lemma_v_literal();
    assert forall|i: int| 0 <= i < key.len() implies !seq!['&'].contains(#[trigger] key[i]) by {
        lemma_contains_one('&', key[i]);
    }
    lemma_until_keeps(key, rest, seq!['&']);
    lemma_prefix(key, text::until(rest, seq!['&']));
}

/// A parameter that does not start with `v=` is passed over.
proof fn lemma_v_later(part: Seq<char>, query: Seq<char>)
    requires
        is_free_of(part, seq!['&']),
        !(part.len() >= 2 && part[0] == 'v' && part[1] == '='),
    ensures
        youtube::v_parameter(part + seq!['&'] + query) == youtube::v_parameter(query),
{
    let whole = part + seq!['&'] + query;
    let behind = seq!['&'] + query;
    assert(whole =~= part + behind);
    lemma_contains_one('&', behind[0]);
    lemma_until(part, behind, seq!['&']);
    lemma_v_prefix(part);
    assert(whole.skip(part.len() as int + 1) =~= query);
}

proof fn lemma_v_parameter(others: Seq<char>, rest: Seq<char>)
    requires
        are_other_parameters(others),
    ensures
        youtube::v_parameter(others + seq!['v', '='] + rest) == Some(text::until(rest, seq!['&'])),
    decreases others.len(),
{
    let query = others + seq!['v', '='] + rest;
    if others.len() == 0 {
        assert(query =~= seq!['v', '='] + rest);
        lemma_v_here(rest);
    } else {
        let part = text::until(others, seq!['&']);
        let behind = lemma_until_parts(others, seq!['&']);
        let n = part.len() as int;
        assert(behind.len() > 0) by {
            if behind.len() == 0 {
                assert(part =~= others);
                lemma_contains_one('&', part[n - 1]);
            }
        }
        lemma_contains_one('&', behind[0]);
        assert(others[n] == behind[0]);
        let less = others.skip(n + 1);
        lemma_fewer_parameters(others, n);
        lemma_v_parameter(less, rest);
        assert(!is_v_at(others, 0));
        if n >= 2 {
            assert(part[0] == others[0] && part[1] == others[1]);
        }
        lemma_v_later(part, less + seq!['v', '='] + rest);
        assert(query =~= part + seq!['&'] + (less + seq!['v', '='] + rest));
    }
}

proof fn lemma_v_parameter_parts(query: Seq<char>) -> (res: (Seq<char>, Seq<char>))
    requires
        youtube::v_parameter(query) is Some,
    ensures
        query == res.0 + seq!['v', '='] + youtube::v_parameter(query)->0 + res.1,
        are_other_parameters(res.0),
        begins_with(res.1, seq!['&']),
    decreases query.len(),
{
    let part = text::until(query, seq!['&']);
    let behind = lemma_until_parts(query, seq!['&']);
    let value = youtube::v_parameter(query)->0;
    lemma_v_literal();
    lemma_v_prefix(part);
    if "v="@.is_prefix_of(part) {
        lemma_prefix_parts(part, "v="@);
        assert(query =~= Seq::<char>::empty() + seq!['v', '='] + value + behind);
        (Seq::empty(), behind)
    } else {
        let n = part.len() as int;
        assert(n < query.len());
        let less = query.skip(n + 1);
        lemma_contains_one('&', behind[0]);
        assert(query[n] == behind[0]);
        assert(query =~= part + seq!['&'] + less);
        let (others, tail) = lemma_v_parameter_parts(less);
        lemma_more_parameters(part, others);
        let all = part + seq!['&'] + others;
        assert(query =~= all + seq!['v', '='] + value + tail);
        (all, tail)
    }
}

proof fn lemma_watch_literal()
    ensures
        "/watch"@ == seq!['/', 'w', 'a', 't', 'c', 'h'],
        is_lower("/watch"@),
{
    reveal_strlit("/watch");
    assert("/watch"@ =~= seq!['/', 'w', 'a', 't', 'c', 'h']);
}

/// An ID in front of more parameters or a fragment is what is left of them.
proof fn lemma_value(id: Seq<char>, tail: Seq<char>)
    requires
        is_id(id),
        begins_with(tail, seq!['&', '#']),
    ensures
        text::until(text::until(id + tail, seq!['&']), seq!['#']) == id,
{
    lemma_marks();
    lemma_id_is_free(id, seq!['#']);
    lemma_id_is_free(id, seq!['&']);
    let more = text::until(tail, seq!['&']);
    let rest = lemma_until_parts(tail, seq!['&']);
    lemma_until_keeps(id, tail, seq!['&']);
    if more.len() > 0 {
        assert(more[0] == tail[0]);
        lemma_contains_two('&', '#', tail[0]);
        lemma_contains_one('&', more[0]);
        lemma_contains_one('#', more[0]);
    }
    lemma_until(id, more, seq!['#']);
}

proof fn lemma_watch_path(path: Seq<char>)
    requires
        reads(path, seq!['/', 'w', 'a', 't', 'c', 'h']),
    ensures
        is_free_of(path, seq!['?']),
        path.len() == 6,
        text::same_ignoring_case(path, "/watch"@),
{
    let word = seq!['/', 'w', 'a', 't', 'c', 'h'];
    lemma_watch_literal();
    lemma_reads(path, word);
    assert forall|i: int| 0 <= i < path.len() implies !seq!['?'].contains(#[trigger] path[i]) by {
        lemma_contains_one('?', path[i]);
        assert(path[i] == word[i] || ('A' <= path[i] <= 'Z' && path[i] as int + 32
            == word[i] as int));
        assert(word[i] != '?');
    }
}

proof fn lemma_watch(remainder: Seq<char>, id: Seq<char>)
    requires
        is_id(id),
        is_watch(remainder, id),
    ensures
        youtube::site_link_id(remainder) == Some(id),
{
    let (path, others, tail) = choose|path: Seq<char>, others: Seq<char>, tail: Seq<char>|
        {
            &&& remainder == #[trigger] watch_parts(path, others, id, tail)
            &&& reads(path, seq!['/', 'w', 'a', 't', 'c', 'h'])
            &&& are_other_parameters(others)
            &&& begins_with(tail, seq!['&', '#'])
        };
    let query = others + seq!['v', '='] + (id + tail);
    let behind = seq!['?'] + query;
    assert(remainder =~= path + behind);
    lemma_watch_path(path);
    lemma_contains_one('?', behind[0]);
    lemma_until(path, behind, seq!['?']);
    assert(remainder.skip(path.len() as int + 1) =~= query);
    lemma_v_parameter(others, id + tail);
    lemma_value(id, tail);
    lemma_id(id);
}

proof fn lemma_watch_parts(remainder: Seq<char>, id: Seq<char>)
    requires
        youtube::site_link_id(remainder) == Some(id),
        text::same_ignoring_case(text::until(remainder, seq!['?']), "/watch"@),
    ensures
        is_watch(remainder, id),
{
    let path = text::until(remainder, seq!['?']);
    let behind = lemma_until_parts(remainder, seq!['?']);
    lemma_watch_literal();
    lemma_reads(path, seq!['/', 'w', 'a', 't', 'c', 'h']);
    let query = if path.len() < remainder.len() {
        remainder.skip(path.len() as int + 1)
    } else {
        Seq::empty()
    };
    let value = youtube::v_parameter(query)->0;
    let (others, rest) = lemma_v_parameter_parts(query);
    let more = lemma_until_parts(value, seq!['#']);
    assert(value == id + more);
    let tail = more + rest;
    assert(query.len() > 0);
    lemma_contains_one('?', behind[0]);
    assert(remainder[path.len() as int] == behind[0]);
    assert(remainder =~= path + seq!['?'] + query);
    assert(query =~= others + seq!['v', '='] + id + tail);
    assert(remainder =~= watch_parts(path, others, id, tail));
    if tail.len() > 0 {
        lemma_contains_two('&', '#', tail[0]);
        if more.len() > 0 {
            assert(tail[0] == more[0]);
            lemma_contains_one('#', more[0]);
        } else {
            assert(tail[0] == rest[0]);
            lemma_contains_one('&', rest[0]);
        }
    }
}

/// What holds none of the stops is kept in front of what is cut.
proof fn lemma_until_keeps(a: Seq<char>, b: Seq<char>, stops: Seq<char>)
    requires
        is_free_of(a, stops),
    ensures
        text::until(a + b, stops) == a + text::until(b, stops),
{
    let front = text::until(b, stops);
    let rest = lemma_until_parts(b, stops);
    let whole = a + front;
    assert forall|i: int| 0 <= i < whole.len() implies !stops.contains(#[trigger] whole[i]) by {
        if i < a.len() {
            assert(whole[i] == a[i]);
        } else {
            assert(whole[i] == front[i - a.len()]);
        }
    }
    assert(a + b =~= whole + rest);
    lemma_until(whole, rest, stops);
}

proof fn lemma_folder_literals()
    ensures
        "/shorts/"@ == seq!['/', 's', 'h', 'o', 'r', 't', 's', '/'],
        "/embed/"@ == seq!['/', 'e', 'm', 'b', 'e', 'd', '/'],
        "/live/"@ == seq!['/', 'l', 'i', 'v', 'e', '/'],
{
    reveal_strlit("/shorts/");
    reveal_strlit("/embed/");
    reveal_strlit("/live/");
    assert("/shorts/"@ =~= seq!['/', 's', 'h', 'o', 'r', 't', 's', '/']);
    assert("/embed/"@ =~= seq!['/', 'e', 'm', 'b', 'e', 'd', '/']);
    assert("/live/"@ =~= seq!['/', 'l', 'i', 'v', 'e', '/']);
}

proof fn lemma_prefix(prefix: Seq<char>, rest: Seq<char>)
    ensures
        prefix.is_prefix_of(prefix + rest),
        text::strip_prefix(prefix + rest, prefix) == Some(rest),
{
    assert((prefix + rest).take(prefix.len() as int) =~= prefix);
    assert((prefix + rest).skip(prefix.len() as int) =~= rest);
}

proof fn lemma_prefix_parts(s: Seq<char>, prefix: Seq<char>)
    requires
        prefix.is_prefix_of(s),
    ensures
        s == prefix + s.skip(prefix.len() as int),
{
    assert(s =~= prefix + s.skip(prefix.len() as int));
}

proof fn lemma_folder(folder: Seq<char>, rest: Seq<char>)
    requires
        is_folder(folder),
    ensures
        youtube::path_candidate(folder + rest) == Some(rest),
        !reads(folder + rest, seq!['/', 'w', 'a', 't', 'c', 'h']),
        is_free_of(folder, seq!['?']),
{
    lemma_folder_literals();
    lemma_prefix(folder, rest);
    let s = folder + rest;
    assert(s[1] == folder[1]);
    let shorts = "/shorts/"@;
    let embed = "/embed/"@;
    assert(shorts[1] == 's' && embed[1] == 'e' && "/live/"@[1] == 'l');
    if folder != shorts {
        assert(!shorts.is_prefix_of(s)) by {
            if shorts.is_prefix_of(s) {
                assert(s[1] == shorts[1]);
            }
        }
        if folder != embed {
            assert(!embed.is_prefix_of(s)) by {
                if embed.is_prefix_of(s) {
                    assert(s[1] == embed[1]);
                }
            }
        }
    }
    let word = seq!['/', 'w', 'a', 't', 'c', 'h'];
    if reads(s, word) {
        assert(s[1] == word[1] || ('A' <= s[1] <= 'Z' && s[1] as int + 32 == word[1] as int));
    }
    assert forall|i: int| 0 <= i < folder.len() implies !seq!['?'].contains(
        #[trigger] folder[i],
    ) by {
        lemma_contains_one('?', folder[i]);
    }
}

proof fn lemma_by_path(remainder: Seq<char>, id: Seq<char>)
    requires
        is_id(id),
    ensures
        is_by_path(remainder, id) ==> youtube::site_link_id(remainder) == Some(id),
        youtube::site_link_id(remainder) == Some(id) && !text::same_ignoring_case(
            text::until(remainder, seq!['?']),
            "/watch"@,
        ) ==> is_by_path(remainder, id),
{
    let mark = seq!['?'];
    let stops = seq!['/', '?', '#'];
    let word = seq!['/', 'w', 'a', 't', 'c', 'h'];
    lemma_watch_literal();
    lemma_folder_literals();
    lemma_marks();
    lemma_id(id);
    lemma_id_is_free(id, mark);
    lemma_id_is_free(id, stops);
    if is_by_path(remainder, id) {
        let (folder, tail) = choose|folder: Seq<char>, tail: Seq<char>|
            {
                &&& remainder == #[trigger] (folder + id + tail)
                &&& is_folder(folder)
                &&& begins_with(tail, seq!['/', '?', '#'])
            };
        let front = folder + id;
        lemma_folder(folder, id);
        assert forall|i: int| 0 <= i < front.len() implies !mark.contains(#[trigger] front[i]) by {
            if i < folder.len() {
                assert(front[i] == folder[i]);
            } else {
                assert(front[i] == id[i - folder.len()]);
            }
        }
        let more = text::until(tail, mark);
        let unused = lemma_until_parts(tail, mark);
        lemma_until_keeps(front, tail, mark);
        let path = text::until(remainder, mark);
        assert(path =~= folder + (id + more));
        lemma_folder(folder, id + more);
        lemma_reads(path, word);
        if more.len() > 0 {
            assert(more[0] == tail[0]);
        }
        lemma_until(id, more, stops);
    }
    let path = text::until(remainder, mark);
    if youtube::site_link_id(remainder) == Some(id) && !text::same_ignoring_case(
        path,
        "/watch"@,
    ) {
        let behind = lemma_until_parts(remainder, mark);
        let candidate = youtube::path_candidate(path)->0;
        let more = lemma_until_parts(candidate, stops);
        assert(candidate == id + more);
        let folder = if "/shorts/"@.is_prefix_of(path) {
            "/shorts/"@
        } else if "/embed/"@.is_prefix_of(path) {
            "/embed/"@
        } else {
            "/live/"@
        };
        lemma_prefix_parts(path, folder);
        let tail = more + behind;
        assert(remainder =~= folder + id + tail);
        if tail.len() > 0 {
            lemma_contains_three('/', '?', '#', tail[0]);
            if more.len() > 0 {
                assert(tail[0] == more[0]);
            } else {
                assert(tail[0] == behind[0]);
                lemma_contains_one('?', behind[0]);
            }
        }
        assert(is_by_path(remainder, id));
    }
}

// -------------------------------------------------------------------- hosts

proof fn lemma_host(authority: Seq<char>, host: Seq<char>)
    requires
        is_host(authority, host),
    ensures
        text::until(text::after_last(authority, '@'), seq![':']) == host,
{
    let (user, port) = choose|user: Seq<char>, port: Seq<char>|
        {
            &&& authority == #[trigger] (user + host + port)
            &&& user.len() == 0 || user.last() == '@'
            &&& is_free_of(host, seq!['@', ':'])
            &&& is_free_of(port, seq!['@'])
            &&& begins_with(port, seq![':'])
        };
    let rest = host + port;
    assert(authority =~= user + rest);
    assert forall|i: int| 0 <= i < rest.len() implies !seq!['@'].contains(#[trigger] rest[i]) by {
        if i < host.len() {
            assert(rest[i] == host[i]);
            lemma_contains_two('@', ':', host[i]);
            lemma_contains_one('@', host[i]);
        } else {
            assert(rest[i] == port[i - host.len()]);
        }
    }
    lemma_after_last(user, rest, '@');
    assert forall|i: int| 0 <= i < host.len() implies !seq![':'].contains(#[trigger] host[i]) by {
        lemma_contains_two('@', ':', host[i]);
        lemma_contains_one(':', host[i]);
    }
    lemma_until(host, port, seq![':']);
}

proof fn lemma_host_parts(authority: Seq<char>)
    ensures
        is_host(authority, text::until(text::after_last(authority, '@'), seq![':'])),
{
    let user = lemma_after_last_parts(authority, '@');
    let rest = text::after_last(authority, '@');
    let port = lemma_until_parts(rest, seq![':']);
    let host = text::until(rest, seq![':']);
    assert(authority =~= user + host + port);
    assert forall|i: int| 0 <= i < host.len() implies !seq!['@', ':'].contains(
        #[trigger] host[i],
    ) by {
        lemma_contains_two('@', ':', host[i]);
        assert(rest[i] == host[i]);
        lemma_contains_one('@', rest[i]);
        lemma_contains_one(':', host[i]);
    }
    assert forall|i: int| 0 <= i < port.len() implies !seq!['@'].contains(#[trigger] port[i]) by {
        assert(rest[i + host.len()] == port[i]);
    }
}

proof fn lemma_host_words()
    ensures
        "http"@ == seq!['h', 't', 't', 'p'],
        "https"@ == seq!['h', 't', 't', 'p', 's'],
        "youtu.be"@ == seq!['y', 'o', 'u', 't', 'u', '.', 'b', 'e'],
        "youtube.com"@ == seq!['y', 'o', 'u', 't', 'u', 'b', 'e', '.', 'c', 'o', 'm'],
        "www.youtube.com"@ == seq!['w', 'w', 'w', '.'] + "youtube.com"@,
        "m.youtube.com"@ == seq!['m', '.'] + "youtube.com"@,
        "://"@ == seq![':', '/', '/'],
        is_lower("http"@),
        is_lower("https"@),
        is_lower("youtu.be"@),
        is_lower("youtube.com"@),
        is_lower("www.youtube.com"@),
        is_lower("m.youtube.com"@),
{
    reveal_strlit("http");
    reveal_strlit("https");
    reveal_strlit("youtu.be");
    reveal_strlit("youtube.com");
    reveal_strlit("www.youtube.com");
    reveal_strlit("m.youtube.com");
    reveal_strlit("://");
    assert("http"@ =~= seq!['h', 't', 't', 'p']);
    assert("https"@ =~= seq!['h', 't', 't', 'p', 's']);
    assert("youtu.be"@ =~= seq!['y', 'o', 'u', 't', 'u', '.', 'b', 'e']);
    assert("youtube.com"@ =~= seq!['y', 'o', 'u', 't', 'u', 'b', 'e', '.', 'c', 'o', 'm']);
    assert("www.youtube.com"@ =~= seq!['w', 'w', 'w', '.'] + "youtube.com"@);
    assert("m.youtube.com"@ =~= seq!['m', '.'] + "youtube.com"@);
    assert("://"@ =~= seq![':', '/', '/']);
}

proof fn lemma_hosts(host: Seq<char>)
    ensures
        is_short_host(host) <==> text::lower_case(host) == "youtu.be"@,
        is_page_host(host) <==> text::lower_case(host) == "youtube.com"@ || text::lower_case(host)
            == "www.youtube.com"@ || text::lower_case(host) == "m.youtube.com"@,
        is_short_host(host) ==> !is_page_host(host),
{
    lemma_host_words();
    lemma_reads(host, "youtu.be"@);
    lemma_reads(host, "youtube.com"@);
    lemma_reads(host, "www.youtube.com"@);
    lemma_reads(host, "m.youtube.com"@);
    assert("youtu.be"@.len() == 8);
    assert("youtube.com"@.len() == 11);
    assert("www.youtube.com"@.len() == 15);
    assert("m.youtube.com"@.len() == 13);
}

proof fn lemma_schemes(scheme: Seq<char>)
    ensures
        reads(scheme, seq!['h', 't', 't', 'p']) <==> text::same_ignoring_case(scheme, "http"@),
        reads(scheme, seq!['h', 't', 't', 'p', 's']) <==> text::same_ignoring_case(
            scheme,
            "https"@,
        ),
        reads(scheme, seq!['h', 't', 't', 'p']) || reads(scheme, seq!['h', 't', 't', 'p', 's'])
            ==> forall|i: int| 0 <= i < scheme.len() ==> #[trigger] scheme[i] != ':',
{
    lemma_host_words();
    lemma_reads(scheme, "http"@);
    lemma_reads(scheme, "https"@);
    if reads(scheme, "http"@) || reads(scheme, "https"@) {
        let word = if reads(scheme, "http"@) {
            "http"@
        } else {
            "https"@
        };
        assert forall|i: int| 0 <= i < scheme.len() implies #[trigger] scheme[i] != ':' by {
            assert(scheme[i] == word[i] || ('A' <= scheme[i] <= 'Z' && scheme[i] as int + 32
                == word[i] as int));
            assert(word[i] != ':');
        }
    }
}

// -------------------------------------------------------------------- links

proof fn lemma_split(scheme: Seq<char>, authority: Seq<char>, remainder: Seq<char>)
    requires
        forall|i: int| 0 <= i < scheme.len() ==> #[trigger] scheme[i] != ':',
        is_free_of(authority, seq!['/', '?', '#']),
        begins_with(remainder, seq!['/', '?', '#']),
    ensures
        youtube::split_url(scheme + seq![':', '/', '/'] + authority + remainder) == Some(
            youtube::UrlModel {
                scheme,
                host: text::lower_case(
                    text::until(text::after_last(authority, '@'), seq![':']),
                ),
                remainder,
            },
        ),
{
    let mark = seq![':', '/', '/'];
    let s = scheme + mark + authority + remainder;
    let n = scheme.len() as int;
    lemma_host_words();
    assert(s.skip(n) =~= mark + (authority + remainder));
    lemma_prefix(mark, authority + remainder);
    assert forall|j: int| 0 <= j < n implies !mark.is_prefix_of(#[trigger] s.skip(j)) by {
        if mark.is_prefix_of(s.skip(j)) {
            assert(s.skip(j)[0] == mark[0]);
            assert(s.skip(j)[0] == scheme[j]);
        }
    }
    text::lemma_find(s, mark, n);
    let rest = s.skip(n + 3);
    assert(rest =~= authority + remainder);
    lemma_until(authority, remainder, seq!['/', '?', '#']);
    assert(s.take(n) =~= scheme);
    assert(rest.skip(authority.len() as int) =~= remainder);
}

proof fn lemma_names(value: Seq<char>, id: Seq<char>)
    requires
        names(value, id),
    ensures
        youtube::url_video_id(value) == Some(id),
{
    let (scheme, authority, host, remainder) = choose|
        scheme: Seq<char>,
        authority: Seq<char>,
        host: Seq<char>,
        remainder: Seq<char>,
    |
        {
            &&& #[trigger] is_link(scheme, authority, host, remainder, id)
            &&& payloads::is_core(value, scheme + seq![':', '/', '/'] + authority + remainder)
        };
    let url = scheme + seq![':', '/', '/'] + authority + remainder;
    payloads::lemma_trim_core(value);
    payloads::lemma_core_is_unique(value, url, text::trim(value));
    lemma_schemes(scheme);
    lemma_split(scheme, authority, remainder);
    lemma_host(authority, host);
    lemma_hosts(host);
    lemma_short(remainder, id);
    if is_watch(remainder, id) {
        lemma_watch(remainder, id);
    }
    lemma_by_path(remainder, id);
}

proof fn lemma_named(value: Seq<char>, id: Seq<char>)
    requires
        youtube::url_video_id(value) == Some(id),
    ensures
        names(value, id),
{
    let url = text::trim(value);
    payloads::lemma_trim_core(value);
    lemma_host_words();
    text::lemma_found(url, "://"@);
    let i = text::find(url, "://"@)->0;
    let parts = youtube::split_url(url)->0;
    let scheme = url.take(i);
    lemma_prefix_parts(url.skip(i), "://"@);
    let rest = url.skip(i + 3);
    assert(rest =~= url.skip(i).skip(3));
    let authority = text::until(rest, seq!['/', '?', '#']);
    let remainder = lemma_until_parts(rest, seq!['/', '?', '#']);
    assert(url =~= scheme + seq![':', '/', '/'] + authority + remainder) by {
        assert(url =~= scheme + url.skip(i));
    }
    let host = text::until(text::after_last(authority, '@'), seq![':']);
    lemma_host_parts(authority);
    lemma_schemes(scheme);
    lemma_hosts(host);
    lemma_id(id);
    assert(is_id(id));
    lemma_short(remainder, id);
    if is_page_host(host) && text::same_ignoring_case(
        text::until(remainder, seq!['?']),
        "/watch"@,
    ) {
        lemma_watch_parts(remainder, id);
    }
    lemma_by_path(remainder, id);
    assert(is_link(scheme, authority, host, remainder, id));
}

/// A URL names the video that the grammar of links says, and no other; where the
/// grammar says none, nothing is named. Any number of other parameters may stand
/// in front of `v`, and white space, user information, a port, and the case of
/// scheme and host do not matter.
pub proof fn law_links_name_their_videos(value: &str, res: Option<String>, id: Seq<char>)
    requires
        call_ensures(youtube::youtube_video_id_from_url, (value,), res),
    ensures
        names(value@, id) <==> (res matches Some(found) && found@ == id),
{
    if names(value@, id) {
        lemma_names(value@, id);
    }
    if let Some(found) = res {
        lemma_named(value@, found@);
    }
}

// ------------------------------------------------------------------- fields

/// Whether a value confirms a video: it is the ID itself, or a link to it.
pub open spec fn confirms(value: Seq<char>, id: Seq<char>) -> bool {
    (is_id(id) && value == id) || names(value, id)
}

/// Whether a field confirms a video.
pub open spec fn field_confirms(field: Option<&str>, id: Seq<char>) -> bool {
    field matches Some(value) && confirms(value@, id)
}

proof fn lemma_ids_are_no_links(value: Seq<char>, id: Seq<char>)
    requires
        names(value, id),
    ensures
        !is_id(value),
{
    let (scheme, authority, host, remainder) = choose|
        scheme: Seq<char>,
        authority: Seq<char>,
        host: Seq<char>,
        remainder: Seq<char>,
    |
        {
            &&& #[trigger] is_link(scheme, authority, host, remainder, id)
            &&& payloads::is_core(value, scheme + seq![':', '/', '/'] + authority + remainder)
        };
    let url = scheme + seq![':', '/', '/'] + authority + remainder;
    let (lead, trail) = choose|lead: Seq<char>, trail: Seq<char>|
        payloads::all_white(lead) && payloads::all_white(trail) && value == #[trigger] (lead + url
            + trail);
    let k = (lead.len() + scheme.len()) as int;
    assert(url[scheme.len() as int] == ':');
    assert(value[k] == url[scheme.len() as int]);
    if is_id(value) {
        assert('A' <= value[k] <= 'Z' || 'a' <= value[k] <= 'z' || '0' <= value[k] <= '9' || value[k]
            == '_' || value[k] == '-');
    }
}

proof fn lemma_confirms(value: Seq<char>, id: Seq<char>)
    ensures
        confirms(value, id) <==> youtube::value_video_id(value) == Some(id),
{
    lemma_id(value);
    lemma_id(id);
    if names(value, id) {
        lemma_names(value, id);
        lemma_ids_are_no_links(value, id);
    }
    if youtube::url_video_id(value) == Some(id) {
        lemma_named(value, id);
    }
}

/// A value confirms the ID that it is, or that it links to.
pub proof fn law_values_confirm_their_video(
    value: &str,
    bare: Option<String>,
    res: Option<String>,
    id: Seq<char>,
)
    requires
        call_ensures(youtube::youtube_id, (value,), bare),
        call_ensures(youtube::youtube_video_id_from_value, (value,), res),
    ensures
        is_id(value@) <==> bare is Some,
        bare matches Some(found) ==> found@ == value@,
        confirms(value@, id) <==> (res matches Some(found) && found@ == id),
{
    lemma_id(value@);
    lemma_confirms(value@, id);
    if let Some(found) = res {
        lemma_confirms(value@, found@);
    }
}

/// Two fields confirm a video where one of them does and neither confirms another
/// one.
pub proof fn law_fields_confirm_one_video(
    first: Option<&str>,
    second: Option<&str>,
    res: Option<String>,
    id: Seq<char>,
)
    requires
        call_ensures(youtube::youtube_video_id, (first, second), res),
    ensures
        (res matches Some(found) && found@ == id) <==> {
            &&& field_confirms(first, id) || field_confirms(second, id)
            &&& forall|other: Seq<char>| #[trigger] field_confirms(first, other) ==> other == id
            &&& forall|other: Seq<char>| #[trigger] field_confirms(second, other) ==> other == id
        },
{
    let a = text::str_view(first);
    let b = text::str_view(second);
    assert forall|other: Seq<char>| #[trigger] field_confirms(first, other) <==> (
    youtube::field_video_id(a) == Some(other)) by {
        if let Some(value) = first {
            lemma_confirms(value@, other);
        }
    }
    assert forall|other: Seq<char>| #[trigger] field_confirms(second, other) <==> (
    youtube::field_video_id(b) == Some(other)) by {
        if let Some(value) = second {
            lemma_confirms(value@, other);
        }
    }
    if let Some(x) = youtube::field_video_id(a) {
        assert(field_confirms(first, x));
    }
    if let Some(y) = youtube::field_video_id(b) {
        assert(field_confirms(second, y));
    }
}

} // verus!
