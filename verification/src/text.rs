//! Text as sequences of characters: the handful of searches, comparisons and
//! trims that the parsers are written in.

use vstd::prelude::*;
use vstd::slice::slice_subrange;
use vstd::utf8;

verus! {

// ----------------------------------------------------------------- models

/// The characters with the Unicode property `White_Space`.
pub open spec fn is_white_space(c: char) -> bool {
    ||| '\u{9}' <= c <= '\u{d}'
    ||| c == ' '
    ||| c == '\u{85}'
    ||| c == '\u{a0}'
    ||| c == '\u{1680}'
    ||| '\u{2000}' <= c <= '\u{200a}'
    ||| c == '\u{2028}'
    ||| c == '\u{2029}'
    ||| c == '\u{202f}'
    ||| c == '\u{205f}'
    ||| c == '\u{3000}'
}

/// `s` without its leading white space.
pub open spec fn trim_start(s: Seq<char>) -> Seq<char>
    decreases s.len(),
{
    if s.len() > 0 && is_white_space(s.first()) {
        trim_start(s.drop_first())
    } else {
        s
    }
}

/// `s` without its trailing white space.
pub open spec fn trim_end(s: Seq<char>) -> Seq<char>
    decreases s.len(),
{
    if s.len() > 0 && is_white_space(s.last()) {
        trim_end(s.drop_last())
    } else {
        s
    }
}

/// `s` without white space at either end.
pub open spec fn trim(s: Seq<char>) -> Seq<char> {
    trim_end(trim_start(s))
}

/// Where the first of the `stops` stands in `s`, or the length of `s`.
pub open spec fn stop_index(s: Seq<char>, stops: Seq<char>) -> int
    decreases s.len(),
{
    if s.len() == 0 || stops.contains(s.first()) {
        0
    } else {
        1 + stop_index(s.drop_first(), stops)
    }
}

/// `s` up to the first of the `stops`, or all of it.
pub open spec fn until(s: Seq<char>, stops: Seq<char>) -> Seq<char> {
    s.take(stop_index(s, stops))
}

/// Where `pattern` first occurs in `s`.
pub open spec fn find(s: Seq<char>, pattern: Seq<char>) -> Option<int>
    decreases s.len(),
{
    if pattern.is_prefix_of(s) {
        Some(0)
    } else if s.len() == 0 {
        None
    } else {
        match find(s.drop_first(), pattern) {
            Some(i) => Some(i + 1),
            None => None,
        }
    }
}

/// `s` behind the last `c`, or all of it.
pub open spec fn after_last(s: Seq<char>, c: char) -> Seq<char>
    decreases s.len(),
{
    if s.len() == 0 {
        s
    } else if s.last() == c {
        Seq::empty()
    } else {
        after_last(s.drop_last(), c).push(s.last())
    }
}

/// `s` without any leading `c`.
pub open spec fn trim_start_char(s: Seq<char>, c: char) -> Seq<char>
    decreases s.len(),
{
    if s.len() > 0 && s.first() == c {
        trim_start_char(s.drop_first(), c)
    } else {
        s
    }
}

/// `c` with an upper-case ASCII letter made lower case.
pub open spec fn lower(c: char) -> char {
    if 'A' <= c <= 'Z' {
        ((c as u32) + 32) as char
    } else {
        c
    }
}

/// `s` with its upper-case ASCII letters made lower case.
pub open spec fn lower_case(s: Seq<char>) -> Seq<char> {
    s.map_values(|c: char| lower(c))
}

/// Whether `a` and `b` differ in the case of ASCII letters at most.
pub open spec fn same_ignoring_case(a: Seq<char>, b: Seq<char>) -> bool {
    lower_case(a) == lower_case(b)
}

/// What follows `prefix` in `s`, where `s` starts with it.
pub open spec fn strip_prefix(s: Seq<char>, prefix: Seq<char>) -> Option<Seq<char>> {
    if prefix.is_prefix_of(s) {
        Some(s.skip(prefix.len() as int))
    } else {
        None
    }
}

/// The characters of an optional string slice.
pub open spec fn str_view(field: Option<&str>) -> Option<Seq<char>> {
    match field {
        Some(text) => Some(text@),
        None => None,
    }
}

/// The characters of an optional string.
pub open spec fn string_view(field: Option<String>) -> Option<Seq<char>> {
    match field {
        Some(text) => Some(text@),
        None => None,
    }
}

// ----------------------------------------------------------------- lemmas

/// Text that neither starts nor ends with white space is its own trim.
pub proof fn lemma_trim_keeps(s: Seq<char>)
    requires
        s.len() > 0,
        !is_white_space(s.first()),
        !is_white_space(s.last()),
    ensures
        trim(s) == s,
{
}

/// What is left after a trim is a stretch of the text.
pub proof fn lemma_trim_stretch(s: Seq<char>)
    ensures
        exists|a: int, b: int| 0 <= a <= b <= s.len() && trim(s) == #[trigger] s.subrange(a, b),
{
    lemma_trim_start_stretch(s);
    lemma_trim_end_stretch(trim_start(s));
    let a = choose|a: int| 0 <= a <= s.len() && trim_start(s) == #[trigger] s.skip(a);
    let b = choose|b: int|
        0 <= b <= trim_start(s).len() && trim(s) == #[trigger] trim_start(s).take(b);
    assert(trim(s) == s.subrange(a, a + b));
}

proof fn lemma_trim_start_stretch(s: Seq<char>)
    ensures
        exists|a: int| 0 <= a <= s.len() && trim_start(s) == #[trigger] s.skip(a),
    decreases s.len(),
{
    if s.len() > 0 && is_white_space(s.first()) {
        let rest = s.drop_first();
        lemma_trim_start_stretch(rest);
        let a = choose|a: int| 0 <= a <= rest.len() && trim_start(rest) == #[trigger] rest.skip(a);
        assert(trim_start(s) == s.skip(a + 1));
    } else {
        assert(s == s.skip(0));
    }
}

proof fn lemma_trim_end_stretch(s: Seq<char>)
    ensures
        exists|b: int| 0 <= b <= s.len() && trim_end(s) == #[trigger] s.take(b),
    decreases s.len(),
{
    if s.len() > 0 && is_white_space(s.last()) {
        let rest = s.drop_last();
        lemma_trim_end_stretch(rest);
        let b = choose|b: int| 0 <= b <= rest.len() && trim_end(rest) == #[trigger] rest.take(b);
        assert(trim_end(s) == s.take(b));
    } else {
        assert(s == s.take(s.len() as int));
    }
}

/// A trim leaves no white space at either end.
pub proof fn lemma_trim_ends(s: Seq<char>)
    ensures
        trim(s).len() > 0 ==> !is_white_space(trim(s).first()) && !is_white_space(trim(s).last()),
{
    lemma_trim_start_first(s);
    lemma_trim_end_last(trim_start(s));
}

proof fn lemma_trim_start_first(s: Seq<char>)
    ensures
        trim_start(s).len() > 0 ==> !is_white_space(trim_start(s).first()),
    decreases s.len(),
{
    if s.len() > 0 && is_white_space(s.first()) {
        lemma_trim_start_first(s.drop_first());
    }
}

proof fn lemma_trim_end_last(s: Seq<char>)
    ensures
        trim_end(s).len() > 0 ==> trim_end(s).first() == s.first() && !is_white_space(
            trim_end(s).last(),
        ),
    decreases s.len(),
{
    if s.len() > 0 && is_white_space(s.last()) {
        lemma_trim_end_last(s.drop_last());
    }
}

/// The first stop is where the stops begin.
pub proof fn lemma_stop_index(s: Seq<char>, stops: Seq<char>, k: int)
    requires
        0 <= k <= s.len(),
        forall|j: int| 0 <= j < k ==> !stops.contains(#[trigger] s[j]),
        k == s.len() || stops.contains(s[k]),
    ensures
        stop_index(s, stops) == k,
    decreases k,
{
    if k > 0 {
        assert(!stops.contains(s[0]));
        assert forall|j: int| 0 <= j < k - 1 implies !stops.contains(
            #[trigger] s.drop_first()[j],
        ) by {
            assert(!stops.contains(s[j + 1]));
        }
        lemma_stop_index(s.drop_first(), stops, k - 1);
    }
}

/// The first occurrence is where the pattern stands and did not stand before.
pub proof fn lemma_find(s: Seq<char>, pattern: Seq<char>, k: int)
    requires
        0 <= k <= s.len(),
        pattern.is_prefix_of(s.skip(k)),
        forall|j: int| 0 <= j < k ==> !pattern.is_prefix_of(#[trigger] s.skip(j)),
    ensures
        find(s, pattern) == Some(k),
    decreases k,
{
    assert(s.skip(0) == s);
    if k > 0 {
        let rest = s.drop_first();
        assert(rest.skip(k - 1) == s.skip(k));
        assert forall|j: int| 0 <= j < k - 1 implies !pattern.is_prefix_of(
            #[trigger] rest.skip(j),
        ) by {
            assert(rest.skip(j) == s.skip(j + 1));
        }
        lemma_find(rest, pattern, k - 1);
    }
}

/// A pattern that is found stands where it was found.
pub proof fn lemma_found(s: Seq<char>, pattern: Seq<char>)
    ensures
        match find(s, pattern) {
            Some(i) => 0 <= i <= s.len() && pattern.is_prefix_of(s.skip(i)),
            None => true,
        },
    decreases s.len(),
{
    assert(s.skip(0) == s);
    if !pattern.is_prefix_of(s) && s.len() > 0 {
        let rest = s.drop_first();
        lemma_found(rest, pattern);
        if let Some(i) = find(rest, pattern) {
            assert(rest.skip(i) == s.skip(i + 1));
        }
    }
}

/// Where a character does not occur, everything is behind its last occurrence.
pub proof fn lemma_after_last_absent(s: Seq<char>, c: char)
    requires
        forall|j: int| 0 <= j < s.len() ==> #[trigger] s[j] != c,
    ensures
        after_last(s, c) == s,
    decreases s.len(),
{
    if s.len() > 0 {
        lemma_after_last_absent(s.drop_last(), c);
        assert(s.drop_last().push(s.last()) == s);
    }
}

// ------------------------------------------------------------ executables

/// The characters of a string.
pub fn chars_of(text: &str) -> (chars: Vec<char>)
    ensures
        chars@ == text@,
{
    let mut chars: Vec<char> = Vec::new();
    for c in it: text.chars()
        invariant
            it.seq() == text@,
            chars@ == it.seq().take(it.index()),
    {
        chars.push(c);
    }
    chars
}

/// Calls `std::str::from_utf8`, which returns the bytes as text where they are
/// valid UTF-8, and an error otherwise.
#[verifier::external_body]
pub(crate) fn utf8_text(bytes: &[u8]) -> (res: Option<&str>)
    ensures
        match res {
            Some(text) => utf8::valid_utf8(bytes@) && utf8::encode_utf8(text@) == bytes@,
            None => !utf8::valid_utf8(bytes@),
        },
{
    std::str::from_utf8(bytes).ok()
}

/// `String::push`, which appends a character to the end of a string.
pub assume_specification[ String::push ](string: &mut String, ch: char)
    ensures
        final(string)@ == old(string)@.push(ch),
;

/// The string that holds the given characters.
pub fn string_of(chars: &[char]) -> (text: String)
    ensures
        text@ == chars@,
{
    let mut text = String::new();
    let mut i: usize = 0;
    while i < chars.len()
        invariant
            i <= chars@.len(),
            text@ == chars@.take(i as int),
        decreases chars@.len() - i,
    {
        text.push(chars[i]);
        i += 1;
    }
    text
}

/// The same optional string once more.
pub fn copy_of(field: &Option<String>) -> (res: Option<String>)
    ensures
        string_view(res) == string_view(*field),
{
    match field {
        Some(text) => Some(text.clone()),
        None => None,
    }
}

/// Whether `c` has the Unicode property `White_Space`.
pub fn white_space(c: char) -> (res: bool)
    ensures
        res == is_white_space(c),
{
    ('\u{9}' <= c && c <= '\u{d}') || c == ' ' || c == '\u{85}' || c == '\u{a0}' || c == '\u{1680}'
        || ('\u{2000}' <= c && c <= '\u{200a}') || c == '\u{2028}' || c == '\u{2029}' || c
        == '\u{202f}' || c == '\u{205f}' || c == '\u{3000}'
}

/// The characters without white space at either end.
pub fn trim_chars(chars: &[char]) -> (res: &[char])
    ensures
        res@ == trim(chars@),
{
    let mut start: usize = 0;
    assert(chars@.skip(0) == chars@);
    while start < chars.len() && white_space(chars[start])
        invariant
            start <= chars@.len(),
            trim_start(chars@) == trim_start(chars@.skip(start as int)),
        decreases chars@.len() - start,
    {
        assert(chars@.skip(start as int).drop_first() == chars@.skip(start + 1));
        start += 1;
    }
    let mut end: usize = chars.len();
    assert(chars@.subrange(start as int, end as int) == chars@.skip(start as int));
    while start < end && white_space(chars[end - 1])
        invariant
            start <= end <= chars@.len(),
            trim(chars@) == trim_end(chars@.subrange(start as int, end as int)),
        decreases end,
    {
        assert(chars@.subrange(start as int, end as int).drop_last() == chars@.subrange(
            start as int,
            end - 1,
        ));
        end -= 1;
    }
    slice_subrange(chars, start, end)
}

/// Where the first of the `stops` stands, or the number of characters.
pub fn stop_position(chars: &[char], stops: &[char]) -> (res: usize)
    ensures
        res == stop_index(chars@, stops@),
        res <= chars@.len(),
{
    let mut i: usize = 0;
    assert(chars@.skip(0) == chars@);
    while i < chars.len()
        invariant
            i <= chars@.len(),
            stop_index(chars@, stops@) == i + stop_index(chars@.skip(i as int), stops@),
        decreases chars@.len() - i,
    {
        if contains_char(stops, chars[i]) {
            return i;
        }
        assert(chars@.skip(i as int).drop_first() == chars@.skip(i + 1));
        i += 1;
    }
    i
}

/// Whether `c` is among the characters.
pub fn contains_char(chars: &[char], c: char) -> (res: bool)
    ensures
        res == chars@.contains(c),
{
    let mut i: usize = 0;
    while i < chars.len()
        invariant
            i <= chars@.len(),
            forall|j: int| 0 <= j < i ==> chars@[j] != c,
        decreases chars@.len() - i,
    {
        if chars[i] == c {
            return true;
        }
        i += 1;
    }
    false
}

/// The characters up to the first of the `stops`, or all of them.
pub fn until_chars<'a>(chars: &'a [char], stops: &[char]) -> (res: &'a [char])
    ensures
        res@ == until(chars@, stops@),
{
    slice_subrange(chars, 0, stop_position(chars, stops))
}

/// Whether the characters are those of `other`.
pub fn equal_chars(chars: &[char], other: &[char]) -> (res: bool)
    ensures
        res == (chars@ == other@),
{
    if chars.len() != other.len() {
        return false;
    }
    let mut i: usize = 0;
    while i < chars.len()
        invariant
            i <= chars@.len() == other@.len(),
            forall|j: int| 0 <= j < i ==> chars@[j] == other@[j],
        decreases chars@.len() - i,
    {
        if chars[i] != other[i] {
            return false;
        }
        i += 1;
    }
    assert(chars@ =~= other@);
    true
}

/// Whether the characters start with those of `prefix`.
pub fn starts_with(chars: &[char], prefix: &[char]) -> (res: bool)
    ensures
        res == prefix@.is_prefix_of(chars@),
{
    if chars.len() < prefix.len() {
        return false;
    }
    equal_chars(slice_subrange(chars, 0, prefix.len()), prefix)
}

/// What follows `prefix`, where the characters start with it.
pub fn strip_prefix_chars<'a>(chars: &'a [char], prefix: &[char]) -> (res: Option<&'a [char]>)
    ensures
        match res {
            Some(rest) => strip_prefix(chars@, prefix@) == Some(rest@),
            None => strip_prefix(chars@, prefix@) is None,
        },
{
    if starts_with(chars, prefix) {
        Some(slice_subrange(chars, prefix.len(), chars.len()))
    } else {
        None
    }
}

/// Where `pattern` first occurs among the characters.
pub fn find_chars(chars: &[char], pattern: &[char]) -> (res: Option<usize>)
    ensures
        match res {
            Some(i) => find(chars@, pattern@) == Some(i as int) && i + pattern@.len() <= chars@.len(),
            None => find(chars@, pattern@) is None,
        },
{
    let mut i: usize = 0;
    assert(chars@.skip(0) == chars@);
    while i < chars.len()
        invariant
            i <= chars@.len(),
            find(chars@, pattern@) == (match find(chars@.skip(i as int), pattern@) {
                Some(j) => Some(i + j),
                None => None,
            }),
        decreases chars@.len() - i,
    {
        let rest = slice_subrange(chars, i, chars.len());
        assert(rest@ == chars@.skip(i as int));
        if starts_with(rest, pattern) {
            return Some(i);
        }
        assert(chars@.skip(i as int).drop_first() == chars@.skip(i + 1));
        i += 1;
    }
    let rest = slice_subrange(chars, i, chars.len());
    assert(rest@ == chars@.skip(i as int));
    if starts_with(rest, pattern) {
        Some(i)
    } else {
        None
    }
}

/// The characters behind the last `c`, or all of them.
pub fn after_last_char(chars: &[char], c: char) -> (res: &[char])
    ensures
        res@ == after_last(chars@, c),
{
    let mut start: usize = chars.len();
    assert(chars@.take(chars@.len() as int) == chars@);
    assert(chars@.skip(chars@.len() as int) == Seq::<char>::empty());
    while start > 0 && chars[start - 1] != c
        invariant
            start <= chars@.len(),
            after_last(chars@, c) == after_last(chars@.take(start as int), c) + chars@.skip(
                start as int,
            ),
        decreases start,
    {
        assert(chars@.take(start as int).drop_last() == chars@.take(start - 1));
        assert(after_last(chars@.take(start - 1), c).push(chars@[start - 1]) + chars@.skip(
            start as int,
        ) == after_last(chars@.take(start - 1), c) + chars@.skip(start - 1));
        start -= 1;
    }
    slice_subrange(chars, start, chars.len())
}

/// The characters without any leading `c`.
pub fn skip_leading_char(chars: &[char], c: char) -> (res: &[char])
    ensures
        res@ == trim_start_char(chars@, c),
{
    let mut start: usize = 0;
    assert(chars@.skip(0) == chars@);
    while start < chars.len() && chars[start] == c
        invariant
            start <= chars@.len(),
            trim_start_char(chars@, c) == trim_start_char(chars@.skip(start as int), c),
        decreases chars@.len() - start,
    {
        assert(chars@.skip(start as int).drop_first() == chars@.skip(start + 1));
        start += 1;
    }
    slice_subrange(chars, start, chars.len())
}

/// `c` with an upper-case ASCII letter made lower case.
pub fn lower_char(c: char) -> (res: char)
    ensures
        res == lower(c),
{
    if 'A' <= c && c <= 'Z' {
        (c as u8 + 32) as char
    } else {
        c
    }
}

/// The characters with upper-case ASCII letters made lower case.
pub fn lower_case_chars(chars: &[char]) -> (res: Vec<char>)
    ensures
        res@ == lower_case(chars@),
{
    let mut res: Vec<char> = Vec::new();
    let mut i: usize = 0;
    while i < chars.len()
        invariant
            i <= chars@.len(),
            res@ == lower_case(chars@.take(i as int)),
        decreases chars@.len() - i,
    {
        res.push(lower_char(chars[i]));
        i += 1;
    }
    res
}

/// Whether the characters differ from those of `other` in the case of ASCII
/// letters at most.
pub fn equal_ignoring_case(chars: &[char], other: &[char]) -> (res: bool)
    ensures
        res == same_ignoring_case(chars@, other@),
{
    equal_chars(lower_case_chars(chars).as_slice(), lower_case_chars(other).as_slice())
}

} // verus!
