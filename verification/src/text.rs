//! Character sequences: the model of script text, and the executable
//! helpers that the other modules share.

use vstd::prelude::*;

verus! {

/// Whether `c` is white space: one of the 25 code points that carry the
/// Unicode `White_Space` property.
pub open spec fn is_whitespace(c: char) -> bool {
    let n = c as u32;
    ||| 0x09 <= n <= 0x0d
    ||| n == 0x20
    ||| n == 0x85
    ||| n == 0xa0
    ||| n == 0x1680
    ||| 0x2000 <= n <= 0x200a
    ||| n == 0x2028
    ||| n == 0x2029
    ||| n == 0x202f
    ||| n == 0x205f
    ||| n == 0x3000
}

/// Tests a character for white space.
pub fn char_is_whitespace(c: char) -> (b: bool)
    ensures
        b == is_whitespace(c),
{
    let n: u32 = c as u32;
    (0x09 <= n && n <= 0x0d) || n == 0x20 || n == 0x85 || n == 0xa0 || n == 0x1680 || (0x2000 <= n
        && n <= 0x200a) || n == 0x2028 || n == 0x2029 || n == 0x202f || n == 0x205f || n == 0x3000
}

/// Whether `c` is a decimal digit, `0` to `9`.
pub open spec fn is_digit(c: char) -> bool {
    '0' <= c <= '9'
}

/// Tests a character for a decimal digit.
pub fn char_is_digit(c: char) -> (b: bool)
    ensures
        b == is_digit(c),
{
    '0' <= c && c <= '9'
}

/// Whether `c` is a letter or a digit of ASCII.
pub open spec fn is_ascii_alphanumeric(c: char) -> bool {
    'a' <= c <= 'z' || 'A' <= c <= 'Z' || '0' <= c <= '9'
}

/// Tests a character for a letter or a digit of ASCII.
pub fn char_is_ascii_alphanumeric(c: char) -> (b: bool)
    ensures
        b == is_ascii_alphanumeric(c),
{
    ('a' <= c && c <= 'z') || ('A' <= c && c <= 'Z') || ('0' <= c && c <= '9')
}

/// Whether `c` is alphabetic or numeric in the sense of Unicode. The tables
/// behind this are those of the standard library; nothing is known of the
/// value but that it depends on `c` alone.
pub uninterp spec fn is_alphanumeric(c: char) -> bool;

/// `char::is_alphanumeric` of the standard library: whether the character is
/// alphabetic or numeric. The result is given the name [`is_alphanumeric`].
#[verifier::external_body]
fn char_is_alphanumeric(c: char) -> (b: bool)
    ensures
        b == is_alphanumeric(c),
{
    c.is_alphanumeric()
}

/// Whether `c` may stand in an identifier. Within ASCII these are the
/// letters, the digits and the underscore; beyond ASCII they are the
/// characters that are alphabetic or numeric in the sense of Unicode.
pub open spec fn is_identifier_char(c: char) -> bool {
    if (c as u32) < 0x80 {
        is_ascii_alphanumeric(c) || c == '_'
    } else {
        is_alphanumeric(c)
    }
}

/// Tests a character for membership in identifiers.
pub fn char_is_identifier(c: char) -> (b: bool)
    ensures
        b == is_identifier_char(c),
{
    if (c as u32) < 0x80 {
        char_is_ascii_alphanumeric(c) || c == '_'
    } else {
        char_is_alphanumeric(c)
    }
}

/// Whether every character of `s` may stand in an identifier.
pub open spec fn is_identifier(s: Seq<char>) -> bool {
    forall|i: int| 0 <= i < s.len() ==> is_identifier_char(#[trigger] s[i])
}

/// Tests whether every character of `name` may stand in an identifier.
pub fn is_identifier_text(name: &str) -> (b: bool)
    ensures
        b == is_identifier(name@),
{
    let v = to_chars(name);
    let mut i: usize = 0;
    while i < v.len()
        invariant
            i <= v.len(),
            v@ == name@,
            forall|k: int| 0 <= k < i ==> is_identifier_char(#[trigger] v@[k]),
        decreases v.len() - i,
    {
        if !char_is_identifier(v[i]) {
            return false;
        }
        i += 1;
    }
    true
}

/// The characters of `s`, in order.
pub fn to_chars(s: &str) -> (v: Vec<char>)
    ensures
        v@ == s@,
{
    broadcast use vstd::string::axiom_spec_iter;

    let mut v: Vec<char> = Vec::new();
    for c in it: s.chars()
        invariant
            it.seq() == s@,
            v@ == s@.take(it.index()),
    {
        v.push(c);
    }
    v
}

/// `String::push` of the standard library: appends one character to the
/// end of the string.
#[verifier::external_body]
pub(crate) fn push_char(s: &mut String, c: char)
    ensures
        final(s)@ == old(s)@.push(c),
{
    s.push(c)
}

/// The string made of the characters `v[from..to]`.
pub fn to_string(v: &Vec<char>, from: usize, to: usize) -> (s: String)
    requires
        from <= to <= v.len(),
    ensures
        s@ == v@.subrange(from as int, to as int),
{
    let mut s = String::new();
    let mut i: usize = from;
    while i < to
        invariant
            from <= i <= to <= v.len(),
            s@ == v@.subrange(from as int, i as int),
        decreases to - i,
    {
        push_char(&mut s, v[i]);
        i += 1;
    }
    s
}

/// The index of the first character of `s[from..to]` that is not white
/// space, or `to` if there is none.
pub open spec fn skip_whitespace(s: Seq<char>, from: int, to: int) -> int
    decreases to - from,
{
    if 0 <= from < to <= s.len() && is_whitespace(s[from]) {
        skip_whitespace(s, from + 1, to)
    } else {
        from
    }
}

/// The index just past the last character of `s[from..to]` that is not
/// white space, or `from` if there is none.
pub open spec fn skip_whitespace_back(s: Seq<char>, from: int, to: int) -> int
    decreases to - from,
{
    if 0 <= from < to <= s.len() && is_whitespace(s[to - 1]) {
        skip_whitespace_back(s, from, to - 1)
    } else {
        to
    }
}

/// `s` without the white space at its two ends.
pub open spec fn trim(s: Seq<char>) -> Seq<char> {
    let start = skip_whitespace(s, 0, s.len() as int);
    s.subrange(start, skip_whitespace_back(s, start, s.len() as int))
}

/// White space at the front stops inside the range, at the first character
/// that is none.
pub proof fn lemma_skip_whitespace(s: Seq<char>, from: int, to: int)
    requires
        0 <= from <= to <= s.len(),
    ensures
        from <= skip_whitespace(s, from, to) <= to,
        forall|k: int| from <= k < skip_whitespace(s, from, to) ==> is_whitespace(#[trigger] s[k]),
        skip_whitespace(s, from, to) < to ==> !is_whitespace(s[skip_whitespace(s, from, to)]),
    decreases to - from,
{
    if from < to && is_whitespace(s[from]) {
        lemma_skip_whitespace(s, from + 1, to);
    }
}

/// White space at the back stops inside the range, after the last character
/// that is none.
pub proof fn lemma_skip_whitespace_back(s: Seq<char>, from: int, to: int)
    requires
        0 <= from <= to <= s.len(),
    ensures
        from <= skip_whitespace_back(s, from, to) <= to,
        forall|k: int|
            skip_whitespace_back(s, from, to) <= k < to ==> is_whitespace(#[trigger] s[k]),
        from < skip_whitespace_back(s, from, to) ==> !is_whitespace(
            s[skip_whitespace_back(s, from, to) - 1],
        ),
    decreases to - from,
{
    if from < to && is_whitespace(s[to - 1]) {
        lemma_skip_whitespace_back(s, from, to - 1);
    }
}

/// A white space character in front of a text is trimmed away with the
/// rest of the white space there.
pub proof fn lemma_trim_front(c: char, s: Seq<char>)
    requires
        is_whitespace(c),
    ensures
        trim(seq![c] + s) == trim(s),
{
    let t = seq![c] + s;
    let n = s.len() as int;
    assert(t.subrange(1, n + 1) =~= s);
    assert(t[0] == c);
    let start = skip_whitespace(s, 0, n);
    lemma_skip_whitespace(s, 0, n);
    lemma_skip_whitespace_in_part(t, 1, n + 1, 1);
    assert(skip_whitespace(t, 0, n + 1) == start + 1);
    let end = skip_whitespace_back(s, start, n);
    lemma_skip_whitespace_back(s, start, n);
    lemma_skip_whitespace_back_in_part(t, 1, n + 1, start + 1, n + 1);
    assert(skip_whitespace_back(t, start + 1, n + 1) == end + 1);
    assert(t.subrange(start + 1, end + 1) =~= s.subrange(start, end));
}

/// A text that has a character other than white space at each of its ends
/// is trimmed to itself, and so is a text that a white space character
/// follows.
pub proof fn lemma_trim_back(s: Seq<char>, c: char)
    requires
        s.len() > 0,
        !is_whitespace(s[0]),
        !is_whitespace(s.last()),
        is_whitespace(c),
    ensures
        trim(s) == s,
        trim(s.push(c)) == s,
{
    let n = s.len() as int;
    let t = s.push(c);
    assert(skip_whitespace(s, 0, n) == 0);
    assert(skip_whitespace_back(s, 0, n) == n);
    assert(s.subrange(0, n) =~= s);
    assert(t[0] == s[0]);
    assert(skip_whitespace(t, 0, n + 1) == 0);
    assert(t[n] == c);
    assert(t[n - 1] == s.last());
    assert(skip_whitespace_back(t, 0, n) == n);
    assert(skip_whitespace_back(t, 0, n + 1) == n);
    assert(t.subrange(0, n) =~= s);
}

/// White space is skipped alike in a part of a text and in the text.
proof fn lemma_skip_whitespace_in_part(s: Seq<char>, from: int, to: int, at: int)
    requires
        0 <= from <= at <= to <= s.len(),
    ensures
        skip_whitespace(s.subrange(from, to), at - from, to - from) == skip_whitespace(s, at, to)
            - from,
    decreases to - at,
{
    if at < to && is_whitespace(s[at]) {
        lemma_skip_whitespace_in_part(s, from, to, at + 1);
    }
}

/// White space is skipped backwards alike in a part of a text and in the
/// text.
proof fn lemma_skip_whitespace_back_in_part(s: Seq<char>, from: int, to: int, start: int, at: int)
    requires
        0 <= from <= start <= at <= to <= s.len(),
    ensures
        skip_whitespace_back(s.subrange(from, to), start - from, at - from) == skip_whitespace_back(
            s,
            start,
            at,
        ) - from,
    decreases at - start,
{
    if start < at && is_whitespace(s[at - 1]) {
        lemma_skip_whitespace_back_in_part(s, from, to, start, at - 1);
    }
}

/// The characters `v[from..to]`.
pub fn slice(v: &Vec<char>, from: usize, to: usize) -> (r: Vec<char>)
    requires
        from <= to <= v.len(),
    ensures
        r@ == v@.subrange(from as int, to as int),
{
    let mut r: Vec<char> = Vec::new();
    let mut i: usize = from;
    while i < to
        invariant
            from <= i <= to <= v.len(),
            r@ == v@.subrange(from as int, i as int),
        decreases to - i,
    {
        r.push(v[i]);
        i += 1;
    }
    r
}

/// The characters `v[from..to]` without the white space at their two ends.
pub fn trim_slice(v: &Vec<char>, from: usize, to: usize) -> (r: Vec<char>)
    requires
        from <= to <= v.len(),
    ensures
        r@ == trim(v@.subrange(from as int, to as int)),
{
    let mut a: usize = from;
    while a < to && char_is_whitespace(v[a])
        invariant
            from <= a <= to <= v.len(),
            skip_whitespace(v@, from as int, to as int) == skip_whitespace(
                v@,
                a as int,
                to as int,
            ),
        decreases to - a,
    {
        a += 1;
    }
    let mut b: usize = to;
    while a < b && char_is_whitespace(v[b - 1])
        invariant
            a <= b <= to <= v.len(),
            skip_whitespace_back(v@, a as int, to as int) == skip_whitespace_back(
                v@,
                a as int,
                b as int,
            ),
        decreases b - a,
    {
        b -= 1;
    }
    proof {
        let part = v@.subrange(from as int, to as int);
        lemma_skip_whitespace_in_part(v@, from as int, to as int, from as int);
        lemma_skip_whitespace_back_in_part(v@, from as int, to as int, a as int, to as int);
        assert(part.subrange(a - from, b - from) =~= v@.subrange(a as int, b as int));
    }
    slice(v, a, b)
}

/// The characters of `line` without the white space at its two ends.
pub fn trimmed(line: &str) -> (r: Vec<char>)
    ensures
        r@ == trim(line@),
{
    let v = to_chars(line);
    let r = trim_slice(&v, 0, v.len());
    assert(v@.subrange(0, v@.len() as int) =~= v@);
    r
}

/// Whether `s` holds `pattern` at the index `at`.
pub open spec fn has_prefix_at(s: Seq<char>, at: int, pattern: Seq<char>) -> bool {
    &&& 0 <= at
    &&& at + pattern.len() <= s.len()
    &&& s.subrange(at, at + pattern.len()) == pattern
}

/// The first index at or after `from` at which `s` holds `pattern`, or the
/// length of `s` if there is none.
pub open spec fn find(s: Seq<char>, pattern: Seq<char>, from: int) -> int
    decreases s.len() - from,
{
    if from < 0 || from >= s.len() {
        s.len() as int
    } else if has_prefix_at(s, from, pattern) {
        from
    } else {
        find(s, pattern, from + 1)
    }
}

/// Whether `s` holds `separator` exactly once, so that splitting `s` at it
/// gives two parts.
pub open spec fn splits_once(s: Seq<char>, separator: Seq<char>) -> bool {
    let first = find(s, separator, 0);
    first < s.len() && find(s, separator, first + separator.len()) >= s.len()
}

/// What is found lies at or after the start of the search and within the
/// text.
pub proof fn lemma_find(s: Seq<char>, pattern: Seq<char>, from: int)
    requires
        0 <= from,
    ensures
        find(s, pattern, from) <= s.len(),
        from <= s.len() ==> from <= find(s, pattern, from),
        find(s, pattern, from) < s.len() ==> has_prefix_at(s, find(s, pattern, from), pattern),
    decreases s.len() - from,
{
    if from < s.len() && !has_prefix_at(s, from, pattern) {
        lemma_find(s, pattern, from + 1);
    }
}

/// The first place at which a text holds a pattern is found.
pub proof fn lemma_find_first(s: Seq<char>, pattern: Seq<char>, from: int, at: int)
    requires
        0 <= from <= at < s.len(),
        has_prefix_at(s, at, pattern),
        forall|k: int| from <= k < at ==> !has_prefix_at(s, k, pattern),
    ensures
        find(s, pattern, from) == at,
    decreases at - from,
{
    if from < at {
        lemma_find_first(s, pattern, from + 1, at);
    }
}

/// Where a text holds a pattern at no place, none is found.
pub proof fn lemma_find_none(s: Seq<char>, pattern: Seq<char>, from: int)
    requires
        0 <= from,
        forall|k: int| from <= k < s.len() ==> !has_prefix_at(s, k, pattern),
    ensures
        find(s, pattern, from) == s.len(),
    decreases s.len() - from,
{
    if from < s.len() {
        lemma_find_none(s, pattern, from + 1);
    }
}

/// Tests whether `v` holds `pattern` at the index `at`.
pub fn holds_at(v: &Vec<char>, at: usize, pattern: &Vec<char>) -> (b: bool)
    ensures
        b == has_prefix_at(v@, at as int, pattern@),
{
    if at > v.len() || pattern.len() > v.len() - at {
        return false;
    }
    let mut i: usize = 0;
    while i < pattern.len()
        invariant
            i <= pattern.len(),
            at + pattern.len() <= v.len(),
            v@.subrange(at as int, at + i) == pattern@.subrange(0, i as int),
        decreases pattern.len() - i,
    {
        if v[at + i] != pattern[i] {
            assert(v@.subrange(at as int, at + pattern.len())[i as int] != pattern@[i as int]);
            return false;
        }
        assert(v@.subrange(at as int, at + i + 1) =~= v@.subrange(at as int, at + i).push(
            v@[at + i],
        ));
        assert(pattern@.subrange(0, i + 1) =~= pattern@.subrange(0, i as int).push(
            pattern@[i as int],
        ));
        i += 1;
    }
    assert(pattern@.subrange(0, pattern.len() as int) =~= pattern@);
    true
}

/// Finds the first index at or after `from` at which `v` holds `pattern`.
pub fn find_in(v: &Vec<char>, pattern: &str, from: usize) -> (r: usize)
    ensures
        r == find(v@, pattern@, from as int),
        r <= v.len(),
        from <= v.len() ==> from <= r,
{
    let p = to_chars(pattern);
    let mut i: usize = from;
    while i < v.len()
        invariant
            from <= i,
            p@ == pattern@,
            find(v@, pattern@, from as int) == find(v@, pattern@, i as int),
        decreases v.len() - i,
    {
        if holds_at(v, i, &p) {
            return i;
        }
        i += 1;
    }
    v.len()
}

/// Tests whether `v` holds `separator` exactly once, and finds it.
pub fn split_once(v: &Vec<char>, separator: &str) -> (r: Option<usize>)
    ensures
        r is Some <==> splits_once(v@, separator@),
        r is Some ==> r->0 == find(v@, separator@, 0) && r->0 + separator@.len() <= v.len(),
{
    let first = find_in(v, separator, 0);
    if first >= v.len() {
        return None;
    }
    proof {
        lemma_find(v@, separator@, 0);
    }
    let width = separator.unicode_len();
    if find_in(v, separator, first + width) >= v.len() {
        Some(first)
    } else {
        None
    }
}

/// Tests whether `v` begins with `prefix`.
pub fn starts_with(v: &Vec<char>, prefix: &str) -> (b: bool)
    ensures
        b == prefix@.is_prefix_of(v@),
{
    let p = to_chars(prefix);
    holds_at(v, 0, &p)
}

/// Tests whether `v` is exactly `text`.
pub fn equals(v: &Vec<char>, text: &str) -> (b: bool)
    ensures
        b == (v@ == text@),
{
    let p = to_chars(text);
    let b = holds_at(v, 0, &p) && v.len() == p.len();
    proof {
        if v@.len() == text@.len() {
            assert(v@.subrange(0, v@.len() as int) =~= v@);
        }
    }
    b
}

} // verus!
