//! The escape decoder: text with its escape sequences resolved.
//!
//! One pass from left to right; what has been decoded is not read again.

use crate::text::{to_chars, to_string};
use vstd::prelude::*;

verus! {

/// The escape character, U+001B.
pub const ESCAPE: char = '\u{1b}';

/// The value of `c` as a hexadecimal digit, if it is one.
pub open spec fn hex_value(c: char) -> Option<int> {
    if '0' <= c <= '9' {
        Some(c as int - '0' as int)
    } else if 'a' <= c <= 'f' {
        Some(c as int - 'a' as int + 10)
    } else if 'A' <= c <= 'F' {
        Some(c as int - 'A' as int + 10)
    } else {
        None
    }
}

/// An escape sequence: the character that it stands for, and the number of
/// characters that it takes up, the backslash among them.
pub struct Escape {
    pub character: char,
    pub length: int,
}

/// The escape sequence that begins with the backslash at `s[at]`, if one
/// does.
///
/// After the backslash, `n`, `r` and `t` give a line feed, a carriage
/// return and a tab; `x` with exactly two hexadecimal digits behind it gives
/// the character with that code; `033` gives the escape character. Nothing
/// else is an escape sequence.
pub open spec fn escape_at(s: Seq<char>, at: int) -> Option<Escape> {
    if at + 1 >= s.len() {
        None
    } else if s[at + 1] == 'n' {
        Some(Escape { character: '\n', length: 2 })
    } else if s[at + 1] == 'r' {
        Some(Escape { character: '\r', length: 2 })
    } else if s[at + 1] == 't' {
        Some(Escape { character: '\t', length: 2 })
    } else if s[at + 1] == 'x' && at + 3 < s.len() && hex_value(s[at + 2]) is Some && hex_value(
        s[at + 3],
    ) is Some {
        Some(
            Escape {
                character: (16 * hex_value(s[at + 2])->0 + hex_value(s[at + 3])->0) as char,
                length: 4,
            },
        )
    } else if s[at + 1] == '0' && at + 3 < s.len() && s[at + 2] == '3' && s[at + 3] == '3' {
        Some(Escape { character: ESCAPE, length: 4 })
    } else {
        None
    }
}

/// What is written for the character at `s[at]`: the character itself if
/// it is no backslash; the character of the escape sequence that the
/// backslash begins; the backslash itself if it begins none, so that what
/// is no escape sequence comes out as it stands; and nothing for a
/// backslash at the very end of the text.
pub open spec fn decoded_at(s: Seq<char>, at: int) -> Option<char> {
    if s[at] != '\\' {
        Some(s[at])
    } else if at + 1 >= s.len() {
        None
    } else if escape_at(s, at) is Some {
        Some(escape_at(s, at)->0.character)
    } else {
        Some('\\')
    }
}

/// How many characters are taken at `s[at]`: all of an escape sequence, and
/// one character otherwise. A backslash that begins no escape sequence is
/// taken alone, and the characters behind it are decoded in their turn.
pub open spec fn consumed_at(s: Seq<char>, at: int) -> int {
    if s[at] == '\\' && escape_at(s, at) is Some {
        escape_at(s, at)->0.length
    } else {
        1
    }
}

/// The decoding of the text from `s[at]` on.
pub open spec fn decode_from(s: Seq<char>, at: int) -> Seq<char>
    decreases s.len() - at,
{
    if at < 0 || at >= s.len() {
        Seq::empty()
    } else {
        let rest = decode_from(s, at + consumed_at(s, at));
        match decoded_at(s, at) {
            Some(c) => seq![c] + rest,
            None => rest,
        }
    }
}

/// The text `s` with its escape sequences resolved.
pub open spec fn decode_escapes(s: Seq<char>) -> Seq<char> {
    decode_from(s, 0)
}

/// Text that holds no backslash decodes to itself, from any place on.
pub proof fn lemma_decode_plain_from(s: Seq<char>, at: int)
    requires
        0 <= at <= s.len(),
        forall|i: int| at <= i < s.len() ==> s[i] != '\\',
    ensures
        decode_from(s, at) == s.subrange(at, s.len() as int),
    decreases s.len() - at,
{
    if at < s.len() {
        lemma_decode_plain_from(s, at + 1);
        assert(seq![s[at]] + s.subrange(at + 1, s.len() as int) =~= s.subrange(
            at,
            s.len() as int,
        ));
    } else {
        assert(s.subrange(at, s.len() as int) =~= Seq::<char>::empty());
    }
}

/// Decoding leaves text without a backslash as it is.
pub proof fn lemma_decode_plain(s: Seq<char>)
    requires
        !s.contains('\\'),
    ensures
        decode_escapes(s) == s,
{
    lemma_decode_plain_from(s, 0);
    assert(s.subrange(0, s.len() as int) =~= s);
}

/// Text in which no backslash begins an escape sequence, and none stands
/// at the very end, decodes to itself from any place on.
pub proof fn lemma_decode_unrecognised_from(s: Seq<char>, at: int)
    requires
        0 <= at <= s.len(),
        forall|i: int|
            at <= i < s.len() && s[i] == '\\' ==> i + 1 < s.len() && escape_at(s, i) is None,
    ensures
        decode_from(s, at) == s.subrange(at, s.len() as int),
    decreases s.len() - at,
{
    if at < s.len() {
        lemma_decode_unrecognised_from(s, at + 1);
        assert(seq![s[at]] + s.subrange(at + 1, s.len() as int) =~= s.subrange(
            at,
            s.len() as int,
        ));
    } else {
        assert(s.subrange(at, s.len() as int) =~= Seq::<char>::empty());
    }
}

/// What is no escape sequence comes out as it stands: decoding leaves a
/// text as it is if none of its backslashes begins an escape sequence and
/// none is its last character.
pub proof fn lemma_decode_unrecognised(s: Seq<char>)
    requires
        forall|i: int|
            0 <= i < s.len() && s[i] == '\\' ==> i + 1 < s.len() && escape_at(s, i) is None,
    ensures
        decode_escapes(s) == s,
{
    lemma_decode_unrecognised_from(s, 0);
    assert(s.subrange(0, s.len() as int) =~= s);
}

/// The value of a character as a hexadecimal digit.
fn hex_digit(c: char) -> (r: Option<u8>)
    ensures
        r is Some <==> hex_value(c) is Some,
        r is Some ==> r->0 as int == hex_value(c)->0 && r->0 < 16,
{
    if '0' <= c && c <= '9' {
        Some((c as u32 - '0' as u32) as u8)
    } else if 'a' <= c && c <= 'f' {
        Some((c as u32 - 'a' as u32 + 10) as u8)
    } else if 'A' <= c && c <= 'F' {
        Some((c as u32 - 'A' as u32 + 10) as u8)
    } else {
        None
    }
}

/// Resolves the escape sequences of `v`.
pub fn decode_chars(v: &Vec<char>) -> (r: Vec<char>)
    ensures
        r@ == decode_escapes(v@),
{
    let n = v.len();
    let mut r: Vec<char> = Vec::new();
    let mut i: usize = 0;
    assert(r@ + decode_from(v@, 0) =~= decode_escapes(v@));
    while i < n
        invariant
            n == v.len(),
            i <= n,
            decode_escapes(v@) == r@ + decode_from(v@, i as int),
        decreases n - i,
    {
        let ghost before = r@;
        let ghost rest = decode_from(v@, i + consumed_at(v@, i as int));
        let ghost at = i;
        let c = v[i];
        if c != '\\' {
            r.push(c);
            i += 1;
        } else if n - i < 2 {
            i += 1;
        } else {
            let next = v[i + 1];
            if next == 'n' {
                r.push('\n');
                i += 2;
            } else if next == 'r' {
                r.push('\r');
                i += 2;
            } else if next == 't' {
                r.push('\t');
                i += 2;
            } else if next == 'x' && n - i >= 4 && hex_digit(v[i + 2]).is_some() && hex_digit(
                v[i + 3],
            ).is_some() {
                let high = hex_digit(v[i + 2]).unwrap();
                let low = hex_digit(v[i + 3]).unwrap();
                r.push((16 * high + low) as char);
                i += 4;
            } else if next == '0' && n - i >= 4 && v[i + 2] == '3' && v[i + 3] == '3' {
                r.push(ESCAPE);
                i += 4;
            } else {
                r.push('\\');
                i += 1;
            }
        }
        proof {
            assert(i == at + consumed_at(v@, at as int));
            match decoded_at(v@, at as int) {
                Some(d) => {
                    assert(r@ == before.push(d));
                    assert(before + (seq![d] + rest) =~= before.push(d) + rest);
                },
                None => {
                    assert(r@ == before);
                },
            }
        }
    }
    assert(r@ + Seq::<char>::empty() =~= r@);
    r
}

/// Resolves the escape sequences of `text`.
pub fn decode(text: &str) -> (r: String)
    ensures
        r@ == decode_escapes(text@),
{
    let v = to_chars(text);
    let d = decode_chars(&v);
    let r = to_string(&d, 0, d.len());
    assert(d@.subrange(0, d@.len() as int) =~= d@);
    r
}

} // verus!
