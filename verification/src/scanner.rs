//! The block scanner: where the body of a delimited construct ends, and
//! which lines belong to it.
//!
//! A scan is one pass forward from the line after the opening line. A
//! construct that is never closed runs to the end of the lines.

use crate::syntax::{THREAD_INSIDE_BEGIN, THREAD_INSIDE_END, THREAD_OUTSIDE_END};
use crate::text::{equals, starts_with, trim, trimmed};
use vstd::prelude::*;

verus! {

/// Whether `line`, once trimmed, is a delimiter: exactly `sentinel` when
/// `exact` is set, and beginning with `sentinel` otherwise.
pub open spec fn is_delimiter(line: Seq<char>, sentinel: Seq<char>, exact: bool) -> bool {
    if exact {
        trim(line) == sentinel
    } else {
        sentinel.is_prefix_of(trim(line))
    }
}

/// The index of the first delimiter at or after `from`, or the number of
/// lines if there is none.
pub open spec fn find_delimiter(
    lines: Seq<Seq<char>>,
    from: int,
    sentinel: Seq<char>,
    exact: bool,
) -> int
    decreases lines.len() - from,
{
    if from < 0 || from >= lines.len() {
        lines.len() as int
    } else if is_delimiter(lines[from], sentinel, exact) {
        from
    } else {
        find_delimiter(lines, from + 1, sentinel, exact)
    }
}

/// The lines of the block that is opened at line `at`: those between `at`
/// and its closing delimiter.
pub open spec fn block_body(
    lines: Seq<Seq<char>>,
    at: int,
    sentinel: Seq<char>,
    exact: bool,
) -> Seq<Seq<char>> {
    lines.subrange(at + 1, find_delimiter(lines, at + 1, sentinel, exact))
}

/// The index of the line that follows the block opened at line `at`: the one
/// after its closing delimiter, or the number of lines if it is not closed.
pub open spec fn block_next(
    lines: Seq<Seq<char>>,
    at: int,
    sentinel: Seq<char>,
    exact: bool,
) -> int {
    let close = find_delimiter(lines, at + 1, sentinel, exact);
    if close < lines.len() {
        close + 1
    } else {
        lines.len() as int
    }
}

/// The first delimiter lies in range, is a delimiter, and no line before it
/// is one.
pub proof fn lemma_find_delimiter(
    lines: Seq<Seq<char>>,
    from: int,
    sentinel: Seq<char>,
    exact: bool,
)
    requires
        0 <= from <= lines.len(),
    ensures
        from <= find_delimiter(lines, from, sentinel, exact) <= lines.len(),
        forall|k: int|
            from <= k < find_delimiter(lines, from, sentinel, exact) ==> !is_delimiter(
                #[trigger] lines[k],
                sentinel,
                exact,
            ),
        find_delimiter(lines, from, sentinel, exact) < lines.len() ==> is_delimiter(
            lines[find_delimiter(lines, from, sentinel, exact)],
            sentinel,
            exact,
        ),
    decreases lines.len() - from,
{
    if from < lines.len() && !is_delimiter(lines[from], sentinel, exact) {
        lemma_find_delimiter(lines, from + 1, sentinel, exact);
    }
}

/// The lines of the concurrent block whose scan stands at line `from`,
/// inside a `{` group or not: every line up to the closing `??` but the
/// `{` and `}` lines, which only mark groups. Inside a group only `}` is
/// looked for.
pub open spec fn concurrent_body(lines: Seq<Seq<char>>, from: int, inside: bool) -> Seq<
    Seq<char>,
>
    decreases lines.len() - from,
{
    if from < 0 || from >= lines.len() {
        Seq::empty()
    } else if inside {
        if is_delimiter(lines[from], THREAD_INSIDE_END@, false) {
            concurrent_body(lines, from + 1, false)
        } else {
            seq![lines[from]] + concurrent_body(lines, from + 1, true)
        }
    } else {
        if is_delimiter(lines[from], THREAD_OUTSIDE_END@, false) {
            Seq::empty()
        } else if is_delimiter(lines[from], THREAD_INSIDE_BEGIN@, false) {
            concurrent_body(lines, from + 1, true)
        } else {
            seq![lines[from]] + concurrent_body(lines, from + 1, false)
        }
    }
}

/// The index of the line that follows the concurrent block whose scan
/// stands at line `from`: the one after the closing `??`, or the number of
/// lines if it is not closed.
pub open spec fn concurrent_next(lines: Seq<Seq<char>>, from: int, inside: bool) -> int
    decreases lines.len() - from,
{
    if from < 0 || from >= lines.len() {
        lines.len() as int
    } else if inside {
        concurrent_next(lines, from + 1, !is_delimiter(lines[from], THREAD_INSIDE_END@, false))
    } else {
        if is_delimiter(lines[from], THREAD_OUTSIDE_END@, false) {
            from + 1
        } else {
            concurrent_next(
                lines,
                from + 1,
                is_delimiter(lines[from], THREAD_INSIDE_BEGIN@, false),
            )
        }
    }
}

/// Tests whether a line is a delimiter.
pub fn line_is_delimiter(line: &str, sentinel: &str, exact: bool) -> (b: bool)
    ensures
        b == is_delimiter(line@, sentinel@, exact),
{
    let t = trimmed(line);
    if exact {
        equals(&t, sentinel)
    } else {
        starts_with(&t, sentinel)
    }
}

/// Appends a copy of `line` to `lines`.
pub fn push_line(lines: &mut Vec<String>, line: &String)
    ensures
        final(lines).deep_view() == old(lines).deep_view().push(line@),
{
    lines.push(line.clone());
    assert(lines.deep_view() =~= old(lines).deep_view().push(line@));
}

/// Carves out the block opened at line `*cursor`: returns the lines up to
/// the first delimiter after it and leaves the cursor just past that
/// delimiter, or at the end of the lines if there is none.
pub fn scan_block(lines: &Vec<String>, cursor: &mut usize, sentinel: &str, exact: bool) -> (body:
    Vec<String>)
    requires
        *old(cursor) < lines.len(),
    ensures
        body.deep_view() == block_body(lines.deep_view(), *old(cursor) as int, sentinel@, exact),
        *final(cursor) == block_next(lines.deep_view(), *old(cursor) as int, sentinel@, exact),
        *old(cursor) < *final(cursor) <= lines.len(),
{
    let ghost all = lines.deep_view();
    let ghost first = *cursor + 1;
    let mut body: Vec<String> = Vec::new();
    let mut i: usize = *cursor + 1;
    assert(body.deep_view() =~= all.subrange(first, i as int));
    while i < lines.len()
        invariant
            all == lines.deep_view(),
            first == *old(cursor) + 1,
            first <= i <= lines.len(),
            body.deep_view() == all.subrange(first, i as int),
            find_delimiter(all, first, sentinel@, exact) == find_delimiter(
                all,
                i as int,
                sentinel@,
                exact,
            ),
        decreases lines.len() - i,
    {
        if line_is_delimiter(&lines[i], sentinel, exact) {
            *cursor = i + 1;
            return body;
        }
        push_line(&mut body, &lines[i]);
        assert(all.subrange(first, i + 1) =~= all.subrange(first, i as int).push(all[i as int]));
        i += 1;
    }
    *cursor = i;
    body
}

/// Carves out the concurrent block opened at line `*cursor`: returns its
/// lines, the groups between `{` and `}` laid flat among them, and leaves
/// the cursor just past the closing `??`, or at the end of the lines if
/// there is none.
pub fn scan_concurrent(lines: &Vec<String>, cursor: &mut usize) -> (body: Vec<String>)
    requires
        *old(cursor) < lines.len(),
    ensures
        body.deep_view() == concurrent_body(lines.deep_view(), *old(cursor) + 1, false),
        *final(cursor) == concurrent_next(lines.deep_view(), *old(cursor) + 1, false),
        *old(cursor) < *final(cursor) <= lines.len(),
{
    let ghost all = lines.deep_view();
    let ghost first = *cursor + 1;
    let mut body: Vec<String> = Vec::new();
    let mut inside = false;
    let mut i: usize = *cursor + 1;
    assert(body.deep_view() =~= Seq::<Seq<char>>::empty());
    while i < lines.len()
        invariant
            all == lines.deep_view(),
            first == *old(cursor) + 1,
            first <= i <= lines.len(),
            concurrent_body(all, first, false) == body.deep_view() + concurrent_body(
                all,
                i as int,
                inside,
            ),
            concurrent_next(all, first, false) == concurrent_next(all, i as int, inside),
        decreases lines.len() - i,
    {
        let ghost before = body.deep_view();
        let ghost rest = concurrent_body(all, i + 1, inside);
        if inside {
            if line_is_delimiter(&lines[i], THREAD_INSIDE_END, false) {
                inside = false;
            } else {
                push_line(&mut body, &lines[i]);
                assert(before + (seq![all[i as int]] + rest) =~= before.push(all[i as int])
                    + rest);
            }
        } else {
            if line_is_delimiter(&lines[i], THREAD_OUTSIDE_END, false) {
                *cursor = i + 1;
                assert(before + Seq::<Seq<char>>::empty() =~= before);
                return body;
            } else if line_is_delimiter(&lines[i], THREAD_INSIDE_BEGIN, false) {
                inside = true;
            } else {
                push_line(&mut body, &lines[i]);
                assert(before + (seq![all[i as int]] + rest) =~= before.push(all[i as int])
                    + rest);
            }
        }
        i += 1;
    }
    assert(body.deep_view() + Seq::<Seq<char>>::empty() =~= body.deep_view());
    *cursor = i;
    body
}

} // verus!
