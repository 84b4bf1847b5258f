//! The expression evaluator's reading of its text: which numerals an
//! expression holds and what is to be done with each, in order.
//!
//! An expression is read from left to right with one accumulator, which
//! starts at zero, and one pending operator, which starts as `+`. There is
//! no precedence: `2 + 3 * 4` asks to add 2, add 3 and multiply by 4. The
//! numbers are double-precision floating point; this module prepares the
//! [`Step`]s and leaves the arithmetic to the caller.

use crate::text::{
    char_is_digit,
    char_is_whitespace,
    is_digit,
    is_whitespace,
    lemma_skip_whitespace,
    push_char,
    skip_whitespace,
    to_chars,
    to_string,
};
use vstd::prelude::*;

verus! {

/// An arithmetic operator.
#[derive(Clone, Copy, Debug, PartialEq, Eq, Structural)]
pub enum Operator {
    /// `+`
    Add,
    /// `-`
    Subtract,
    /// `*`
    Multiply,
    /// `/`
    Divide,
}

/// A comparison.
#[derive(Clone, Copy, Debug, PartialEq, Eq, Structural)]
pub enum Relation {
    /// `>=`
    AtLeast,
    /// `<=`
    AtMost,
    /// `==`
    Equal,
}

/// One thing to do to the accumulator.
#[derive(Clone, Debug, PartialEq, Eq)]
pub enum Step {
    /// Replace the accumulator by the result of `operator` on the
    /// accumulator and the number that `operand` denotes.
    Combine { operator: Operator, operand: String },
    /// Replace the accumulator by one if it stands in `relation` to the
    /// number that `operand` denotes, and by zero if it does not.
    Compare { relation: Relation, operand: String },
}

/// The model of a [`Step`].
pub enum StepView {
    Combine { operator: Operator, operand: Seq<char> },
    Compare { relation: Relation, operand: Seq<char> },
}

impl View for Step {
    type V = StepView;

    open spec fn view(&self) -> StepView {
        match *self {
            Step::Combine { operator, operand } => StepView::Combine { operator, operand: operand@ },
            Step::Compare { relation, operand } => StepView::Compare { relation, operand: operand@ },
        }
    }
}

impl DeepView for Step {
    type V = StepView;

    open spec fn deep_view(&self) -> StepView {
        self@
    }
}

/// The operator that `c` denotes when it does not begin a numeral.
pub open spec fn operator_of(c: char) -> Option<Operator> {
    if c == '+' {
        Some(Operator::Add)
    } else if c == '-' {
        Some(Operator::Subtract)
    } else if c == '*' {
        Some(Operator::Multiply)
    } else if c == '/' {
        Some(Operator::Divide)
    } else {
        None
    }
}

/// The comparison written at `s[at]` and `s[at + 1]`, if there is one.
pub open spec fn relation_at(s: Seq<char>, at: int) -> Option<Relation> {
    if 0 <= at && at + 1 < s.len() && s[at + 1] == '=' {
        if s[at] == '>' {
            Some(Relation::AtLeast)
        } else if s[at] == '<' {
            Some(Relation::AtMost)
        } else if s[at] == '=' {
            Some(Relation::Equal)
        } else {
            None
        }
    } else {
        None
    }
}

/// Whether a numeral begins at `s[at]`: with a digit, or with a `-` that a
/// digit follows.
pub open spec fn starts_numeral(s: Seq<char>, at: int) -> bool {
    &&& 0 <= at < s.len()
    &&& is_digit(s[at]) || (s[at] == '-' && at + 1 < s.len() && is_digit(s[at + 1]))
}

/// The index of the first character at or after `from` that is no digit.
pub open spec fn digits_end(s: Seq<char>, from: int) -> int
    decreases s.len() - from,
{
    if 0 <= from < s.len() && is_digit(s[from]) {
        digits_end(s, from + 1)
    } else {
        from
    }
}

/// The index just past the numeral that begins at `s[at]`: past its sign,
/// its digits, and a decimal point with the digits behind it where one
/// follows the digits.
pub open spec fn numeral_end(s: Seq<char>, at: int) -> int {
    let whole = digits_end(s, if s[at] == '-' { at + 1 } else { at });
    if whole < s.len() && s[whole] == '.' {
        digits_end(s, whole + 1)
    } else {
        whole
    }
}

/// The numeral that stands for zero.
pub open spec fn zero() -> Seq<char> {
    seq!['0']
}

/// What the text from `s[at]` on asks for, when `pending` is the operator
/// last seen and `compared` tells whether a comparison has been read.
///
/// White space is passed over. A numeral is combined into the accumulator
/// with the pending operator, unless a comparison has been read: from then
/// on numerals are read and dropped. An operator becomes the pending one. A
/// comparison takes the numeral that follows it, white space between them
/// aside, and zero if none follows. Any other character is passed over.
pub open spec fn steps_from(s: Seq<char>, at: int, pending: Operator, compared: bool) -> Seq<
    StepView,
>
    decreases s.len() - at,
    via steps_from_decreases
{
    if at < 0 || at >= s.len() {
        Seq::empty()
    } else if is_whitespace(s[at]) {
        steps_from(s, at + 1, pending, compared)
    } else if starts_numeral(s, at) {
        let end = numeral_end(s, at);
        if compared {
            steps_from(s, end, pending, compared)
        } else {
            seq![StepView::Combine { operator: pending, operand: s.subrange(at, end) }]
                + steps_from(s, end, pending, compared)
        }
    } else if operator_of(s[at]) is Some {
        steps_from(s, at + 1, operator_of(s[at])->0, compared)
    } else if relation_at(s, at) is Some {
        let relation = relation_at(s, at)->0;
        let start = skip_whitespace(s, at + 2, s.len() as int);
        if starts_numeral(s, start) {
            let end = numeral_end(s, start);
            seq![StepView::Compare { relation, operand: s.subrange(start, end) }] + steps_from(
                s,
                end,
                pending,
                true,
            )
        } else {
            seq![StepView::Compare { relation, operand: zero() }] + steps_from(
                s,
                start,
                pending,
                true,
            )
        }
    } else {
        steps_from(s, at + 1, pending, compared)
    }
}

#[via_fn]
proof fn steps_from_decreases(s: Seq<char>, at: int, pending: Operator, compared: bool) {
    if 0 <= at < s.len() {
        if starts_numeral(s, at) {
            lemma_numeral_end(s, at);
        }
        if relation_at(s, at) is Some {
            let start = skip_whitespace(s, at + 2, s.len() as int);
            lemma_skip_whitespace(s, at + 2, s.len() as int);
            if starts_numeral(s, start) {
                lemma_numeral_end(s, start);
            }
        }
    }
}

/// What the expression `s` asks for: its steps, in the order in which they
/// are to be taken, from an accumulator of zero.
pub open spec fn steps(s: Seq<char>) -> Seq<StepView> {
    steps_from(s, 0, Operator::Add, false)
}

/// Whether `s` holds an arithmetic operator character, and so is to be
/// evaluated rather than taken as it is.
pub open spec fn has_operator(s: Seq<char>) -> bool {
    exists|i: int| 0 <= i < s.len() && operator_of(#[trigger] s[i]) is Some
}

/// A run of digits ends within the text, at or after its start.
pub proof fn lemma_digits_end(s: Seq<char>, from: int)
    requires
        0 <= from <= s.len(),
    ensures
        from <= digits_end(s, from) <= s.len(),
        forall|k: int| from <= k < digits_end(s, from) ==> is_digit(#[trigger] s[k]),
        digits_end(s, from) < s.len() ==> !is_digit(s[digits_end(s, from)]),
    decreases s.len() - from,
{
    if from < s.len() && is_digit(s[from]) {
        lemma_digits_end(s, from + 1);
    }
}

/// A numeral is not empty and ends within the text.
pub proof fn lemma_numeral_end(s: Seq<char>, at: int)
    requires
        starts_numeral(s, at),
    ensures
        at < numeral_end(s, at) <= s.len(),
{
    let first = if s[at] == '-' { at + 1 } else { at };
    lemma_digits_end(s, first);
    let whole = digits_end(s, first);
    assert(first < whole) by {
        lemma_digits_end(s, first + 1);
    }
    if whole < s.len() {
        lemma_digits_end(s, whole + 1);
    }
}

/// Whether `t` is a numeral: an optional `-`, digits, and optionally a
/// decimal point with any digits behind it.
pub open spec fn is_numeral(t: Seq<char>) -> bool {
    let first: int = if t.len() > 0 && t[0] == '-' { 1 } else { 0 };
    let whole = digits_end(t, first);
    &&& first < whole
    &&& whole == t.len() || (t[whole] == '.' && digits_end(t, whole + 1) == t.len())
}

/// The operand of a step.
pub open spec fn operand_of(step: StepView) -> Seq<char> {
    match step {
        StepView::Combine { operand, .. } => operand,
        StepView::Compare { operand, .. } => operand,
    }
}

/// A run of digits ends in a part of a text where it ends in the text, or
/// where the part ends.
proof fn lemma_digits_end_in_part(s: Seq<char>, from: int, to: int, at: int)
    requires
        0 <= from <= at <= to <= s.len(),
    ensures
        digits_end(s.subrange(from, to), at - from) == (if digits_end(s, at) <= to {
            digits_end(s, at)
        } else {
            to
        }) - from,
    decreases to - at,
{
    lemma_digits_end(s, at);
    if at < to && is_digit(s[at]) {
        lemma_digits_end_in_part(s, from, to, at + 1);
    }
}

/// The text from the start of a numeral to its end is a numeral.
pub proof fn lemma_numeral(s: Seq<char>, at: int)
    requires
        starts_numeral(s, at),
    ensures
        is_numeral(s.subrange(at, numeral_end(s, at))),
{
    lemma_numeral_end(s, at);
    let end = numeral_end(s, at);
    let t = s.subrange(at, end);
    let first = if s[at] == '-' { at + 1 } else { at };
    let whole = digits_end(s, first);
    lemma_digits_end(s, first);
    lemma_digits_end(s, first + 1);
    if whole < s.len() {
        lemma_digits_end(s, whole + 1);
    }
    assert(t[0] == s[at]);
    lemma_digits_end_in_part(s, at, end, first);
    if whole < end {
        assert(t[whole - at] == s[whole]);
        lemma_digits_end_in_part(s, at, end, whole + 1);
    }
}

/// Every operand of the steps of a text is a numeral: there is a number
/// that it denotes.
pub proof fn lemma_operands_are_numerals(s: Seq<char>, at: int, pending: Operator, compared: bool)
    ensures
        forall|i: int|
            0 <= i < steps_from(s, at, pending, compared).len() ==> is_numeral(
                operand_of(#[trigger] steps_from(s, at, pending, compared)[i]),
            ),
    decreases s.len() - at,
{
    let all = steps_from(s, at, pending, compared);
    if 0 <= at < s.len() {
        if is_whitespace(s[at]) {
            lemma_operands_are_numerals(s, at + 1, pending, compared);
            assert(all == steps_from(s, at + 1, pending, compared));
        } else if starts_numeral(s, at) {
            let end = numeral_end(s, at);
            let rest = steps_from(s, end, pending, compared);
            lemma_numeral_end(s, at);
            lemma_numeral(s, at);
            lemma_operands_are_numerals(s, end, pending, compared);
            assert forall|i: int| 0 <= i < all.len() implies is_numeral(
                operand_of(#[trigger] all[i]),
            ) by {
                if !compared && i > 0 {
                    assert(all[i] == rest[i - 1]);
                }
            }
        } else if operator_of(s[at]) is Some {
            lemma_operands_are_numerals(s, at + 1, operator_of(s[at])->0, compared);
            assert(all == steps_from(s, at + 1, operator_of(s[at])->0, compared));
        } else if relation_at(s, at) is Some {
            let start = skip_whitespace(s, at + 2, s.len() as int);
            lemma_skip_whitespace(s, at + 2, s.len() as int);
            let next = if starts_numeral(s, start) {
                numeral_end(s, start)
            } else {
                start
            };
            let rest = steps_from(s, next, pending, true);
            if starts_numeral(s, start) {
                lemma_numeral_end(s, start);
                lemma_numeral(s, start);
            } else {
                assert(is_numeral(zero())) by {
                    reveal_with_fuel(digits_end, 3);
                }
            }
            lemma_operands_are_numerals(s, next, pending, true);
            assert forall|i: int| 0 <= i < all.len() implies is_numeral(
                operand_of(#[trigger] all[i]),
            ) by {
                if i > 0 {
                    assert(all[i] == rest[i - 1]);
                }
            }
        } else {
            lemma_operands_are_numerals(s, at + 1, pending, compared);
            assert(all == steps_from(s, at + 1, pending, compared));
        }
    }
}

/// Finds the end of the run of digits that begins at `v[from]`.
fn scan_digits(v: &Vec<char>, from: usize) -> (end: usize)
    requires
        from <= v.len(),
    ensures
        end == digits_end(v@, from as int),
        from <= end <= v.len(),
{
    let mut i: usize = from;
    while i < v.len() && char_is_digit(v[i])
        invariant
            from <= i <= v.len(),
            digits_end(v@, from as int) == digits_end(v@, i as int),
        decreases v.len() - i,
    {
        i += 1;
    }
    i
}

/// Tests whether a numeral begins at `v[at]`.
fn numeral_starts(v: &Vec<char>, at: usize) -> (b: bool)
    ensures
        b == starts_numeral(v@, at as int),
{
    if at >= v.len() {
        false
    } else if char_is_digit(v[at]) {
        true
    } else {
        v[at] == '-' && at + 1 < v.len() && char_is_digit(v[at + 1])
    }
}

/// Finds the end of the numeral that begins at `v[at]`.
fn scan_numeral(v: &Vec<char>, at: usize) -> (end: usize)
    requires
        starts_numeral(v@, at as int),
    ensures
        end == numeral_end(v@, at as int),
        at < end <= v.len(),
{
    proof {
        lemma_numeral_end(v@, at as int);
    }
    let first = if v[at] == '-' {
        assert(at + 1 < v.len());
        at + 1
    } else {
        at
    };
    let whole = scan_digits(v, first);
    if whole < v.len() && v[whole] == '.' {
        scan_digits(v, whole + 1)
    } else {
        whole
    }
}

/// The operator that a character denotes.
fn operator_for(c: char) -> (r: Option<Operator>)
    ensures
        r == operator_of(c),
{
    if c == '+' {
        Some(Operator::Add)
    } else if c == '-' {
        Some(Operator::Subtract)
    } else if c == '*' {
        Some(Operator::Multiply)
    } else if c == '/' {
        Some(Operator::Divide)
    } else {
        None
    }
}

/// The comparison written at `v[at]`, if there is one.
fn relation_for(v: &Vec<char>, at: usize) -> (r: Option<Relation>)
    ensures
        r == relation_at(v@, at as int),
{
    if at < v.len() && at + 1 < v.len() && v[at + 1] == '=' {
        if v[at] == '>' {
            Some(Relation::AtLeast)
        } else if v[at] == '<' {
            Some(Relation::AtMost)
        } else if v[at] == '=' {
            Some(Relation::Equal)
        } else {
            None
        }
    } else {
        None
    }
}

/// Appends a step to a plan.
fn push_step(plan: &mut Vec<Step>, step: Step)
    ensures
        final(plan).deep_view() == old(plan).deep_view().push(step@),
{
    plan.push(step);
    assert(plan.deep_view() =~= old(plan).deep_view().push(step@));
}

/// Reads an expression: returns the steps that it asks for, in order.
/// Every operand among them is a numeral.
pub fn plan(expression: &str) -> (r: Vec<Step>)
    ensures
        r.deep_view() == steps(expression@),
        forall|i: int| 0 <= i < r.len() ==> is_numeral(operand_of(#[trigger] r.deep_view()[i])),
{
    proof {
        lemma_operands_are_numerals(expression@, 0, Operator::Add, false);
    }
    let v = to_chars(expression);
    let mut r: Vec<Step> = Vec::new();
    let mut pending = Operator::Add;
    let mut compared = false;
    let mut i: usize = 0;
    assert(r.deep_view() + steps_from(v@, 0, pending, compared) =~= steps(v@));
    while i < v.len()
        invariant
            i <= v.len(),
            steps(v@) == r.deep_view() + steps_from(v@, i as int, pending, compared),
        decreases v.len() - i,
    {
        let ghost before = r.deep_view();
        let c = v[i];
        if char_is_whitespace(c) {
            i += 1;
        } else if numeral_starts(&v, i) {
            let end = scan_numeral(&v, i);
            if !compared {
                let operand = to_string(&v, i, end);
                push_step(&mut r, Step::Combine { operator: pending, operand });
                let ghost step = StepView::Combine {
                    operator: pending,
                    operand: v@.subrange(i as int, end as int),
                };
                let ghost rest = steps_from(v@, end as int, pending, compared);
                assert(before + (seq![step] + rest) =~= before.push(step) + rest);
            }
            i = end;
        } else if let Some(operator) = operator_for(c) {
            pending = operator;
            i += 1;
        } else if let Some(relation) = relation_for(&v, i) {
            let mut start: usize = i + 2;
            while start < v.len() && char_is_whitespace(v[start])
                invariant
                    i + 2 <= start <= v.len(),
                    skip_whitespace(v@, i + 2, v.len() as int) == skip_whitespace(
                        v@,
                        start as int,
                        v.len() as int,
                    ),
                decreases v.len() - start,
            {
                start += 1;
            }
            let ghost rest;
            let ghost step;
            if numeral_starts(&v, start) {
                let end = scan_numeral(&v, start);
                let operand = to_string(&v, start, end);
                push_step(&mut r, Step::Compare { relation, operand });
                proof {
                    step =
                    StepView::Compare { relation, operand: v@.subrange(start as int, end as int) };
                    rest = steps_from(v@, end as int, pending, true);
                }
                i = end;
            } else {
                let mut operand = String::new();
                push_char(&mut operand, '0');
                assert(operand@ =~= zero());
                push_step(&mut r, Step::Compare { relation, operand });
                proof {
                    step = StepView::Compare { relation, operand: zero() };
                    rest = steps_from(v@, start as int, pending, true);
                }
                i = start;
            }
            assert(before + (seq![step] + rest) =~= before.push(step) + rest);
            compared = true;
        } else {
            i += 1;
        }
    }
    assert(r.deep_view() + Seq::<StepView>::empty() =~= r.deep_view());
    r
}

/// Tests whether a text holds an arithmetic operator character.
pub fn contains_operator(v: &Vec<char>) -> (b: bool)
    ensures
        b == has_operator(v@),
{
    let mut i: usize = 0;
    while i < v.len()
        invariant
            i <= v.len(),
            forall|k: int| 0 <= k < i ==> operator_of(#[trigger] v@[k]) is None,
        decreases v.len() - i,
    {
        if operator_for(v[i]).is_some() {
            return true;
        }
        i += 1;
    }
    false
}

} // verus!
