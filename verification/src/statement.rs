//! The kinds of statement, and how a line is told to be of one of them.
//!
//! A line is classified once, by the prefix of its trimmed text, apart from
//! what is then done with it.

use crate::syntax::{
    FUNC_BEGIN,
    FUNC_CALL,
    IF_BEGIN,
    INPUT_VAR,
    ML_COMMENT,
    SL_COMMENT,
    THREAD_OUTSIDE_BEGIN,
    VAR_DECLARE,
    VAR_DELETE,
};
use crate::text::{equals, starts_with, to_string, trim, trimmed};
use vstd::prelude::*;

verus! {

/// A line of a script, classified. Each text is what follows the prefix on
/// the trimmed line, as it stands there.
#[derive(Clone, Debug, PartialEq, Eq)]
pub enum Statement {
    /// A line without text.
    Blank,
    /// `.`: a comment of one line.
    Comment,
    /// `...`: the delimiter of a comment of several lines.
    CommentBlock,
    /// `!!`: the opening of a concurrent block.
    Concurrent,
    /// `var `: a declaration, with its name, `=` and value.
    Declare(String),
    /// `-`: the deletion of the variable named.
    Delete(String),
    /// `if `: the opening of a conditional block, with its condition.
    If(String),
    /// `func `: the opening of the definition of the function named.
    Define(String),
    /// `call `: a call of the function named.
    Call(String),
    /// `input `: a request for input, with its name and prompt.
    Input(String),
    /// Any other line: the text to write.
    Output(String),
}

/// The model of a [`Statement`].
pub enum StatementView {
    Blank,
    Comment,
    CommentBlock,
    Concurrent,
    Declare(Seq<char>),
    Delete(Seq<char>),
    If(Seq<char>),
    Define(Seq<char>),
    Call(Seq<char>),
    Input(Seq<char>),
    Output(Seq<char>),
}

impl View for Statement {
    type V = StatementView;

    open spec fn view(&self) -> StatementView {
        match *self {
            Statement::Blank => StatementView::Blank,
            Statement::Comment => StatementView::Comment,
            Statement::CommentBlock => StatementView::CommentBlock,
            Statement::Concurrent => StatementView::Concurrent,
            Statement::Declare(text) => StatementView::Declare(text@),
            Statement::Delete(text) => StatementView::Delete(text@),
            Statement::If(text) => StatementView::If(text@),
            Statement::Define(text) => StatementView::Define(text@),
            Statement::Call(text) => StatementView::Call(text@),
            Statement::Input(text) => StatementView::Input(text@),
            Statement::Output(text) => StatementView::Output(text@),
        }
    }
}

/// What follows `prefix` on the text `t`.
pub open spec fn after(t: Seq<char>, prefix: Seq<char>) -> Seq<char> {
    t.subrange(prefix.len() as int, t.len() as int)
}

/// The statement that `line` is. The prefixes are tried in this order, on
/// the trimmed line: the comment delimiter, which must be the whole line;
/// nothing at all; `.`; `!!`; `var `; `-`; `if `; `func `; `call `;
/// `input `. A line with none of them is text to write.
pub open spec fn classify(line: Seq<char>) -> StatementView {
    let t = trim(line);
    if t == ML_COMMENT@ {
        StatementView::CommentBlock
    } else if t.len() == 0 {
        StatementView::Blank
    } else if SL_COMMENT@.is_prefix_of(t) {
        StatementView::Comment
    } else if THREAD_OUTSIDE_BEGIN@.is_prefix_of(t) {
        StatementView::Concurrent
    } else if VAR_DECLARE@.is_prefix_of(t) {
        StatementView::Declare(after(t, VAR_DECLARE@))
    } else if VAR_DELETE@.is_prefix_of(t) {
        StatementView::Delete(after(t, VAR_DELETE@))
    } else if IF_BEGIN@.is_prefix_of(t) {
        StatementView::If(after(t, IF_BEGIN@))
    } else if FUNC_BEGIN@.is_prefix_of(t) {
        StatementView::Define(after(t, FUNC_BEGIN@))
    } else if FUNC_CALL@.is_prefix_of(t) {
        StatementView::Call(after(t, FUNC_CALL@))
    } else if INPUT_VAR@.is_prefix_of(t) {
        StatementView::Input(after(t, INPUT_VAR@))
    } else {
        StatementView::Output(t)
    }
}

/// What follows `prefix` on the text `t`, which begins with it.
fn rest(t: &Vec<char>, prefix: &str) -> (r: String)
    requires
        prefix@.is_prefix_of(t@),
    ensures
        r@ == after(t@, prefix@),
{
    to_string(t, prefix.unicode_len(), t.len())
}

/// Classifies a line.
pub fn classify_line(line: &str) -> (r: Statement)
    ensures
        r@ == classify(line@),
{
    let t = trimmed(line);
    if equals(&t, ML_COMMENT) {
        Statement::CommentBlock
    } else if t.len() == 0 {
        Statement::Blank
    } else if starts_with(&t, SL_COMMENT) {
        Statement::Comment
    } else if starts_with(&t, THREAD_OUTSIDE_BEGIN) {
        Statement::Concurrent
    } else if starts_with(&t, VAR_DECLARE) {
        Statement::Declare(rest(&t, VAR_DECLARE))
    } else if starts_with(&t, VAR_DELETE) {
        Statement::Delete(rest(&t, VAR_DELETE))
    } else if starts_with(&t, IF_BEGIN) {
        Statement::If(rest(&t, IF_BEGIN))
    } else if starts_with(&t, FUNC_BEGIN) {
        Statement::Define(rest(&t, FUNC_BEGIN))
    } else if starts_with(&t, FUNC_CALL) {
        Statement::Call(rest(&t, FUNC_CALL))
    } else if starts_with(&t, INPUT_VAR) {
        Statement::Input(rest(&t, INPUT_VAR))
    } else {
        let text = to_string(&t, 0, t.len());
        assert(t@.subrange(0, t@.len() as int) =~= t@);
        Statement::Output(text)
    }
}

} // verus!
