//! The control-flow interpreter: what one statement does.
//!
//! An [`Interpreter`] holds the variable store and the function table.
//! [`Interpreter::process_line`] takes the statement under the cursor,
//! leaves the cursor on the last line that the statement took, and returns
//! an [`Outcome`]: what is left for the caller to do, and what went wrong.
//! The caller runs the loop over the lines of a block: it performs each
//! action, moves the cursor one line on, and waits at the end of the block
//! for the concurrent blocks that it started there.

use crate::error::{push_error, Error, ErrorView};
use crate::escape::{decode_chars, decode_escapes};
use crate::expression::{
    contains_operator,
    has_operator,
    is_numeral,
    operand_of,
    plan,
    steps,
    Step,
    StepView,
};
use crate::interpolation::{interpolate, interpolate_chars, undefined};
use crate::scanner::{
    block_body,
    block_next,
    concurrent_body,
    concurrent_next,
    scan_block,
    scan_concurrent,
};
use crate::statement::{classify, classify_line, Statement, StatementView};
use crate::store::{FunctionTable, VariableStore};
use crate::syntax::{
    FUNC_END,
    IF_END,
    INPUT_DEFAULT_PROMPT,
    INPUT_VAR_SPLIT,
    ML_COMMENT,
    VAR_ASSIGN,
};
use crate::text::{
    find,
    find_in,
    split_once,
    splits_once,
    to_chars,
    to_string,
    trim,
    trim_slice,
    trimmed,
};
use vstd::prelude::*;

verus! {

/// The model of an [`Interpreter`]: the value of each variable and the body
/// of each function.
pub struct State {
    pub vars: Map<Seq<char>, Seq<char>>,
    pub funcs: Map<Seq<char>, Seq<Seq<char>>>,
}

/// What is left for the caller to do after a statement.
#[derive(Clone, Debug, PartialEq, Eq)]
pub enum Action {
    /// Nothing.
    Proceed,
    /// Write the text to standard output, as it is.
    Print(String),
    /// Take the steps from an accumulator of zero, and store the decimal
    /// form of the result under `name`.
    Assign { name: String, steps: Vec<Step> },
    /// Take the steps from an accumulator of zero, and run the lines of
    /// `body` as a block if the result is not zero.
    Branch { steps: Vec<Step>, body: Vec<String> },
    /// Start running the lines as a block of their own, on the same
    /// interpreter, and go on without waiting for it.
    Spawn(Vec<String>),
    /// Write `message` to standard output, read one line from standard
    /// input, and hand it to [`Interpreter::accept_input`] under `name`.
    Prompt { name: String, message: String },
}

/// The model of an [`Action`].
pub enum ActionView {
    Proceed,
    Print(Seq<char>),
    Assign { name: Seq<char>, steps: Seq<StepView> },
    Branch { steps: Seq<StepView>, body: Seq<Seq<char>> },
    Spawn(Seq<Seq<char>>),
    Prompt { name: Seq<char>, message: Seq<char> },
}

impl View for Action {
    type V = ActionView;

    open spec fn view(&self) -> ActionView {
        match *self {
            Action::Proceed => ActionView::Proceed,
            Action::Print(text) => ActionView::Print(text@),
            Action::Assign { name, steps } => ActionView::Assign {
                name: name@,
                steps: steps.deep_view(),
            },
            Action::Branch { steps, body } => ActionView::Branch {
                steps: steps.deep_view(),
                body: body.deep_view(),
            },
            Action::Spawn(lines) => ActionView::Spawn(lines.deep_view()),
            Action::Prompt { name, message } => ActionView::Prompt { name: name@, message: message@ },
        }
    }
}

/// What a statement leaves behind: an action for the caller, and the errors
/// to report, in the order in which they arose.
#[derive(Clone, Debug, PartialEq, Eq)]
pub struct Outcome {
    pub action: Action,
    pub errors: Vec<Error>,
}

/// The model of an [`Outcome`].
pub struct OutcomeView {
    pub action: ActionView,
    pub errors: Seq<ErrorView>,
}

impl View for Outcome {
    type V = OutcomeView;

    open spec fn view(&self) -> OutcomeView {
        OutcomeView { action: self.action@, errors: self.errors.deep_view() }
    }
}

/// The outcome of a statement that leaves nothing to do and nothing to
/// report.
pub open spec fn quiet() -> OutcomeView {
    OutcomeView { action: ActionView::Proceed, errors: Seq::empty() }
}

/// The outcome of a statement that failed with `error`.
pub open spec fn failed(error: ErrorView) -> OutcomeView {
    OutcomeView { action: ActionView::Proceed, errors: seq![error] }
}

/// What is written for `text`: its interpolation, decoded.
pub open spec fn rendered(vars: Map<Seq<char>, Seq<char>>, text: Seq<char>) -> Seq<char> {
    decode_escapes(interpolate(vars, text))
}

/// What is written for the lines of `body`, one after the other, each as it
/// stands.
pub open spec fn rendered_lines(vars: Map<Seq<char>, Seq<char>>, body: Seq<Seq<char>>) -> Seq<
    char,
>
    decreases body.len(),
{
    if body.len() == 0 {
        Seq::empty()
    } else {
        rendered_lines(vars, body.drop_last()) + rendered(vars, body.last())
    }
}

/// The errors of interpolating the lines of `body`, one after the other.
pub open spec fn undefined_in_lines(vars: Map<Seq<char>, Seq<char>>, body: Seq<Seq<char>>) -> Seq<
    ErrorView,
>
    decreases body.len(),
{
    if body.len() == 0 {
        Seq::empty()
    } else {
        undefined_in_lines(vars, body.drop_last()) + undefined(vars, body.last())
    }
}

/// The name that the declaration `d` declares: what stands before its `=`,
/// trimmed.
pub open spec fn declared_name(d: Seq<char>) -> Seq<char> {
    trim(d.subrange(0, find(d, VAR_ASSIGN@, 0)))
}

/// The value that the declaration `d` gives, as written: what stands
/// behind its `=`, trimmed.
pub open spec fn declared_text(d: Seq<char>) -> Seq<char> {
    trim(d.subrange(find(d, VAR_ASSIGN@, 0) + VAR_ASSIGN@.len(), d.len() as int))
}

/// What the declaration `d` does. It must hold `=` exactly once. Its value
/// is interpolated. A value that then holds an operator character is left
/// to be evaluated and stored by the caller; any other is stored as it is.
pub open spec fn declare(state: State, d: Seq<char>) -> (State, OutcomeView) {
    if !splits_once(d, VAR_ASSIGN@) {
        (state, failed(ErrorView::MalformedDeclaration))
    } else {
        let value = interpolate(state.vars, declared_text(d));
        let errors = undefined(state.vars, declared_text(d));
        if has_operator(value) {
            (
                state,
                OutcomeView {
                    action: ActionView::Assign { name: declared_name(d), steps: steps(value) },
                    errors,
                },
            )
        } else {
            (
                State { vars: state.vars.insert(declared_name(d), value), ..state },
                OutcomeView { action: ActionView::Proceed, errors },
            )
        }
    }
}

/// What the deletion of `name` does: the variable leaves the store, and it
/// is an error if it was not there.
pub open spec fn delete(state: State, name: Seq<char>) -> (State, OutcomeView) {
    if state.vars.contains_key(name) {
        (State { vars: state.vars.remove(name), ..state }, quiet())
    } else {
        (state, failed(ErrorView::UndefinedVariable(name)))
    }
}

/// What the condition `c` asks to be computed, and the errors of
/// interpolating it.
pub open spec fn condition(state: State, c: Seq<char>) -> (Seq<StepView>, Seq<ErrorView>) {
    (steps(interpolate(state.vars, c)), undefined(state.vars, c))
}

/// What a call of `name` does: the lines of its body are written, each
/// interpolated and decoded as it stands, and it is an error if no such
/// function is defined.
pub open spec fn call(state: State, name: Seq<char>) -> OutcomeView {
    if state.funcs.contains_key(name) {
        OutcomeView {
            action: ActionView::Print(rendered_lines(state.vars, state.funcs[name])),
            errors: undefined_in_lines(state.vars, state.funcs[name]),
        }
    } else {
        failed(ErrorView::UndefinedFunction(name))
    }
}

/// The name under which the input statement `r` stores: what stands before
/// its first `->`, or all of it if it has none, trimmed.
pub open spec fn input_name(r: Seq<char>) -> Seq<char> {
    trim(r.subrange(0, find(r, INPUT_VAR_SPLIT@, 0)))
}

/// The prompt of the input statement `r`, as written: what stands behind
/// its `->`, trimmed, if it holds `->` exactly once, and the default prompt
/// otherwise.
pub open spec fn input_prompt(r: Seq<char>) -> Seq<char> {
    if splits_once(r, INPUT_VAR_SPLIT@) {
        trim(r.subrange(find(r, INPUT_VAR_SPLIT@, 0) + INPUT_VAR_SPLIT@.len(), r.len() as int))
    } else {
        INPUT_DEFAULT_PROMPT@
    }
}

/// What the input statement `r` does: its prompt, interpolated and decoded,
/// is to be shown, and a line to be read for its name.
pub open spec fn input(state: State, r: Seq<char>) -> OutcomeView {
    OutcomeView {
        action: ActionView::Prompt {
            name: input_name(r),
            message: rendered(state.vars, input_prompt(r)),
        },
        errors: undefined(state.vars, input_prompt(r)),
    }
}

/// What a line of text `t` does: it is written, interpolated and decoded.
pub open spec fn output(state: State, t: Seq<char>) -> OutcomeView {
    OutcomeView {
        action: ActionView::Print(rendered(state.vars, t)),
        errors: undefined(state.vars, t),
    }
}

/// What a statement makes of the state, where it leaves the cursor, and
/// what it leaves behind.
pub struct Effect {
    pub state: State,
    pub cursor: int,
    pub outcome: OutcomeView,
}

/// The last line of the block that is opened at line `at`: its closing
/// line, or the last of the lines if it is not closed.
pub open spec fn block_last(
    lines: Seq<Seq<char>>,
    at: int,
    sentinel: Seq<char>,
    exact: bool,
) -> int {
    block_next(lines, at, sentinel, exact) - 1
}

/// The last line of the concurrent block that is opened at line `at`: its
/// closing line, or the last of the lines if it is not closed.
pub open spec fn concurrent_last(lines: Seq<Seq<char>>, at: int) -> int {
    concurrent_next(lines, at + 1, false) - 1
}

/// The effect of the statement at line `at` of `lines`.
///
/// The cursor is left on the last line that the statement took, and the
/// run goes on at the line behind it. A comment, a conditional block, a
/// function definition and a concurrent block take their lines with them,
/// down to their closing line. Every other statement takes its own line
/// only, and leaves the cursor where it stood.
pub open spec fn effect(state: State, lines: Seq<Seq<char>>, at: int) -> Effect {
    match classify(lines[at]) {
        StatementView::Blank | StatementView::Comment => Effect {
            state,
            cursor: at,
            outcome: quiet(),
        },
        StatementView::CommentBlock => Effect {
            state,
            cursor: block_last(lines, at, ML_COMMENT@, true),
            outcome: quiet(),
        },
        StatementView::Concurrent => Effect {
            state,
            cursor: concurrent_last(lines, at),
            outcome: OutcomeView {
                action: ActionView::Spawn(concurrent_body(lines, at + 1, false)),
                errors: Seq::empty(),
            },
        },
        StatementView::Declare(d) => Effect {
            state: declare(state, d).0,
            cursor: at,
            outcome: declare(state, d).1,
        },
        StatementView::Delete(name) => Effect {
            state: delete(state, name).0,
            cursor: at,
            outcome: delete(state, name).1,
        },
        StatementView::If(c) => Effect {
            state,
            cursor: block_last(lines, at, IF_END@, false),
            outcome: OutcomeView {
                action: ActionView::Branch {
                    steps: condition(state, c).0,
                    body: block_body(lines, at, IF_END@, false),
                },
                errors: condition(state, c).1,
            },
        },
        StatementView::Define(name) => Effect {
            state: State {
                funcs: state.funcs.insert(name, block_body(lines, at, FUNC_END@, false)),
                ..state
            },
            cursor: block_last(lines, at, FUNC_END@, false),
            outcome: quiet(),
        },
        StatementView::Call(name) => Effect { state, cursor: at, outcome: call(state, name) },
        StatementView::Input(r) => Effect { state, cursor: at, outcome: input(state, r) },
        StatementView::Output(t) => Effect { state, cursor: at, outcome: output(state, t) },
    }
}

/// The lines that an action asks to be run as a block in the caller's own
/// turn, once the caller knows whether the result of its steps is zero: the
/// body of a conditional block whose condition is not zero, and none in
/// every other case.
pub open spec fn block_to_run(action: ActionView, nonzero: bool) -> Seq<Seq<char>> {
    match action {
        ActionView::Branch { steps, body } => if nonzero {
            body
        } else {
            Seq::empty()
        },
        _ => Seq::empty(),
    }
}

impl Action {
    /// The lines to run as a block in the caller's own turn, given whether
    /// the result of the action's steps is zero.
    pub fn into_block(self, nonzero: bool) -> (r: Vec<String>)
        ensures
            r.deep_view() == block_to_run(self@, nonzero),
    {
        match self {
            Action::Branch { steps, body } => {
                if nonzero {
                    body
                } else {
                    let r: Vec<String> = Vec::new();
                    assert(r.deep_view() =~= Seq::<Seq<char>>::empty());
                    r
                }
            },
            _ => {
                let r: Vec<String> = Vec::new();
                assert(r.deep_view() =~= Seq::<Seq<char>>::empty());
                r
            },
        }
    }
}

/// The interpreter: the variable store and the function table of one run.
pub struct Interpreter {
    pub vars: VariableStore,
    pub funcs: FunctionTable,
}

impl View for Interpreter {
    type V = State;

    open spec fn view(&self) -> State {
        State { vars: self.vars@, funcs: self.funcs@ }
    }
}

/// An outcome without errors.
fn done(action: Action) -> (r: Outcome)
    ensures
        r@ == (OutcomeView { action: action@, errors: Seq::empty() }),
{
    let errors: Vec<Error> = Vec::new();
    assert(errors.deep_view() =~= Seq::<ErrorView>::empty());
    Outcome { action, errors }
}

/// The outcome of a statement that failed with `error`.
fn fail(error: Error) -> (r: Outcome)
    ensures
        r@ == failed(error@),
{
    let mut errors: Vec<Error> = Vec::new();
    assert(errors.deep_view() =~= Seq::<ErrorView>::empty());
    push_error(&mut errors, error);
    assert(errors.deep_view() =~= seq![error@]);
    Outcome { action: Action::Proceed, errors }
}

/// The whole of `v` as a string.
fn whole(v: &Vec<char>) -> (r: String)
    ensures
        r@ == v@,
{
    let r = to_string(v, 0, v.len());
    assert(v@.subrange(0, v@.len() as int) =~= v@);
    r
}

impl Interpreter {
    /// An interpreter without variables and without functions.
    pub fn new() -> (r: Self)
        ensures
            r@.vars == Map::<Seq<char>, Seq<char>>::empty(),
            r@.funcs == Map::<Seq<char>, Seq<Seq<char>>>::empty(),
    {
        Interpreter { vars: VariableStore::new(), funcs: FunctionTable::new() }
    }

    /// Gives the variable `name` the value `value`, in place of any it had.
    pub fn set_var(&mut self, name: &str, value: &str)
        ensures
            final(self)@ == (State { vars: old(self)@.vars.insert(name@, value@), ..old(self)@ }),
    {
        self.vars.set(name, value);
    }

    /// The value of the variable `name`, if it has one.
    pub fn get_var(&self, name: &str) -> (r: Option<String>)
        ensures
            r is Some <==> self@.vars.contains_key(name@),
            r is Some ==> r->0@ == self@.vars[name@],
    {
        self.vars.get(name)
    }

    /// Deletes the variable `name`. It is an error if it has no value; the
    /// store is then left as it is.
    pub fn delete_var(&mut self, name: &str) -> (r: Result<(), Error>)
        ensures
            final(self)@ == delete(old(self)@, name@).0,
            r is Ok <==> old(self)@.vars.contains_key(name@),
            r is Err ==> r->Err_0@ == ErrorView::UndefinedVariable(name@),
    {
        if self.vars.delete(name) {
            Ok(())
        } else {
            assert(self@.vars =~= old(self)@.vars);
            Err(Error::UndefinedVariable(name.to_owned()))
        }
    }

    /// Replaces every reference in `s` by the value of its variable, and
    /// returns an error for each reference to a variable without a value.
    pub fn replace_variables(&self, s: &mut String) -> (errors: Vec<Error>)
        ensures
            final(s)@ == interpolate(self@.vars, old(s)@),
            errors.deep_view() == undefined(self@.vars, old(s)@),
    {
        let mut errors: Vec<Error> = Vec::new();
        assert(errors.deep_view() =~= Seq::<ErrorView>::empty());
        let v = to_chars(s.as_str());
        let r = interpolate_chars(&self.vars, &v, &mut errors);
        *s = whole(&r);
        assert(Seq::<ErrorView>::empty() + undefined(self@.vars, v@) =~= undefined(
            self@.vars,
            v@,
        ));
        errors
    }

    /// Resolves the escape sequences of `s`.
    pub fn process_escape_sequences(&self, s: &mut String)
        ensures
            final(s)@ == decode_escapes(old(s)@),
    {
        let v = to_chars(s.as_str());
        let r = decode_chars(&v);
        *s = whole(&r);
    }

    /// Interpolates and decodes `v`, and appends the errors of the
    /// interpolation to `log`.
    fn render(&self, v: &Vec<char>, log: &mut Vec<Error>) -> (r: Vec<char>)
        ensures
            r@ == rendered(self@.vars, v@),
            final(log).deep_view() == old(log).deep_view() + undefined(self@.vars, v@),
    {
        let r = interpolate_chars(&self.vars, v, log);
        decode_chars(&r)
    }

    /// Reads an expression: returns the steps of its evaluation, from left
    /// to right and without precedence. Taking them, which is arithmetic on
    /// floating-point numbers, is left to the caller.
    pub fn evaluate_expression(&self, expression: &str) -> (r: Vec<Step>)
        ensures
            r.deep_view() == steps(expression@),
            forall|i: int| 0 <= i < r.len() ==> is_numeral(operand_of(#[trigger] r.deep_view()[i])),
    {
        plan(expression)
    }

    /// Reads the condition of a conditional block: returns the steps that
    /// it asks for, and appends the errors of its interpolation to `log`.
    /// The condition holds if the steps leave the accumulator other than
    /// zero.
    pub fn process_if_statement(&self, condition: &str, log: &mut Vec<Error>) -> (r: Vec<Step>)
        ensures
            r.deep_view() == self::condition(self@, condition@).0,
            final(log).deep_view() == old(log).deep_view() + self::condition(
                self@,
                condition@,
            ).1,
    {
        let v = to_chars(condition);
        let value = interpolate_chars(&self.vars, &v, log);
        plan(whole(&value).as_str())
    }

    /// Carries out the declaration `declaration`, the text behind `var `.
    pub fn process_var_declaration(&mut self, declaration: &str) -> (r: Outcome)
        ensures
            final(self)@ == declare(old(self)@, declaration@).0,
            r@ == declare(old(self)@, declaration@).1,
    {
        let d = to_chars(declaration);
        match split_once(&d, VAR_ASSIGN) {
            None => fail(Error::MalformedDeclaration),
            Some(at) => {
                let name = trim_slice(&d, 0, at);
                let text = trim_slice(&d, at + VAR_ASSIGN.unicode_len(), d.len());
                let mut errors: Vec<Error> = Vec::new();
                assert(errors.deep_view() =~= Seq::<ErrorView>::empty());
                let value = interpolate_chars(&self.vars, &text, &mut errors);
                assert(Seq::<ErrorView>::empty() + undefined(self@.vars, text@) =~= undefined(
                    self@.vars,
                    text@,
                ));
                if contains_operator(&value) {
                    let steps = plan(whole(&value).as_str());
                    Outcome { action: Action::Assign { name: whole(&name), steps }, errors }
                } else {
                    self.vars.set(whole(&name).as_str(), whole(&value).as_str());
                    Outcome { action: Action::Proceed, errors }
                }
            },
        }
    }

    /// Defines the function whose `func` line stands at `lines[*i]`: its
    /// body is the lines up to the first `cnuf` line, and the cursor comes
    /// to stand just past that line. A line at the cursor that is no `func`
    /// line is an error, and nothing is changed.
    pub fn define_function(&mut self, lines: &Vec<String>, i: &mut usize) -> (r: Result<(), Error>)
        requires
            *old(i) < lines.len(),
        ensures
            r is Ok <==> classify(lines.deep_view()[*old(i) as int]) is Define,
            r is Ok ==> *final(i) == block_next(
                lines.deep_view(),
                *old(i) as int,
                FUNC_END@,
                false,
            ) && final(self)@ == effect(old(self)@, lines.deep_view(), *old(i) as int).state,
            r is Err ==> *final(i) == *old(i) && final(self)@ == old(self)@ && r->Err_0@
                == ErrorView::MalformedDeclaration,
    {
        match classify_line(lines[*i].as_str()) {
            Statement::Define(name) => {
                let body = scan_block(lines, i, FUNC_END, false);
                self.funcs.define(name.as_str(), body);
                Ok(())
            },
            _ => Err(Error::MalformedDeclaration),
        }
    }

    /// Calls the function `name`: returns what its body writes.
    pub fn execute_function(&self, name: &str) -> (r: Outcome)
        ensures
            r@ == call(self@, name@),
    {
        match self.funcs.get(name) {
            None => fail(Error::UndefinedFunction(name.to_owned())),
            Some(body) => {
                let mut text: Vec<char> = Vec::new();
                let mut errors: Vec<Error> = Vec::new();
                let ghost all = body.deep_view();
                let mut k: usize = 0;
                assert(all.take(0) =~= Seq::<Seq<char>>::empty());
                assert(errors.deep_view() =~= Seq::<ErrorView>::empty());
                while k < body.len()
                    invariant
                        k <= body.len(),
                        all == body.deep_view(),
                        text@ == rendered_lines(self@.vars, all.take(k as int)),
                        errors.deep_view() == undefined_in_lines(self@.vars, all.take(k as int)),
                    decreases body.len() - k,
                {
                    let line = to_chars(body[k].as_str());
                    let piece = self.render(&line, &mut errors);
                    let ghost before = text@;
                    let mut j: usize = 0;
                    while j < piece.len()
                        invariant
                            j <= piece.len(),
                            text@ == before + piece@.take(j as int),
                        decreases piece.len() - j,
                    {
                        text.push(piece[j]);
                        assert(before + piece@.take(j + 1) =~= (before + piece@.take(
                            j as int,
                        )).push(piece@[j as int]));
                        j += 1;
                    }
                    assert(piece@.take(piece.len() as int) =~= piece@);
                    assert(all.take(k + 1).drop_last() =~= all.take(k as int));
                    assert(all.take(k + 1).last() == all[k as int]);
                    k += 1;
                }
                assert(all.take(body.len() as int) =~= all);
                Outcome { action: Action::Print(whole(&text)), errors }
            },
        }
    }

    /// Prepares the input statement `prompt`, the text behind `input `:
    /// returns the message to show and the name to store under.
    pub fn input_variable(&self, prompt: &str) -> (r: Outcome)
        ensures
            r@ == input(self@, prompt@),
    {
        let p = to_chars(prompt);
        let first = find_in(&p, INPUT_VAR_SPLIT, 0);
        let name = trim_slice(&p, 0, first);
        let text = match split_once(&p, INPUT_VAR_SPLIT) {
            Some(at) => trim_slice(&p, at + INPUT_VAR_SPLIT.unicode_len(), p.len()),
            None => to_chars(INPUT_DEFAULT_PROMPT),
        };
        let mut errors: Vec<Error> = Vec::new();
        assert(errors.deep_view() =~= Seq::<ErrorView>::empty());
        let message = self.render(&text, &mut errors);
        assert(Seq::<ErrorView>::empty() + undefined(self@.vars, text@) =~= undefined(
            self@.vars,
            text@,
        ));
        Outcome { action: Action::Prompt { name: whole(&name), message: whole(&message) }, errors }
    }

    /// Stores a line that was read for an input statement: `name` gets the
    /// line, trimmed, as its value.
    pub fn accept_input(&mut self, name: &str, line: &str)
        ensures
            final(self)@ == (State {
                vars: old(self)@.vars.insert(name@, trim(line@)),
                ..old(self)@
            }),
    {
        let t = trimmed(line);
        self.vars.set(name, whole(&t).as_str());
    }

    /// Carries out the statement at `lines[*i]` and leaves the cursor on the
    /// last line that the statement took: on its own line, or on the closing
    /// line of the block that it opens. The caller goes on at the line
    /// behind the cursor.
    pub fn process_line(&mut self, lines: &Vec<String>, i: &mut usize) -> (r: Outcome)
        requires
            *old(i) < lines.len(),
        ensures
            final(self)@ == effect(old(self)@, lines.deep_view(), *old(i) as int).state,
            *final(i) == effect(old(self)@, lines.deep_view(), *old(i) as int).cursor,
            r@ == effect(old(self)@, lines.deep_view(), *old(i) as int).outcome,
            *old(i) <= *final(i) < lines.len(),
    {
        let statement = classify_line(lines[*i].as_str());
        match statement {
            Statement::Blank | Statement::Comment => done(Action::Proceed),
            Statement::CommentBlock => {
                let _ = scan_block(lines, i, ML_COMMENT, true);
                *i -= 1;
                done(Action::Proceed)
            },
            Statement::Concurrent => {
                let body = scan_concurrent(lines, i);
                *i -= 1;
                done(Action::Spawn(body))
            },
            Statement::Declare(declaration) => self.process_var_declaration(declaration.as_str()),
            Statement::Delete(name) => {
                match self.delete_var(name.as_str()) {
                    Ok(()) => done(Action::Proceed),
                    Err(error) => fail(error),
                }
            },
            Statement::If(condition) => {
                let body = scan_block(lines, i, IF_END, false);
                *i -= 1;
                let mut errors: Vec<Error> = Vec::new();
                assert(errors.deep_view() =~= Seq::<ErrorView>::empty());
                let steps = self.process_if_statement(condition.as_str(), &mut errors);
                assert(Seq::<ErrorView>::empty() + self::condition(self@, condition@).1
                    =~= self::condition(self@, condition@).1);
                Outcome { action: Action::Branch { steps, body }, errors }
            },
            Statement::Define(name) => {
                let body = scan_block(lines, i, FUNC_END, false);
                *i -= 1;
                self.funcs.define(name.as_str(), body);
                done(Action::Proceed)
            },
            Statement::Call(name) => self.execute_function(name.as_str()),
            Statement::Input(prompt) => self.input_variable(prompt.as_str()),
            Statement::Output(text) => {
                let v = to_chars(text.as_str());
                let mut errors: Vec<Error> = Vec::new();
                assert(errors.deep_view() =~= Seq::<ErrorView>::empty());
                let r = self.render(&v, &mut errors);
                assert(Seq::<ErrorView>::empty() + undefined(self@.vars, v@) =~= undefined(
                    self@.vars,
                    v@,
                ));
                Outcome { action: Action::Print(whole(&r)), errors }
            },
        }
    }
}

} // verus!
