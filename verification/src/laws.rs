//! What holds of the interpreter as a whole: facts that relate several of
//! its statements and functions to one another.

use crate::error::ErrorView;
use crate::expression::{
    digits_end,
    has_operator,
    numeral_end,
    operator_of,
    starts_numeral,
    steps,
    steps_from,
    Operator,
    StepView,
};
use crate::interpolation::{
    interpolate,
    lemma_interpolate_plain,
    lemma_interpolate_reference,
    undefined,
};
use crate::interpreter::{
    block_to_run,
    call,
    declare,
    declared_name,
    declared_text,
    effect,
    quiet,
    rendered_lines,
    undefined_in_lines,
    ActionView,
    OutcomeView,
    State,
};
use crate::scanner::{
    block_body,
    concurrent_body,
    concurrent_next,
    find_delimiter,
    is_delimiter,
    lemma_find_delimiter,
};
use crate::statement::{classify, StatementView};
use crate::syntax::{FUNC_END, IF_END, VAR_ASSIGN, VAR_GET};
use crate::text::{
    has_prefix_at,
    is_ascii_alphanumeric,
    is_digit,
    is_identifier,
    is_identifier_char,
    is_whitespace,
    lemma_find_first,
    lemma_find_none,
    lemma_trim_back,
    lemma_trim_front,
    splits_once,
    trim,
};
use vstd::prelude::*;

verus! {

/// A variable that has been given a value is interpolated to that value,
/// and one that has then been deleted to nothing, with an error that names
/// it: for every identifier `name`, a reference `$name` alone yields `value`
/// once the store holds `value` under `name`, and yields nothing and
/// `UndefinedVariable(name)` once `name` has been taken out again.
pub proof fn lemma_set_then_reference(
    vars: Map<Seq<char>, Seq<char>>,
    name: Seq<char>,
    value: Seq<char>,
)
    requires
        is_identifier(name),
    ensures
        interpolate(vars.insert(name, value), seq![VAR_GET] + name) == value,
        undefined(vars.insert(name, value), seq![VAR_GET] + name) == Seq::<ErrorView>::empty(),
        interpolate(vars.insert(name, value).remove(name), seq![VAR_GET] + name) == Seq::<
            char,
        >::empty(),
        undefined(vars.insert(name, value).remove(name), seq![VAR_GET] + name) == seq![
            ErrorView::UndefinedVariable(name),
        ],
{
    lemma_interpolate_reference(vars.insert(name, value), name);
    lemma_interpolate_reference(vars.insert(name, value).remove(name), name);
}

/// A declaration whose value needs no arithmetic, followed by a reference
/// to the declared name, yields the interpolated value: if line `at` is
/// `var name = text` with an identifier for `name`, then after it `$name`
/// is interpolated to what `text` was interpolated to before it, without an
/// error. If line `then` deletes `name`, then after both `$name` is
/// interpolated to nothing, and `UndefinedVariable(name)` is reported.
pub proof fn lemma_declare_then_reference(
    state: State,
    lines: Seq<Seq<char>>,
    at: int,
    then: int,
    d: Seq<char>,
)
    requires
        0 <= at < lines.len(),
        0 <= then < lines.len(),
        classify(lines[at]) == StatementView::Declare(d),
        classify(lines[then]) == StatementView::Delete(declared_name(d)),
        splits_once(d, VAR_ASSIGN@),
        is_identifier(declared_name(d)),
        !has_operator(interpolate(state.vars, declared_text(d))),
    ensures
        ({
            let reference = seq![VAR_GET] + declared_name(d);
            let declared = effect(state, lines, at).state;
            let deleted = effect(declared, lines, then);
            &&& interpolate(declared.vars, reference) == interpolate(state.vars, declared_text(d))
            &&& undefined(declared.vars, reference) == Seq::<ErrorView>::empty()
            &&& deleted.outcome == quiet()
            &&& interpolate(deleted.state.vars, reference) == Seq::<char>::empty()
            &&& undefined(deleted.state.vars, reference) == seq![
                ErrorView::UndefinedVariable(declared_name(d)),
            ]
        }),
{
    lemma_set_then_reference(
        state.vars,
        declared_name(d),
        interpolate(state.vars, declared_text(d)),
    );
}

/// A conditional block runs its body once or not at all, and in both cases
/// the run goes on right behind its closing line: if line `at` is an `if`
/// line and `close` is the first `fi` line behind it, or the number of lines
/// if there is none, then the statement leaves the state as it is; the
/// lines to run are those between `at` and `close` where the condition is
/// not zero, and none where it is zero; and the cursor is left on line
/// `close`, or on the last line if there is no `fi`, so that the line
/// behind the cursor is the one just past the block.
pub proof fn lemma_conditional_block(state: State, lines: Seq<Seq<char>>, at: int)
    requires
        0 <= at < lines.len(),
        classify(lines[at]) is If,
    ensures
        ({
            let close = find_delimiter(lines, at + 1, IF_END@, false);
            let e = effect(state, lines, at);
            &&& at < close <= lines.len()
            &&& forall|k: int| at < k < close ==> !is_delimiter(#[trigger] lines[k], IF_END@, false)
            &&& close < lines.len() ==> is_delimiter(lines[close], IF_END@, false)
            &&& e.state == state
            &&& block_to_run(e.outcome.action, true) == lines.subrange(at + 1, close)
            &&& block_to_run(e.outcome.action, false) == Seq::<Seq<char>>::empty()
            &&& e.cursor + 1 == if close < lines.len() {
                close + 1
            } else {
                lines.len() as int
            }
        }),
{
    lemma_find_delimiter(lines, at + 1, IF_END@, false);
}

/// Opening a concurrent block changes neither the variable store nor the
/// function table: if line `at` is a `!!` line, the statement hands the
/// lines of the block to the caller and reports nothing, and whatever those
/// lines do to the store is done when the caller has them run.
pub proof fn lemma_concurrent_block(state: State, lines: Seq<Seq<char>>, at: int)
    requires
        0 <= at < lines.len(),
        classify(lines[at]) is Concurrent,
    ensures
        effect(state, lines, at).state == state,
        effect(state, lines, at).outcome == (OutcomeView {
            action: ActionView::Spawn(concurrent_body(lines, at + 1, false)),
            errors: Seq::empty(),
        }),
        effect(state, lines, at).cursor + 1 == concurrent_next(lines, at + 1, false),
{
}

/// Of two definitions under one name only the second is kept: if line
/// `first_at` of `first` and line `second_at` of `second` both define
/// `name`, then after the one and then the other the table is what the
/// second alone would have made of it, and a call of `name` writes the
/// lines of the second body and nothing of the first.
pub proof fn lemma_redefinition(
    state: State,
    first: Seq<Seq<char>>,
    first_at: int,
    second: Seq<Seq<char>>,
    second_at: int,
    name: Seq<char>,
)
    requires
        0 <= first_at < first.len(),
        0 <= second_at < second.len(),
        classify(first[first_at]) == StatementView::Define(name),
        classify(second[second_at]) == StatementView::Define(name),
    ensures
        ({
            let once = effect(state, first, first_at).state;
            let twice = effect(once, second, second_at).state;
            let body = block_body(second, second_at, FUNC_END@, false);
            &&& twice == effect(state, second, second_at).state
            &&& twice.funcs.contains_key(name)
            &&& twice.funcs[name] == body
            &&& call(twice, name) == (OutcomeView {
                action: ActionView::Print(rendered_lines(twice.vars, body)),
                errors: undefined_in_lines(twice.vars, body),
            })
        }),
{
    let once = effect(state, first, first_at).state;
    let twice = effect(once, second, second_at).state;
    let body = block_body(second, second_at, FUNC_END@, false);
    assert(twice.funcs =~= state.funcs.insert(name, body));
}

/// Whether `name` is a name spelled plainly: not empty, and made of the
/// letters and digits of ASCII and the underscore.
pub open spec fn is_plain_name(name: Seq<char>) -> bool {
    &&& name.len() > 0
    &&& forall|i: int|
        0 <= i < name.len() ==> is_ascii_alphanumeric(#[trigger] name[i]) || name[i] == '_'
}

/// Whether `value` is a value that a declaration stores as it is written:
/// it has no white space at its ends, and holds no `$`, no `=` and no
/// operator character.
pub open spec fn is_plain_value(value: Seq<char>) -> bool {
    &&& trim(value) == value
    &&& forall|i: int|
        0 <= i < value.len() ==> (#[trigger] value[i]) != VAR_GET && value[i] != '='
            && operator_of(value[i]) is None
}

/// The declaration `name = value`.
pub open spec fn declaration_of(name: Seq<char>, value: Seq<char>) -> Seq<char> {
    name + seq![' ', '=', ' '] + value
}

/// A name spelled plainly is an identifier.
pub proof fn lemma_plain_name_is_identifier(name: Seq<char>)
    requires
        is_plain_name(name),
    ensures
        is_identifier(name),
{
    assert forall|i: int| 0 <= i < name.len() implies is_identifier_char(
        #[trigger] name[i],
    ) by {
        assert(is_ascii_alphanumeric(name[i]) || name[i] == '_');
    }
}

/// A text holds a pattern of one character where it has that character.
proof fn lemma_holds_char(s: Seq<char>, at: int, c: char)
    ensures
        has_prefix_at(s, at, seq![c]) <==> 0 <= at < s.len() && s[at] == c,
{
    if 0 <= at < s.len() {
        if s[at] == c {
            assert(s.subrange(at, at + 1) =~= seq![c]);
        } else if has_prefix_at(s, at, seq![c]) {
            assert(s.subrange(at, at + 1)[0] == c);
        }
    }
}

/// The declaration `name = value` of a plain value under a plain name
/// declares that name and gives that value.
pub proof fn lemma_declaration_parts(name: Seq<char>, value: Seq<char>)
    requires
        is_plain_name(name),
        is_plain_value(value),
    ensures
        splits_once(declaration_of(name, value), VAR_ASSIGN@),
        declared_name(declaration_of(name, value)) == name,
        declared_text(declaration_of(name, value)) == value,
{
    reveal_strlit("=");
    let d = declaration_of(name, value);
    let n = name.len() as int;
    let assign = VAR_ASSIGN@;
    assert(assign =~= seq!['=']);
    assert(d.len() == n + 3 + value.len());
    assert forall|k: int| 0 <= k < n + 1 implies !has_prefix_at(d, k, assign) by {
        lemma_holds_char(d, k, '=');
        if k < n {
            assert(d[k] == name[k]);
            assert(is_ascii_alphanumeric(name[k]) || name[k] == '_');
        } else {
            assert(d[k] == ' ');
        }
    }
    assert(d[n + 1] == '=');
    lemma_holds_char(d, n + 1, '=');
    lemma_find_first(d, assign, 0, n + 1);
    assert forall|k: int| n + 2 <= k < d.len() implies !has_prefix_at(d, k, assign) by {
        lemma_holds_char(d, k, '=');
        if k > n + 2 {
            assert(d[k] == value[k - n - 3]);
        } else {
            assert(d[k] == ' ');
        }
    }
    lemma_find_none(d, assign, n + 2);
    assert(d.subrange(0, n + 1) =~= name.push(' '));
    assert(is_ascii_alphanumeric(name[0]) || name[0] == '_');
    assert(is_ascii_alphanumeric(name.last()) || name.last() == '_');
    lemma_trim_back(name, ' ');
    assert(d.subrange(n + 2, d.len() as int) =~= seq![' '] + value);
    lemma_trim_front(' ', value);
}

/// A plain value declared under a plain name is what a reference to the
/// name yields: the declaration `name = value` reports nothing, leaves
/// nothing to do, and stores `value` under `name` and changes nothing else;
/// after it `$name` is interpolated to `value`, without an error.
pub proof fn lemma_declare_plain_then_reference(state: State, name: Seq<char>, value: Seq<char>)
    requires
        is_plain_name(name),
        is_plain_value(value),
    ensures
        ({
            let declared = declare(state, declaration_of(name, value));
            &&& declared.1 == quiet()
            &&& declared.0 == (State { vars: state.vars.insert(name, value), ..state })
            &&& interpolate(declared.0.vars, seq![VAR_GET] + name) == value
            &&& undefined(declared.0.vars, seq![VAR_GET] + name) == Seq::<ErrorView>::empty()
        }),
{
    lemma_declaration_parts(name, value);
    lemma_plain_name_is_identifier(name);
    assert(!value.contains(VAR_GET));
    lemma_interpolate_plain(state.vars, value);
    assert(!has_operator(value));
    lemma_set_then_reference(state.vars, name, value);
}

/// Whether `t` is a run of digits, and not empty.
pub open spec fn is_digits(t: Seq<char>) -> bool {
    &&& t.len() > 0
    &&& forall|i: int| 0 <= i < t.len() ==> is_digit(#[trigger] t[i])
}

/// The character that is written for an operator.
pub open spec fn symbol(operator: Operator) -> char {
    match operator {
        Operator::Add => '+',
        Operator::Subtract => '-',
        Operator::Multiply => '*',
        Operator::Divide => '/',
    }
}

/// The expression `x p y q z`: three runs of digits with an operator
/// between each two, and a space on each side of an operator.
pub open spec fn chain_of(
    x: Seq<char>,
    p: Operator,
    y: Seq<char>,
    q: Operator,
    z: Seq<char>,
) -> Seq<char> {
    x + seq![' ', symbol(p), ' '] + y + seq![' ', symbol(q), ' '] + z
}

/// A run of digits ends where the digits do.
proof fn lemma_digits_run(t: Seq<char>, from: int, to: int)
    requires
        0 <= from <= to <= t.len(),
        forall|k: int| from <= k < to ==> is_digit(#[trigger] t[k]),
        to < t.len() ==> !is_digit(t[to]),
    ensures
        digits_end(t, from) == to,
    decreases to - from,
{
    if from < to {
        lemma_digits_run(t, from + 1, to);
    }
}

/// Where a text holds a run of digits with neither a digit nor a decimal
/// point behind it, and no comparison has been read, the run is combined
/// with the pending operator and the reading goes on behind it.
proof fn lemma_step_numeral(t: Seq<char>, at: int, pending: Operator, x: Seq<char>)
    requires
        is_digits(x),
        has_prefix_at(t, at, x),
        at + x.len() < t.len() ==> !is_digit(t[at + x.len()]) && t[at + x.len()] != '.',
    ensures
        steps_from(t, at, pending, false) == seq![
            StepView::Combine { operator: pending, operand: x },
        ] + steps_from(t, at + x.len(), pending, false),
{
    let end = at + x.len();
    assert forall|k: int| at <= k < end implies is_digit(#[trigger] t[k]) by {
        assert(t[k] == t.subrange(at, end)[k - at]);
    }
    assert(is_digit(t[at]));
    lemma_digits_run(t, at, end);
    assert(starts_numeral(t, at));
    assert(numeral_end(t, at) == end);
}

/// Where a text holds an operator with a space on each side, the operator
/// becomes the pending one and the reading goes on behind the second space.
proof fn lemma_step_operator(t: Seq<char>, at: int, pending: Operator, operator: Operator)
    requires
        0 <= at,
        at + 2 < t.len(),
        t[at] == ' ',
        t[at + 1] == symbol(operator),
        t[at + 2] == ' ',
    ensures
        steps_from(t, at, pending, false) == steps_from(t, at + 3, operator, false),
{
    assert(steps_from(t, at, pending, false) == steps_from(t, at + 1, pending, false));
    assert(!is_whitespace(t[at + 1]));
    assert(!starts_numeral(t, at + 1));
    assert(operator_of(t[at + 1]) == Some(operator));
    assert(steps_from(t, at + 1, pending, false) == steps_from(t, at + 2, operator, false));
    assert(steps_from(t, at + 2, operator, false) == steps_from(t, at + 3, operator, false));
}

/// Whether `t` is laid out as `x p y q z`: the three runs of digits with an
/// operator between each two, and a space on each side of an operator.
spec fn is_chain(
    t: Seq<char>,
    x: Seq<char>,
    p: Operator,
    y: Seq<char>,
    q: Operator,
    z: Seq<char>,
) -> bool {
    let a = x.len() as int;
    let b = a + 3 + y.len();
    &&& t.len() == b + 3 + z.len()
    &&& has_prefix_at(t, 0, x)
    &&& t[a] == ' '
    &&& t[a + 1] == symbol(p)
    &&& t[a + 2] == ' '
    &&& has_prefix_at(t, a + 3, y)
    &&& t[b] == ' '
    &&& t[b + 1] == symbol(q)
    &&& t[b + 2] == ' '
    &&& has_prefix_at(t, b + 3, z)
}

/// The expression `x p y q z` is laid out as its name says.
proof fn lemma_chain_shape(x: Seq<char>, p: Operator, y: Seq<char>, q: Operator, z: Seq<char>)
    ensures
        is_chain(chain_of(x, p, y, q, z), x, p, y, q, z),
{
    let t = chain_of(x, p, y, q, z);
    let a = x.len() as int;
    let b = a + 3 + y.len();
    let c = b + 3 + z.len();
    assert(t.len() == c);
    assert(t.subrange(0, a) =~= x);
    assert(t.subrange(a + 3, b) =~= y);
    assert(t.subrange(b + 3, c) =~= z);
}

/// The steps of a text that is laid out as `x p y q z`.
proof fn lemma_steps_of_chain(
    t: Seq<char>,
    x: Seq<char>,
    p: Operator,
    y: Seq<char>,
    q: Operator,
    z: Seq<char>,
)
    requires
        is_digits(x),
        is_digits(y),
        is_digits(z),
        is_chain(t, x, p, y, q, z),
    ensures
        steps(t) == seq![
            StepView::Combine { operator: Operator::Add, operand: x },
            StepView::Combine { operator: p, operand: y },
            StepView::Combine { operator: q, operand: z },
        ],
{
    let a = x.len() as int;
    let b = a + 3 + y.len();
    let c = b + 3 + z.len();
    lemma_step_numeral(t, 0, Operator::Add, x);
    lemma_step_operator(t, a, Operator::Add, p);
    lemma_step_numeral(t, a + 3, p, y);
    lemma_step_operator(t, b, p, q);
    lemma_step_numeral(t, b + 3, q, z);
    assert(steps_from(t, c, q, false) =~= Seq::<StepView>::empty());
    let first = StepView::Combine { operator: Operator::Add, operand: x };
    let second = StepView::Combine { operator: p, operand: y };
    let third = StepView::Combine { operator: q, operand: z };
    assert(seq![first] + (seq![second] + (seq![third] + Seq::<StepView>::empty())) =~= seq![
        first,
        second,
        third,
    ]);
}

/// An expression is read from left to right, without precedence: the steps
/// of `x p y q z` are to add `x`, to combine `y` by `p`, and to combine `z`
/// by `q`, in this order, whatever the operators `p` and `q` are. So the
/// steps of `2 + 3 * 4` are to add 2, to add 3 and to multiply by 4.
pub proof fn lemma_steps_left_to_right(
    x: Seq<char>,
    p: Operator,
    y: Seq<char>,
    q: Operator,
    z: Seq<char>,
)
    requires
        is_digits(x),
        is_digits(y),
        is_digits(z),
    ensures
        steps(chain_of(x, p, y, q, z)) == seq![
            StepView::Combine { operator: Operator::Add, operand: x },
            StepView::Combine { operator: p, operand: y },
            StepView::Combine { operator: q, operand: z },
        ],
{
    lemma_chain_shape(x, p, y, q, z);
    lemma_steps_of_chain(chain_of(x, p, y, q, z), x, p, y, q, z);
}

} // verus!
