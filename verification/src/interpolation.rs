//! The interpolation engine: text with each `$name` replaced by the value
//! of the variable `name`.
//!
//! One pass from left to right. A value that is put in is not read again,
//! so a `$` inside a value stays as it is.

use crate::error::{push_error, Error, ErrorView};
use crate::store::VariableStore;
use crate::syntax::VAR_GET;
use crate::text::{char_is_identifier, is_identifier, is_identifier_char, to_chars, to_string};
use vstd::prelude::*;

verus! {

/// The index just past the name that begins at `s[from]`: that of the first
/// character at or after `from` that may not stand in an identifier.
pub open spec fn name_end(s: Seq<char>, from: int) -> int
    decreases s.len() - from,
{
    if 0 <= from < s.len() && is_identifier_char(s[from]) {
        name_end(s, from + 1)
    } else {
        from
    }
}

/// The name of the reference that begins with the `$` at `s[at]`. It is
/// empty where no identifier character follows the `$`.
pub open spec fn reference_at(s: Seq<char>, at: int) -> Seq<char> {
    s.subrange(at + 1, name_end(s, at + 1))
}

/// What stands in place of a reference to `name`: its value, and nothing if
/// it has none.
pub open spec fn substitute(vars: Map<Seq<char>, Seq<char>>, name: Seq<char>) -> Seq<char> {
    if vars.contains_key(name) {
        vars[name]
    } else {
        Seq::empty()
    }
}

/// The interpolation of the text from `s[at]` on.
pub open spec fn interpolate_from(vars: Map<Seq<char>, Seq<char>>, s: Seq<char>, at: int) -> Seq<
    char,
>
    decreases s.len() - at,
    via interpolate_from_decreases
{
    if at < 0 || at >= s.len() {
        Seq::empty()
    } else if s[at] == VAR_GET {
        substitute(vars, reference_at(s, at)) + interpolate_from(vars, s, name_end(s, at + 1))
    } else {
        seq![s[at]] + interpolate_from(vars, s, at + 1)
    }
}

#[via_fn]
proof fn interpolate_from_decreases(vars: Map<Seq<char>, Seq<char>>, s: Seq<char>, at: int) {
    if 0 <= at < s.len() {
        lemma_name_end(s, at + 1);
    }
}

/// The errors of interpolating the text from `s[at]` on: one for each
/// reference to a variable without a value, in the order of the references.
pub open spec fn undefined_from(vars: Map<Seq<char>, Seq<char>>, s: Seq<char>, at: int) -> Seq<
    ErrorView,
>
    decreases s.len() - at,
    via undefined_from_decreases
{
    if at < 0 || at >= s.len() {
        Seq::empty()
    } else if s[at] == VAR_GET {
        let rest = undefined_from(vars, s, name_end(s, at + 1));
        if vars.contains_key(reference_at(s, at)) {
            rest
        } else {
            seq![ErrorView::UndefinedVariable(reference_at(s, at))] + rest
        }
    } else {
        undefined_from(vars, s, at + 1)
    }
}

#[via_fn]
proof fn undefined_from_decreases(vars: Map<Seq<char>, Seq<char>>, s: Seq<char>, at: int) {
    if 0 <= at < s.len() {
        lemma_name_end(s, at + 1);
    }
}

/// The text `s` with every reference replaced: a `$` begins a reference,
/// the identifier characters behind it are its name, and the first other
/// character, or the end of the text, ends it. Text outside references is
/// kept as it is.
pub open spec fn interpolate(vars: Map<Seq<char>, Seq<char>>, s: Seq<char>) -> Seq<char> {
    interpolate_from(vars, s, 0)
}

/// The errors of interpolating `s`.
pub open spec fn undefined(vars: Map<Seq<char>, Seq<char>>, s: Seq<char>) -> Seq<ErrorView> {
    undefined_from(vars, s, 0)
}

/// A name ends within the text, at or after its start, and holds identifier
/// characters only.
pub proof fn lemma_name_end(s: Seq<char>, from: int)
    requires
        0 <= from <= s.len(),
    ensures
        from <= name_end(s, from) <= s.len(),
        is_identifier(s.subrange(from, name_end(s, from))),
        name_end(s, from) < s.len() ==> !is_identifier_char(s[name_end(s, from)]),
    decreases s.len() - from,
{
    if from < s.len() && is_identifier_char(s[from]) {
        lemma_name_end(s, from + 1);
        let end = name_end(s, from);
        assert forall|i: int| 0 <= i < end - from implies is_identifier_char(
            #[trigger] s.subrange(from, end)[i],
        ) by {
            if i > 0 {
                assert(s.subrange(from, end)[i] == s.subrange(from + 1, end)[i - 1]);
            }
        }
    }
}

/// An identifier that reaches to the end of the text is a name in full.
pub proof fn lemma_name_end_identifier(s: Seq<char>, from: int)
    requires
        0 <= from <= s.len(),
        is_identifier(s.subrange(from, s.len() as int)),
    ensures
        name_end(s, from) == s.len(),
    decreases s.len() - from,
{
    if from < s.len() {
        assert(s.subrange(from, s.len() as int)[0] == s[from]);
        assert forall|i: int| 0 <= i < s.len() - from - 1 implies is_identifier_char(
            #[trigger] s.subrange(from + 1, s.len() as int)[i],
        ) by {
            assert(s.subrange(from + 1, s.len() as int)[i] == s.subrange(from, s.len() as int)[i
                + 1]);
        }
        lemma_name_end_identifier(s, from + 1);
    }
}

/// Text that holds no `$` is interpolated to itself, without an error, from
/// any place on.
pub proof fn lemma_interpolate_plain_from(vars: Map<Seq<char>, Seq<char>>, s: Seq<char>, at: int)
    requires
        0 <= at <= s.len(),
        forall|i: int| at <= i < s.len() ==> s[i] != VAR_GET,
    ensures
        interpolate_from(vars, s, at) == s.subrange(at, s.len() as int),
        undefined_from(vars, s, at) == Seq::<ErrorView>::empty(),
    decreases s.len() - at,
{
    if at < s.len() {
        lemma_interpolate_plain_from(vars, s, at + 1);
        assert(seq![s[at]] + s.subrange(at + 1, s.len() as int) =~= s.subrange(
            at,
            s.len() as int,
        ));
    } else {
        assert(s.subrange(at, s.len() as int) =~= Seq::<char>::empty());
    }
}

/// Interpolation leaves text without a `$` as it is, and reports nothing.
pub proof fn lemma_interpolate_plain(vars: Map<Seq<char>, Seq<char>>, s: Seq<char>)
    requires
        !s.contains(VAR_GET),
    ensures
        interpolate(vars, s) == s,
        undefined(vars, s) == Seq::<ErrorView>::empty(),
{
    lemma_interpolate_plain_from(vars, s, 0);
    assert(s.subrange(0, s.len() as int) =~= s);
}

/// A reference to an identifier, alone in a text, is interpolated to what
/// stands in place of that identifier: its value where it has one, and
/// nothing, with an error that names it, where it has none.
pub proof fn lemma_interpolate_reference(vars: Map<Seq<char>, Seq<char>>, name: Seq<char>)
    requires
        is_identifier(name),
    ensures
        interpolate(vars, seq![VAR_GET] + name) == substitute(vars, name),
        undefined(vars, seq![VAR_GET] + name) == if vars.contains_key(name) {
            Seq::<ErrorView>::empty()
        } else {
            seq![ErrorView::UndefinedVariable(name)]
        },
{
    let s = seq![VAR_GET] + name;
    assert(s.subrange(1, s.len() as int) =~= name);
    lemma_name_end_identifier(s, 1);
    assert(s[0] == VAR_GET);
    assert(reference_at(s, 0) == name);
    assert(interpolate_from(vars, s, s.len() as int) == Seq::<char>::empty());
    assert(undefined_from(vars, s, s.len() as int) == Seq::<ErrorView>::empty());
    assert(interpolate_from(vars, s, 0) == substitute(vars, name) + interpolate_from(
        vars,
        s,
        s.len() as int,
    ));
    assert(substitute(vars, name) + Seq::<char>::empty() =~= substitute(vars, name));
    assert(seq![ErrorView::UndefinedVariable(name)] + Seq::<ErrorView>::empty() =~= seq![
        ErrorView::UndefinedVariable(name),
    ]);
}

/// Appends the characters of `text` to `r`.
fn extend(r: &mut Vec<char>, text: &str)
    ensures
        final(r)@ == old(r)@ + text@,
{
    let v = to_chars(text);
    let mut i: usize = 0;
    assert(r@ =~= old(r)@ + v@.take(0));
    while i < v.len()
        invariant
            i <= v.len(),
            r@ == old(r)@ + v@.take(i as int),
        decreases v.len() - i,
    {
        r.push(v[i]);
        assert(old(r)@ + v@.take(i + 1) =~= (old(r)@ + v@.take(i as int)).push(v@[i as int]));
        i += 1;
    }
    assert(v@.take(v.len() as int) =~= v@);
}

/// Interpolates `v` from the store `vars`: returns the text with every
/// reference replaced, and appends to `log` an error for each reference to
/// a variable that the store lacks.
pub fn interpolate_chars(vars: &VariableStore, v: &Vec<char>, log: &mut Vec<Error>) -> (r: Vec<
    char,
>)
    ensures
        r@ == interpolate(vars@, v@),
        final(log).deep_view() == old(log).deep_view() + undefined(vars@, v@),
{
    let mut r: Vec<char> = Vec::new();
    let mut i: usize = 0;
    assert(r@ + interpolate_from(vars@, v@, 0) =~= interpolate(vars@, v@));
    assert(log.deep_view() + undefined_from(vars@, v@, 0) =~= old(log).deep_view() + undefined(
        vars@,
        v@,
    ));
    while i < v.len()
        invariant
            i <= v.len(),
            interpolate(vars@, v@) == r@ + interpolate_from(vars@, v@, i as int),
            old(log).deep_view() + undefined(vars@, v@) == log.deep_view() + undefined_from(
                vars@,
                v@,
                i as int,
            ),
        decreases v.len() - i,
    {
        let ghost text = r@;
        let ghost errors = log.deep_view();
        if v[i] == VAR_GET {
            let mut end: usize = i + 1;
            while end < v.len() && char_is_identifier(v[end])
                invariant
                    i + 1 <= end <= v.len(),
                    name_end(v@, i + 1) == name_end(v@, end as int),
                decreases v.len() - end,
            {
                end += 1;
            }
            let ghost rest = interpolate_from(vars@, v@, end as int);
            let ghost rest_errors = undefined_from(vars@, v@, end as int);
            let name = to_string(v, i + 1, end);
            match vars.get(name.as_str()) {
                Some(value) => {
                    extend(&mut r, value.as_str());
                    assert(text + (value@ + rest) =~= (text + value@) + rest);
                },
                None => {
                    let ghost error = ErrorView::UndefinedVariable(name@);
                    push_error(log, Error::UndefinedVariable(name));
                    assert(text + (Seq::<char>::empty() + rest) =~= text + rest);
                    assert(errors + (seq![error] + rest_errors) =~= errors.push(error)
                        + rest_errors);
                },
            }
            i = end;
        } else {
            let ghost rest = interpolate_from(vars@, v@, i + 1);
            r.push(v[i]);
            assert(text + (seq![v@[i as int]] + rest) =~= text.push(v@[i as int]) + rest);
            i += 1;
        }
    }
    assert(r@ + Seq::<char>::empty() =~= r@);
    assert(log.deep_view() + Seq::<ErrorView>::empty() =~= log.deep_view());
    r
}

} // verus!
