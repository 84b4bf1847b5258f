use solitude::error::Error;
use solitude::interpreter::Interpreter;

fn interpolate(interpreter: &Interpreter, text: &str) -> (String, Vec<Error>) {
    let mut s = String::from(text);
    let errors = interpreter.replace_variables(&mut s);
    (s, errors)
}

#[test]
fn declared_variable_is_interpolated() {
    let mut interpreter = Interpreter::new();
    interpreter.set_var("name", "value");
    assert_eq!(interpolate(&interpreter, "$name"), (String::from("value"), vec![]));
}

#[test]
fn deleted_variable_is_undefined() {
    let mut interpreter = Interpreter::new();
    interpreter.set_var("name", "value");
    assert_eq!(interpreter.delete_var("name"), Ok(()));
    assert_eq!(
        interpolate(&interpreter, "$name"),
        (String::new(), vec![Error::UndefinedVariable(String::from("name"))])
    );
}

#[test]
fn deleting_an_unknown_variable_is_an_error() {
    let mut interpreter = Interpreter::new();
    interpreter.set_var("kept", "1");
    assert_eq!(
        interpreter.delete_var("other"),
        Err(Error::UndefinedVariable(String::from("other")))
    );
    assert_eq!(interpreter.get_var("kept"), Some(String::from("1")));
}

#[test]
fn text_without_reference_is_unchanged() {
    let mut interpreter = Interpreter::new();
    interpreter.set_var("x", "1");
    assert_eq!(
        interpolate(&interpreter, "no reference here: x \\n 100%"),
        (String::from("no reference here: x \\n 100%"), vec![])
    );
    assert_eq!(interpolate(&interpreter, ""), (String::new(), vec![]));
}

#[test]
fn reference_ends_at_the_first_other_character() {
    let mut interpreter = Interpreter::new();
    interpreter.set_var("a", "1");
    interpreter.set_var("a_b2", "2");
    assert_eq!(interpolate(&interpreter, "<$a>"), (String::from("<1>"), vec![]));
    assert_eq!(interpolate(&interpreter, "$a-$a_b2."), (String::from("1-2."), vec![]));
    assert_eq!(interpolate(&interpreter, "x $a y"), (String::from("x 1 y"), vec![]));
}

#[test]
fn reference_begins_at_every_dollar() {
    let mut interpreter = Interpreter::new();
    interpreter.set_var("a", "1");
    interpreter.set_var("b", "2");
    interpreter.set_var("ab", "wrong");
    assert_eq!(interpolate(&interpreter, "$a$b"), (String::from("12"), vec![]));
}

#[test]
fn dollar_without_a_name_refers_to_the_empty_name() {
    let interpreter = Interpreter::new();
    assert_eq!(
        interpolate(&interpreter, "cost: $ 5"),
        (String::from("cost:  5"), vec![Error::UndefinedVariable(String::new())])
    );
    assert_eq!(
        interpolate(&interpreter, "$"),
        (String::new(), vec![Error::UndefinedVariable(String::new())])
    );
}

#[test]
fn undefined_references_are_reported_in_order() {
    let mut interpreter = Interpreter::new();
    interpreter.set_var("known", "k");
    assert_eq!(
        interpolate(&interpreter, "$one $known $two"),
        (
            String::from(" k "),
            vec![
                Error::UndefinedVariable(String::from("one")),
                Error::UndefinedVariable(String::from("two")),
            ]
        )
    );
}

#[test]
fn substituted_value_is_not_interpolated_again() {
    let mut interpreter = Interpreter::new();
    interpreter.set_var("a", "$b");
    interpreter.set_var("b", "deep");
    assert_eq!(interpolate(&interpreter, "$a"), (String::from("$b"), vec![]));
}

#[test]
fn names_take_letters_and_digits_of_any_script() {
    let mut interpreter = Interpreter::new();
    interpreter.set_var("été٣", "summer");
    assert_eq!(interpolate(&interpreter, "$été٣!"), (String::from("summer!"), vec![]));
    assert_eq!(
        interpolate(&interpreter, "$été٣→"),
        (String::from("summer→"), vec![])
    );
}

#[test]
fn set_var_replaces_an_earlier_value() {
    let mut interpreter = Interpreter::new();
    assert_eq!(interpreter.get_var("x"), None);
    interpreter.set_var("x", "1");
    interpreter.set_var("x", "2");
    assert_eq!(interpreter.get_var("x"), Some(String::from("2")));
}
