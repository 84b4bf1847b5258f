use solitude::error::Error;
use solitude::expression::{Operator, Relation, Step};
use solitude::interpreter::{Action, Interpreter, Outcome};

fn lines(text: &[&str]) -> Vec<String> {
    text.iter().map(|l| String::from(*l)).collect()
}

fn quiet() -> Outcome {
    Outcome { action: Action::Proceed, errors: vec![] }
}

fn print(text: &str) -> Outcome {
    Outcome { action: Action::Print(String::from(text)), errors: vec![] }
}

fn combine(operator: Operator, operand: &str) -> Step {
    Step::Combine { operator, operand: String::from(operand) }
}

fn undefined_variable(name: &str) -> Error {
    Error::UndefinedVariable(String::from(name))
}

/// Runs a block as far as it needs no arithmetic, input or concurrency,
/// and returns what it writes and reports.
fn run(interpreter: &mut Interpreter, script: &[&str]) -> (String, Vec<Error>) {
    let script = lines(script);
    let mut written = String::new();
    let mut reported = vec![];
    let mut cursor = 0;
    while cursor < script.len() {
        let outcome = interpreter.process_line(&script, &mut cursor);
        reported.extend(outcome.errors);
        match outcome.action {
            Action::Proceed => {}
            Action::Print(text) => written.push_str(&text),
            other => panic!("unexpected action {:?}", other),
        }
        cursor += 1;
    }
    (written, reported)
}

#[test]
fn new_interpreter_is_empty() {
    let interpreter = Interpreter::new();
    assert_eq!(interpreter.get_var("x"), None);
    assert_eq!(
        interpreter.execute_function("f"),
        Outcome {
            action: Action::Proceed,
            errors: vec![Error::UndefinedFunction(String::from("f"))]
        }
    );
}

#[test]
fn declaration_then_reference_then_deletion() {
    let mut interpreter = Interpreter::new();
    let (written, reported) = run(
        &mut interpreter,
        &["var greeting = hello", "[$greeting]", "-greeting", "[$greeting]"],
    );
    assert_eq!(written, "[hello][]");
    assert_eq!(reported, vec![undefined_variable("greeting")]);
}

#[test]
fn declaration_interpolates_its_value() {
    let mut interpreter = Interpreter::new();
    interpreter.set_var("a", "1");
    assert_eq!(interpreter.process_var_declaration(" b =  <$a> and $c "), Outcome {
        action: Action::Proceed,
        errors: vec![undefined_variable("c")],
    });
    assert_eq!(interpreter.get_var("b"), Some(String::from("<1> and ")));
}

#[test]
fn declaration_with_arithmetic_is_left_to_the_caller() {
    let mut interpreter = Interpreter::new();
    interpreter.set_var("n", "3");
    assert_eq!(interpreter.process_var_declaration("x = 2 + $n * 4"), Outcome {
        action: Action::Assign {
            name: String::from("x"),
            steps: vec![
                combine(Operator::Add, "2"),
                combine(Operator::Add, "3"),
                combine(Operator::Multiply, "4"),
            ],
        },
        errors: vec![],
    });
    assert_eq!(interpreter.get_var("x"), None);
}

#[test]
fn declaration_of_a_negative_number_is_evaluated() {
    let mut interpreter = Interpreter::new();
    assert_eq!(interpreter.process_var_declaration("x = -5"), Outcome {
        action: Action::Assign {
            name: String::from("x"),
            steps: vec![combine(Operator::Add, "-5")],
        },
        errors: vec![],
    });
}

#[test]
fn declaration_without_one_separator_is_malformed() {
    let mut interpreter = Interpreter::new();
    let malformed = Outcome { action: Action::Proceed, errors: vec![Error::MalformedDeclaration] };
    assert_eq!(interpreter.process_var_declaration("x 5"), malformed);
    assert_eq!(interpreter.process_var_declaration("x = 5 = 6"), malformed);
    assert_eq!(interpreter.process_var_declaration("x == 5"), malformed);
    assert_eq!(interpreter.get_var("x"), None);
    let script = lines(&["var"]);
    let mut cursor = 0;
    assert_eq!(interpreter.process_line(&script, &mut cursor), Outcome {
        action: Action::Print(String::from("var")),
        errors: vec![],
    });
    let script = lines(&["var x y"]);
    let mut cursor = 0;
    assert_eq!(interpreter.process_line(&script, &mut cursor), malformed);
    assert_eq!(cursor, 0);
}

#[test]
fn declaration_may_have_an_empty_side() {
    let mut interpreter = Interpreter::new();
    assert_eq!(interpreter.process_var_declaration("x ="), quiet());
    assert_eq!(interpreter.get_var("x"), Some(String::new()));
    assert_eq!(interpreter.process_var_declaration("= v"), quiet());
    assert_eq!(interpreter.get_var(""), Some(String::from("v")));
}

#[test]
fn deleting_an_unknown_variable_is_reported() {
    let mut interpreter = Interpreter::new();
    let (written, reported) = run(&mut interpreter, &["-ghost", "after"]);
    assert_eq!(written, "after");
    assert_eq!(reported, vec![undefined_variable("ghost")]);
}

#[test]
fn output_is_trimmed_interpolated_and_decoded() {
    let mut interpreter = Interpreter::new();
    interpreter.set_var("who", "world\\t");
    let (written, reported) = run(&mut interpreter, &["   Hello, $who!\\n  "]);
    assert_eq!(written, "Hello, world\t!\n");
    assert_eq!(reported, vec![]);
}

#[test]
fn line_of_text_leaves_the_cursor_and_the_store() {
    let mut interpreter = Interpreter::new();
    interpreter.set_var("n", "Bob");
    let script = lines(&["  hi $n\\n  "]);
    let mut cursor = 0;
    assert_eq!(interpreter.process_line(&script, &mut cursor), print("hi Bob\n"));
    assert_eq!(cursor, 0);
    assert_eq!(interpreter.get_var("n"), Some(String::from("Bob")));
}

#[test]
fn deletion_leaves_the_cursor_and_the_other_variables() {
    let mut interpreter = Interpreter::new();
    interpreter.set_var("x", "1");
    interpreter.set_var("y", "2");
    let script = lines(&["-x"]);
    let mut cursor = 0;
    assert_eq!(interpreter.process_line(&script, &mut cursor), quiet());
    assert_eq!(cursor, 0);
    assert_eq!(interpreter.get_var("x"), None);
    assert_eq!(interpreter.get_var("y"), Some(String::from("2")));
}

#[test]
fn one_line_statements_leave_the_cursor() {
    let mut interpreter = Interpreter::new();
    let script = lines(&["", ". remark", "var x = 1", "call f", "input a", "-x", "text"]);
    for at in 0..script.len() {
        let mut cursor = at;
        interpreter.process_line(&script, &mut cursor);
        assert_eq!(cursor, at);
    }
}

#[test]
fn block_statements_leave_the_cursor_on_their_last_line() {
    let mut interpreter = Interpreter::new();
    let script = lines(&["...", "a", "...", "func f", "b", "cnuf", "if 1", "fi", "!!", "c"]);
    let mut cursor = 0;
    interpreter.process_line(&script, &mut cursor);
    assert_eq!(cursor, 2);
    let mut cursor = 3;
    interpreter.process_line(&script, &mut cursor);
    assert_eq!(cursor, 5);
    let mut cursor = 6;
    interpreter.process_line(&script, &mut cursor);
    assert_eq!(cursor, 7);
    let mut cursor = 8;
    interpreter.process_line(&script, &mut cursor);
    assert_eq!(cursor, 9);
    let last = lines(&["if 1"]);
    let mut cursor = 0;
    interpreter.process_line(&last, &mut cursor);
    assert_eq!(cursor, 0);
}

#[test]
fn blank_lines_and_comments_do_nothing() {
    let mut interpreter = Interpreter::new();
    let (written, reported) = run(
        &mut interpreter,
        &["", "  ", ". remark", "a", "...", "var x = 1", "b", " ... ", "c"],
    );
    assert_eq!(written, "ac");
    assert_eq!(reported, vec![]);
    assert_eq!(interpreter.get_var("x"), None);
}

#[test]
fn unterminated_comment_takes_the_rest() {
    let mut interpreter = Interpreter::new();
    let (written, _) = run(&mut interpreter, &["a", "...", "b", "c"]);
    assert_eq!(written, "a");
}

#[test]
fn conditional_block_yields_its_body_and_resumes_behind_it() {
    let mut interpreter = Interpreter::new();
    interpreter.set_var("x", "5");
    let script = lines(&["before", "if $x >= 5", "  inside", "var y = 1", "fi", "after"]);
    let mut cursor = 1;
    let outcome = interpreter.process_line(&script, &mut cursor);
    assert_eq!(cursor, 4);
    assert_eq!(outcome, Outcome {
        action: Action::Branch {
            steps: vec![
                combine(Operator::Add, "5"),
                Step::Compare { relation: Relation::AtLeast, operand: String::from("5") },
            ],
            body: lines(&["  inside", "var y = 1"]),
        },
        errors: vec![],
    });
    assert_eq!(outcome.action.clone().into_block(true), lines(&["  inside", "var y = 1"]));
    assert_eq!(outcome.action.into_block(false), lines(&[]));
    assert_eq!(interpreter.get_var("y"), None);
    let rest: Vec<&str> = script[cursor + 1..].iter().map(|l| l.as_str()).collect();
    let (written, _) = run(&mut interpreter, &rest);
    assert_eq!(written, "after");
}

#[test]
fn conditional_block_with_an_undefined_variable() {
    let mut interpreter = Interpreter::new();
    let script = lines(&["if $x", "a"]);
    let mut cursor = 0;
    let outcome = interpreter.process_line(&script, &mut cursor);
    assert_eq!(cursor, 1);
    assert_eq!(outcome, Outcome {
        action: Action::Branch { steps: vec![], body: lines(&["a"]) },
        errors: vec![undefined_variable("x")],
    });
}

#[test]
fn process_if_statement_plans_the_interpolated_condition() {
    let mut interpreter = Interpreter::new();
    interpreter.set_var("a", "2");
    let mut log = vec![Error::MalformedDeclaration];
    let steps = interpreter.process_if_statement("$a * $b 3", &mut log);
    assert_eq!(steps, vec![combine(Operator::Add, "2"), combine(Operator::Multiply, "3")]);
    assert_eq!(log, vec![Error::MalformedDeclaration, undefined_variable("b")]);
}

#[test]
fn evaluate_expression_plans_from_left_to_right() {
    let interpreter = Interpreter::new();
    assert_eq!(
        interpreter.evaluate_expression("2 + 3 * 4"),
        vec![
            combine(Operator::Add, "2"),
            combine(Operator::Add, "3"),
            combine(Operator::Multiply, "4"),
        ]
    );
}

#[test]
fn only_a_branch_has_a_block_to_run() {
    assert_eq!(Action::Proceed.into_block(true), lines(&[]));
    assert_eq!(Action::Spawn(lines(&["a"])).into_block(true), lines(&[]));
    assert_eq!(Action::Print(String::from("a")).into_block(true), lines(&[]));
}

#[test]
fn function_is_defined_and_called() {
    let mut interpreter = Interpreter::new();
    interpreter.set_var("n", "1");
    let (written, reported) = run(
        &mut interpreter,
        &["func show", "  n is $n\\n", "var n = 9", "cnuf", "call show", "var n = 2", "call show"],
    );
    assert_eq!(written, "  n is 1\\n".replace("\\n", "\n") + "var n = 9" + "  n is 2\n" + "var n = 9");
    assert_eq!(reported, vec![]);
    assert_eq!(interpreter.get_var("n"), Some(String::from("2")));
}

#[test]
fn function_defined_twice_keeps_the_second_body() {
    let mut interpreter = Interpreter::new();
    let (written, reported) = run(
        &mut interpreter,
        &["func f", "first", "more", "cnuf", "func f", "second", "cnuf", "call f"],
    );
    assert_eq!(written, "second");
    assert_eq!(reported, vec![]);
}

#[test]
fn calling_an_unknown_function_is_reported() {
    let mut interpreter = Interpreter::new();
    let (written, reported) = run(&mut interpreter, &["call nothing", "after"]);
    assert_eq!(written, "after");
    assert_eq!(reported, vec![Error::UndefinedFunction(String::from("nothing"))]);
}

#[test]
fn called_body_reports_its_undefined_variables() {
    let mut interpreter = Interpreter::new();
    let (written, reported) = run(
        &mut interpreter,
        &["func f", "a$x ", "b$y", "cnuf", "call f"],
    );
    assert_eq!(written, "a b");
    assert_eq!(reported, vec![undefined_variable("x"), undefined_variable("y")]);
}

#[test]
fn define_function_moves_the_cursor_past_the_body() {
    let mut interpreter = Interpreter::new();
    let script = lines(&["func f", "body", "cnuf", "next"]);
    let mut cursor = 0;
    assert_eq!(interpreter.define_function(&script, &mut cursor), Ok(()));
    assert_eq!(cursor, 3);
    assert_eq!(interpreter.execute_function("f"), print("body"));
    let mut cursor = 1;
    assert_eq!(
        interpreter.define_function(&script, &mut cursor),
        Err(Error::MalformedDeclaration)
    );
    assert_eq!(cursor, 1);
}

#[test]
fn copied_body_outlives_a_redefinition() {
    let mut interpreter = Interpreter::new();
    interpreter.funcs.define("f", lines(&["old"]));
    let copy = interpreter.funcs.get("f");
    interpreter.funcs.define("f", lines(&["new"]));
    assert_eq!(copy, Some(lines(&["old"])));
    assert_eq!(interpreter.funcs.get("f"), Some(lines(&["new"])));
    assert_eq!(interpreter.funcs.get("g"), None);
}

#[test]
fn concurrent_block_is_handed_over_whole() {
    let mut interpreter = Interpreter::new();
    let script = lines(&["!!", "var x = 1", "{", "a", "}", "??", "after"]);
    let mut cursor = 0;
    let outcome = interpreter.process_line(&script, &mut cursor);
    assert_eq!(cursor, 5);
    assert_eq!(outcome, Outcome {
        action: Action::Spawn(lines(&["var x = 1", "a"])),
        errors: vec![],
    });
    assert_eq!(interpreter.get_var("x"), None);
}

#[test]
fn concurrent_block_acts_on_the_same_store() {
    let mut interpreter = Interpreter::new();
    let script = lines(&["!!", "var x = 1", "??", "$x"]);
    let mut cursor = 0;
    let outcome = interpreter.process_line(&script, &mut cursor);
    let child = match outcome.action {
        Action::Spawn(child) => child,
        other => panic!("unexpected action {:?}", other),
    };
    let child: Vec<&str> = child.iter().map(|l| l.as_str()).collect();
    assert_eq!(run(&mut interpreter, &child), (String::new(), vec![]));
    let mut cursor = 3;
    assert_eq!(interpreter.process_line(&script, &mut cursor), print("1"));
}

#[test]
fn input_statement_with_a_prompt() {
    let mut interpreter = Interpreter::new();
    interpreter.set_var("who", "you");
    let script = lines(&["input name ->  Hello $who,\\nname? "]);
    let mut cursor = 0;
    assert_eq!(interpreter.process_line(&script, &mut cursor), Outcome {
        action: Action::Prompt {
            name: String::from("name"),
            message: String::from("Hello you,\nname?"),
        },
        errors: vec![],
    });
    assert_eq!(cursor, 0);
    assert_eq!(interpreter.get_var("name"), None);
}

#[test]
fn input_statement_without_one_separator_has_the_default_prompt() {
    let interpreter = Interpreter::new();
    assert_eq!(interpreter.input_variable(" age "), Outcome {
        action: Action::Prompt {
            name: String::from("age"),
            message: String::from("Enter value: "),
        },
        errors: vec![],
    });
    assert_eq!(interpreter.input_variable("age -> a -> b"), Outcome {
        action: Action::Prompt {
            name: String::from("age"),
            message: String::from("Enter value: "),
        },
        errors: vec![],
    });
}

#[test]
fn input_statement_reports_undefined_variables_of_its_prompt() {
    let interpreter = Interpreter::new();
    assert_eq!(interpreter.input_variable("x -> $y?"), Outcome {
        action: Action::Prompt { name: String::from("x"), message: String::from("?") },
        errors: vec![undefined_variable("y")],
    });
}

#[test]
fn accepted_input_is_stored_trimmed() {
    let mut interpreter = Interpreter::new();
    interpreter.accept_input("name", "  Ada Lovelace \r\n");
    assert_eq!(interpreter.get_var("name"), Some(String::from("Ada Lovelace")));
    interpreter.accept_input("name", "\n");
    assert_eq!(interpreter.get_var("name"), Some(String::new()));
}

#[test]
fn error_messages() {
    assert_eq!(
        Error::MalformedDeclaration.message(),
        "Error: Invalid variable declaration format."
    );
    assert_eq!(undefined_variable("x").message(), "Error: Undefined variable x");
    assert_eq!(
        Error::UndefinedFunction(String::from("f")).message(),
        "Error: Undefined function f"
    );
    assert_eq!(
        Error::UnreadableScript(String::from("a/b.sol")).message(),
        "Error: Could not open file a/b.sol"
    );
    assert_eq!(
        Error::ThreadJoinFailure(String::from("Any { .. }")).message(),
        "Error joining thread: Any { .. }"
    );
}

#[test]
fn plain_value_declared_under_a_plain_name_is_what_a_reference_yields() {
    for name in ["n", "total_2", "_", "X9"] {
        for value in ["v", "hello world", "a.b,c", "", "42"] {
            let mut interpreter = Interpreter::new();
            interpreter.set_var("other", "kept");
            let declaration = format!("{} = {}", name, value);
            assert_eq!(interpreter.process_var_declaration(&declaration), quiet());
            let mut s = format!("${}", name);
            assert_eq!(interpreter.replace_variables(&mut s), vec![]);
            assert_eq!(s, value);
            assert_eq!(interpreter.get_var(name), Some(String::from(value)));
            assert_eq!(interpreter.get_var("other"), Some(String::from("kept")));
        }
    }
}
