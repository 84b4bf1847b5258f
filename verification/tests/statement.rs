use solitude::statement::{classify_line, Statement};

fn text(s: &str) -> String {
    String::from(s)
}

#[test]
fn blank_and_comment_lines() {
    assert_eq!(classify_line(""), Statement::Blank);
    assert_eq!(classify_line("   \t"), Statement::Blank);
    assert_eq!(classify_line(". a remark"), Statement::Comment);
    assert_eq!(classify_line("  .remark"), Statement::Comment);
    assert_eq!(classify_line(".."), Statement::Comment);
    assert_eq!(classify_line("...."), Statement::Comment);
    assert_eq!(classify_line("... x"), Statement::Comment);
}

#[test]
fn comment_delimiter_is_the_whole_line() {
    assert_eq!(classify_line("..."), Statement::CommentBlock);
    assert_eq!(classify_line("  ...\t"), Statement::CommentBlock);
}

#[test]
fn structural_statements() {
    assert_eq!(classify_line("!!"), Statement::Concurrent);
    assert_eq!(classify_line(" !! start"), Statement::Concurrent);
    assert_eq!(classify_line("if $x >= 1"), Statement::If(text("$x >= 1")));
    assert_eq!(classify_line("func  greet"), Statement::Define(text(" greet")));
    assert_eq!(classify_line("func greet me"), Statement::Define(text("greet me")));
}

#[test]
fn content_statements() {
    assert_eq!(classify_line("var x = 1"), Statement::Declare(text("x = 1")));
    assert_eq!(classify_line("  var x=1  "), Statement::Declare(text("x=1")));
    assert_eq!(classify_line("-x"), Statement::Delete(text("x")));
    assert_eq!(classify_line("- x"), Statement::Delete(text(" x")));
    assert_eq!(classify_line("-"), Statement::Delete(text("")));
    assert_eq!(classify_line("call greet"), Statement::Call(text("greet")));
    assert_eq!(classify_line("input name -> Who? "), Statement::Input(text("name -> Who?")));
}

#[test]
fn any_other_line_is_output() {
    assert_eq!(classify_line("  Hello, $name\\n "), Statement::Output(text("Hello, $name\\n")));
    assert_eq!(classify_line("var"), Statement::Output(text("var")));
    assert_eq!(classify_line("variable"), Statement::Output(text("variable")));
    assert_eq!(classify_line("if"), Statement::Output(text("if")));
    assert_eq!(classify_line("fi"), Statement::Output(text("fi")));
    assert_eq!(classify_line("cnuf"), Statement::Output(text("cnuf")));
    assert_eq!(classify_line("??"), Statement::Output(text("??")));
    assert_eq!(classify_line("call"), Statement::Output(text("call")));
}
