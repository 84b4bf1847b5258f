use solitude::escape::decode;
use solitude::interpreter::Interpreter;

#[test]
fn decodes_each_known_sequence_in_order() {
    assert_eq!(decode("\\n\\t\\x41\\033"), "\n\tA\u{1b}");
}

#[test]
fn decodes_carriage_return() {
    assert_eq!(decode("a\\rb"), "a\rb");
}

#[test]
fn text_without_backslash_is_unchanged() {
    assert_eq!(decode("plain text, $x and 100%"), "plain text, $x and 100%");
    assert_eq!(decode(""), "");
}

#[test]
fn unknown_sequence_keeps_its_backslash() {
    assert_eq!(decode("a\\qb"), "a\\qb");
    assert_eq!(decode("\\$"), "\\$");
}

#[test]
fn doubled_backslash_is_read_one_at_a_time() {
    assert_eq!(decode("\\\\n"), "\\\n");
    assert_eq!(decode("\\\\"), "\\");
}

#[test]
fn backslash_at_the_end_is_dropped() {
    assert_eq!(decode("abc\\"), "abc");
}

#[test]
fn hex_sequence_takes_both_cases_of_digits() {
    assert_eq!(decode("\\x6a\\x6A\\x00\\x7f"), "jj\u{0}\u{7f}");
    assert_eq!(decode("\\xe9"), "\u{e9}");
    assert_eq!(decode("\\xff"), "\u{ff}");
}

#[test]
fn hex_sequence_without_two_digits_comes_out_as_it_stands() {
    assert_eq!(decode("\\xZZ!"), "\\xZZ!");
    assert_eq!(decode("a\\xzzb"), "a\\xzzb");
    assert_eq!(decode("a\\x4gb"), "a\\x4gb");
    assert_eq!(decode("a\\xg4b"), "a\\xg4b");
    assert_eq!(decode("a\\x+5b"), "a\\x+5b");
    assert_eq!(decode("a\\x4"), "a\\x4");
    assert_eq!(decode("a\\x"), "a\\x");
}

#[test]
fn what_follows_a_backslash_that_begins_no_sequence_is_decoded_in_its_turn() {
    assert_eq!(decode("\\x\\n"), "\\x\n");
    assert_eq!(decode("\\x4\\t"), "\\x4\t");
    assert_eq!(decode("\\0\\033"), "\\0\u{1b}");
    assert_eq!(decode("\\q\\x41"), "\\qA");
}

#[test]
fn hex_sequence_takes_two_characters_only() {
    assert_eq!(decode("\\x414"), "A4");
}

#[test]
fn partial_escape_character_sequence_comes_out_as_it_stands() {
    assert_eq!(decode("\\0a"), "\\0a");
    assert_eq!(decode("a\\0b"), "a\\0b");
    assert_eq!(decode("a\\03b"), "a\\03b");
    assert_eq!(decode("a\\0"), "a\\0");
    assert_eq!(decode("a\\03"), "a\\03");
    assert_eq!(decode("a\\034"), "a\\034");
    assert_eq!(decode("a\\0333"), "a\u{1b}3");
}

#[test]
fn decoded_text_is_not_read_again() {
    assert_eq!(decode("\\x5cn"), "\\n");
}

#[test]
fn process_escape_sequences_decodes_in_place() {
    let interpreter = Interpreter::new();
    let mut s = String::from("line\\n\\033[0m");
    interpreter.process_escape_sequences(&mut s);
    assert_eq!(s, "line\n\u{1b}[0m");
}
