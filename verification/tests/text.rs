use solitude::text::{
    char_is_digit,
    char_is_identifier,
    char_is_whitespace,
    equals,
    find_in,
    is_identifier_text,
    split_once,
    starts_with,
    to_chars,
    to_string,
    trim_slice,
    trimmed,
};

fn chars(s: &str) -> Vec<char> {
    s.chars().collect()
}

#[test]
fn white_space_is_that_of_the_standard_library() {
    for code in 0..=0x10ffff_u32 {
        if let Some(c) = char::from_u32(code) {
            assert_eq!(char_is_whitespace(c), c.is_whitespace());
        }
    }
}

#[test]
fn digits_are_the_ten_decimal_digits() {
    for code in 0..=0x10ffff_u32 {
        if let Some(c) = char::from_u32(code) {
            assert_eq!(char_is_digit(c), c.is_ascii_digit());
        }
    }
}

#[test]
fn identifier_characters() {
    assert!(char_is_identifier('a'));
    assert!(char_is_identifier('Z'));
    assert!(char_is_identifier('7'));
    assert!(char_is_identifier('_'));
    assert!(char_is_identifier('é'));
    assert!(!char_is_identifier('$'));
    assert!(!char_is_identifier(' '));
    assert!(!char_is_identifier('-'));
    assert!(!char_is_identifier('.'));
}

#[test]
fn identifier_characters_are_alphanumeric_or_underscore() {
    for code in 0..=0x10ffff_u32 {
        if let Some(c) = char::from_u32(code) {
            assert_eq!(char_is_identifier(c), c.is_alphanumeric() || c == '_');
        }
    }
}

#[test]
fn identifier_texts() {
    assert!(is_identifier_text("name"));
    assert!(is_identifier_text("a_b2"));
    assert!(is_identifier_text("_"));
    assert!(is_identifier_text("été٣"));
    assert!(is_identifier_text(""));
    assert!(!is_identifier_text("a b"));
    assert!(!is_identifier_text("a-b"));
    assert!(!is_identifier_text("$a"));
    assert!(!is_identifier_text("a→"));
}

#[test]
fn conversions_keep_every_character() {
    assert_eq!(to_chars("aé→😀"), vec!['a', 'é', '→', '😀']);
    assert_eq!(to_chars(""), Vec::<char>::new());
    let v = chars("hello, wörld");
    assert_eq!(to_string(&v, 0, v.len()), "hello, wörld");
    assert_eq!(to_string(&v, 7, 12), "wörld");
    assert_eq!(to_string(&v, 3, 3), "");
}

#[test]
fn trimming_takes_white_space_from_both_ends() {
    assert_eq!(trimmed("  a b \t\n"), chars("a b"));
    assert_eq!(trimmed("\u{a0}\u{3000}x\u{2003}"), chars("x"));
    assert_eq!(trimmed("x"), chars("x"));
    assert_eq!(trimmed("   "), chars(""));
    assert_eq!(trimmed(""), chars(""));
    for text in ["  a b \t\n", "\u{85}q\u{1680}", " \u{200b} ", "", "   ", "a", " a", "a "] {
        assert_eq!(trimmed(text), chars(text.trim()));
    }
}

#[test]
fn trimming_a_part() {
    let v = chars("ab  cd  ef");
    assert_eq!(trim_slice(&v, 2, 8), chars("cd"));
    assert_eq!(trim_slice(&v, 2, 4), chars(""));
    assert_eq!(trim_slice(&v, 0, 10), chars("ab  cd  ef"));
    assert_eq!(trim_slice(&v, 1, 7), chars("b  cd"));
    assert_eq!(trim_slice(&v, 5, 5), chars(""));
}

#[test]
fn prefix_and_equality() {
    let v = chars("var x");
    assert!(starts_with(&v, "var "));
    assert!(starts_with(&v, ""));
    assert!(starts_with(&v, "var x"));
    assert!(!starts_with(&v, "var x "));
    assert!(!starts_with(&v, "ar"));
    assert!(equals(&v, "var x"));
    assert!(!equals(&v, "var "));
    assert!(!equals(&v, "var xy"));
    assert!(equals(&chars(""), ""));
}

#[test]
fn finding_a_pattern() {
    let v = chars("a->b-->c");
    assert_eq!(find_in(&v, "->", 0), 1);
    assert_eq!(find_in(&v, "->", 2), 5);
    assert_eq!(find_in(&v, "->", 6), 8);
    assert_eq!(find_in(&v, "->", 20), 8);
    assert_eq!(find_in(&v, "=", 0), 8);
}

#[test]
fn splitting_once() {
    assert_eq!(split_once(&chars("x = 1"), "="), Some(2));
    assert_eq!(split_once(&chars("="), "="), Some(0));
    assert_eq!(split_once(&chars("x 1"), "="), None);
    assert_eq!(split_once(&chars("x == 1"), "="), None);
    assert_eq!(split_once(&chars("a = b = c"), "="), None);
    assert_eq!(split_once(&chars("name -> prompt"), "->"), Some(5));
    assert_eq!(split_once(&chars("a->b->c"), "->"), None);
    assert_eq!(split_once(&chars("a->"), "->"), Some(1));
}
