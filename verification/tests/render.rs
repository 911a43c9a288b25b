use fang::diag::{source_line, trim, WithCode};
use fang::text::decimal_text;
use fang::parser::ParsingError;
use fang::syntax::Loc;

fn error(msg: &str, row: usize, col: usize, offset: usize) -> ParsingError {
    ParsingError { msg: msg.to_string(), loc: Loc { row, col }, offset }
}

#[test]
fn renders_four_lines() {
    let code = "a = 1\nb = 2x\nc = 3\n";
    let e = error("invalid digit found in string", 1, 4, 10);
    let w = WithCode::new(code, &e);
    assert!(w.can_render());
    let expected = " --> 2:5\n 2 | b = 2x\n         ^\n         invalid digit found in string\n";
    assert_eq!(w.to_string(), expected);
}

#[test]
fn renders_with_a_wide_row_number() {
    let mut code = String::new();
    for _ in 0..11 {
        code.push_str("x\n");
    }
    code.push_str("   y = +  ");
    let offset = 22 + 7;
    let e = error("Unexpected token", 11, 7, offset);
    let w = WithCode::new(&code, &e);
    let expected = "  --> 12:8\n 12 | y = +\n             ^\n             Unexpected token\n";
    assert_eq!(w.to_string(), expected);
}

#[test]
fn renders_on_the_only_line() {
    let code = "  1x  ";
    let e = error("m", 0, 2, 2);
    let expected = " --> 1:3\n 1 | 1x\n       ^\n       m\n";
    assert_eq!(WithCode::new(code, &e).to_string(), expected);
}

#[test]
fn renders_at_the_end_of_the_text() {
    let code = "a\nbc";
    let e = error("Missing token", 1, 2, 4);
    let expected = " --> 2:3\n 2 | bc\n       ^\n       Missing token\n";
    assert_eq!(WithCode::new(code, &e).to_string(), expected);
    let past = error("Missing token", 1, 2, 5);
    assert!(!WithCode::new(code, &past).can_render());
}

#[test]
fn source_line_around_an_offset() {
    let code = "first\n  second \nthird";
    assert_eq!(source_line(code, 0), "first");
    assert_eq!(source_line(code, 5), "first");
    assert_eq!(source_line(code, 6), "second");
    assert_eq!(source_line(code, 14), "second");
    assert_eq!(source_line(code, 16), "third");
    assert_eq!(source_line(code, 21), "third");
    assert_eq!(source_line("é\n ü ", 4), "ü");
    assert_eq!(source_line("", 0), "");
}

#[test]
fn trim_drops_whitespace_at_both_ends() {
    assert_eq!(trim("  a b \t\n"), "a b");
    assert_eq!(trim("\u{a0}\u{2003}x\u{3000}"), "x");
    assert_eq!(trim("   "), "");
    assert_eq!(trim(""), "");
    assert_eq!(trim("x"), "x");
    for text in ["  a b \t\n", " \r\n", "é ", "\u{85}q\u{1680}", "\u{200b}z "] {
        assert_eq!(trim(text), text.trim());
    }
}

#[test]
fn decimal_notation() {
    assert_eq!(decimal_text(0), "0");
    assert_eq!(decimal_text(7), "7");
    assert_eq!(decimal_text(10), "10");
    assert_eq!(decimal_text(1234567890), "1234567890");
    assert_eq!(decimal_text(u64::MAX), u64::MAX.to_string());
}
