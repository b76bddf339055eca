use egbo::ast;
use egbo::parser::{reserved_words, to_digit, CharOrLineBreak, Parser};
use egbo::peg_parser::PegParserImpl;

fn at(src: &str) -> PegParserImpl {
    PegParserImpl::new(src)
}

#[test]
fn identifier_takes_the_whole_word() {
    let mut p = at("foo_1 bar");
    let r = Parser::new().identifier(&mut p).expect("identifier");
    assert_eq!(r.value, "foo_1");
    assert_eq!((r.range.start, r.range.end), (0, 5));
    assert_eq!(p.pos(), 5);
}

#[test]
fn identifier_refuses_reserved_words_but_not_longer_words() {
    let mut p = at("if (x)");
    assert!(Parser::new().identifier(&mut p).is_none());
    assert_eq!(p.pos(), 0);
    let mut p = at("iffy");
    assert_eq!(Parser::new().identifier(&mut p).expect("identifier").value, "iffy");
    let mut p = at("1abc");
    assert!(Parser::new().identifier(&mut p).is_none());
    let mut p = at("_x9");
    assert_eq!(Parser::new().identifier(&mut p).expect("identifier").value, "_x9");
}

#[test]
fn boolean_and_null_literals_need_a_word_boundary() {
    let parser = Parser::new();
    let mut p = at("true;");
    let r = parser.boolean_literal(&mut p).expect("true");
    assert!(matches!(r.value, ast::Expression::BooleanLiteral(true)));
    assert_eq!(p.pos(), 4);
    let mut p = at("false)");
    assert!(matches!(parser.boolean_literal(&mut p).expect("false").value, ast::Expression::BooleanLiteral(false)));
    let mut p = at("trueish");
    assert!(parser.boolean_literal(&mut p).is_none());
    assert_eq!(p.pos(), 0);
    let mut p = at("null");
    assert!(matches!(parser.null_literal(&mut p).expect("null").value, ast::Expression::NullLiteral));
    let mut p = at("nullable");
    assert!(parser.null_literal(&mut p).is_none());
}

fn int_of(src: &str) -> Option<(u64, ast::Radix, usize)> {
    let mut p = at(src);
    let r = Parser::new().int_literal(&mut p)?;
    match r.value {
        ast::Expression::IntLiteral(lit) => {
            assert!(lit.suffix.is_none());
            Some((lit.value, lit.radix, p.pos()))
        }
        _ => panic!("expected an int literal"),
    }
}

#[test]
fn int_literals_in_each_radix() {
    assert_eq!(int_of("0x1F"), Some((31, ast::Radix::Hex, 4)));
    assert_eq!(int_of("0o17"), Some((15, ast::Radix::Octal, 4)));
    assert_eq!(int_of("0b101"), Some((5, ast::Radix::Binary, 5)));
    assert_eq!(int_of("1_000;"), Some((1000, ast::Radix::Decimal, 5)));
    assert_eq!(int_of("0b102"), Some((2, ast::Radix::Binary, 4)));
    // A prefix without a digit falls back to the decimal zero before it.
    assert_eq!(int_of("0x"), Some((0, ast::Radix::Decimal, 1)));
    assert_eq!(int_of("x1"), None);
}

#[test]
fn int_literal_overflow_is_refused() {
    assert_eq!(int_of("18446744073709551615"), Some((u64::MAX, ast::Radix::Decimal, 20)));
    let mut p = at("18446744073709551616");
    assert!(Parser::new().int_literal(&mut p).is_none());
    assert_eq!(p.pos(), 0);
    // A hexadecimal literal too large for 64 bits is refused, and the decimal zero before
    // its prefix is what is left.
    assert_eq!(int_of("0x1_0000_0000_0000_0000"), Some((0, ast::Radix::Decimal, 1)));
}

fn string_of(src: &str) -> Option<(String, usize)> {
    let mut p = at(src);
    let r = Parser::new().string_literal(&mut p)?;
    match r.value {
        ast::Expression::StringLiteral(s) => Some((s, p.pos())),
        _ => panic!("expected a string literal"),
    }
}

#[test]
fn string_literal_escapes() {
    assert_eq!(string_of("'a\\nb'"), Some(("a\nb".to_string(), 6)));
    assert_eq!(string_of("\"q\\\"x\""), Some(("q\"x".to_string(), 6)));
    assert_eq!(string_of("'\\x41'"), Some(("A".to_string(), 6)));
    assert_eq!(string_of("'\\u0041'"), Some(("A".to_string(), 8)));
    assert_eq!(string_of("'\\u{1F600}'"), Some(("\u{1F600}".to_string(), 11)));
    assert_eq!(string_of("'a\\\nb'"), Some(("ab".to_string(), 6)));
    assert_eq!(string_of("'\\q'"), Some(("q".to_string(), 4)));
    assert_eq!(string_of("'\\0'"), Some(("\0".to_string(), 4)));
}

#[test]
fn string_literal_failures() {
    assert_eq!(string_of("'abc"), None);
    assert_eq!(string_of("abc'"), None);
    // A surrogate code is no character: `\u` then stands for `u`.
    assert_eq!(string_of("'\\uD800'"), Some(("uD800".to_string(), 8)));
    // More than six digits in braces is no escape either.
    assert_eq!(string_of("'\\u{0000041}'"), Some(("u{0000041}".to_string(), 13)));
    // A literal that is not closed leaves the cursor after the text it read.
    let mut p = at("'abc");
    assert!(Parser::new().string_literal(&mut p).is_none());
    assert_eq!(p.pos(), 4);
    let mut p = at("'ab\\");
    assert!(Parser::new().string_literal_for_delimiter(&mut p, '\'').is_none());
    assert_eq!(p.pos(), 3);
    // The member expression around it goes back to where it started.
    let mut p = at("'abc");
    assert!(Parser::new().member_expression(&mut p).is_none());
    assert_eq!(p.pos(), 0);
}

#[test]
fn positions_are_bytes() {
    let mut p = at("'é' x");
    let r = Parser::new().string_literal(&mut p).expect("string");
    assert_eq!((r.range.start, r.range.end), (0, 4));
    assert_eq!(p.pos(), 4);
}

#[test]
fn space_and_comments() {
    let parser = Parser::new();
    let src = "  // c\n /* x */ y";
    let mut p = at(src);
    assert!(parser.sp(&mut p).is_some());
    assert_eq!(p.pos(), src.find('y').unwrap());
    let mut p = at("/* open");
    assert!(parser.block_comment(&mut p).is_none());
    assert_eq!(p.pos(), 0);
    let mut p = at("// to the end\nnext");
    assert!(parser.line_comment(&mut p).is_some());
    assert_eq!(p.pos(), 13);
}

#[test]
fn statement_ends() {
    let parser = Parser::new();
    let mut p = at("  ;x");
    assert!(parser.statement_end(&mut p).is_some());
    assert_eq!(p.pos(), 3);
    let mut p = at(" \nx");
    assert!(parser.statement_end(&mut p).is_some());
    assert_eq!(p.pos(), 2);
    let mut p = at("  }");
    assert!(parser.statement_end(&mut p).is_some());
    assert_eq!(p.pos(), 2);
    let mut p = at("");
    assert!(parser.statement_end(&mut p).is_some());
    let mut p = at("  x");
    assert!(parser.statement_end(&mut p).is_none());
    assert_eq!(p.pos(), 0);
}

#[test]
fn break_and_continue_labels() {
    let parser = Parser::new();
    let mut p = at("break outer;");
    let r = parser.break_statement(&mut p).expect("break");
    match r.value {
        ast::Statement::BreakStatement(b) => assert_eq!(b.label.map(|l| l.value), Some("outer".to_string())),
        _ => panic!("expected a break statement"),
    }
    assert_eq!(p.pos(), 12);
    let mut p = at("continue;");
    match parser.continue_statement(&mut p).expect("continue").value {
        ast::Statement::ContinueStatement(c) => assert!(c.label.is_none()),
        _ => panic!("expected a continue statement"),
    }
    let mut p = at("break x y");
    assert!(parser.break_statement(&mut p).is_none());
    assert_eq!(p.pos(), 0);
}

#[test]
fn digits_and_reserved_words() {
    assert_eq!(to_digit('f', 16), Some(15));
    assert_eq!(to_digit('F', 16), Some(15));
    assert_eq!(to_digit('g', 16), None);
    assert_eq!(to_digit('9', 8), None);
    assert_eq!(reserved_words().len(), 17);
    assert!(reserved_words().contains(&"function"));
    assert_eq!(CharOrLineBreak::Char('a').to_char(), Some('a'));
    assert_eq!(CharOrLineBreak::LineBreak.to_char(), None);
}
