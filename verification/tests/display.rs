//! Rendering: values for `print`, numbers in decimal, and error
//! reports.

use arclang::ast_printer::AstPrinter;
use arclang::errors::Error;
use arclang::expr::{BinaryExpr, Expr, GroupingExpr, LiteralExpr, UnaryExpr};
use arclang::program::Program;
use arclang::interpreter::Interpreter;
use arclang::native_functions::NativeClock;
use arclang::numbers::{i64_to_string, u64_to_string, usize_to_string};
use arclang::tokens::{Object, Token, TokenKind};

#[test]
fn numbers_render_in_decimal() {
    assert_eq!(u64_to_string(0), "0");
    assert_eq!(u64_to_string(907), "907");
    assert_eq!(i64_to_string(-42), "-42");
    assert_eq!(i64_to_string(i64::MIN), "-9223372036854775808");
    assert_eq!(i64_to_string(i64::MAX), "9223372036854775807");
    assert_eq!(usize_to_string(31), "31");
}

#[test]
fn values_render_by_the_display_rule() {
    let terp = Interpreter::new();
    assert_eq!(terp.stringify(&Object::Num(8)), "8");
    assert_eq!(terp.stringify(&Object::Str("raw".to_string())), "raw");
    assert_eq!(terp.stringify(&Object::Bool(true)), "true");
    assert_eq!(terp.stringify(&Object::Bool(false)), "false");
    assert_eq!(terp.stringify(&Object::Nil), "nil");
    assert_eq!(terp.stringify(&Object::Native), "<native>");
    assert_eq!(terp.stringify(&Object::ArithmeticError), "Arithmetic Error");
}

#[test]
fn runtime_error_report_names_token_and_line() {
    let token = Token::new(TokenKind::Identifier, "x".to_string(), None, 3);
    let err = Error::runtime_error(&token, "No such thing.");
    assert_eq!(err.render(), "[line 3] Error at 'x': No such thing.");
}

#[test]
fn error_at_end_of_input_says_so() {
    let token = Token::new(TokenKind::EOF, "".to_string(), None, 9);
    let err = Error::parse_error(&token, "Expected expression.");
    assert_eq!(err.render(), "[line 9] Error at end: Expected expression.");
}

#[test]
fn lexer_and_system_errors_render() {
    let err = Error::lexer_error("@", 2, "Unexpected character.");
    assert_eq!(err.render(), "[line 2] Error @: Unexpected character.");
    let err = Error::system_error("Failed to get time.");
    assert_eq!(err.render(), "System Error: Failed to get time.");
}

#[test]
fn native_clock_surface() {
    let clock = NativeClock {};
    assert_eq!(clock.arity(), 0);
    assert_eq!(clock.stringify(), "Native::Clock");
    match clock.call() {
        Ok(v) => assert!(matches!(v, Object::Num(_))),
        Err(e) => assert!(matches!(e, Error::SystemError { .. })),
    }
}

#[test]
fn ast_printer_renders_prefix_notation() {
    let mut p = Program::new();
    p.exprs.push(Expr::Literal(LiteralExpr { value: Some(Object::Num(123)) }));
    p.exprs.push(Expr::Literal(LiteralExpr { value: Some(Object::Num(-2)) }));
    p.exprs.push(Expr::Unary(UnaryExpr {
        operator: Token::new(TokenKind::Minus, "-".to_string(), None, 1),
        right: 1,
    }));
    p.exprs.push(Expr::Grouping(GroupingExpr { expression: 2 }));
    p.exprs.push(Expr::Binary(BinaryExpr {
        left: 0,
        operator: Token::new(TokenKind::Asterisk, "*".to_string(), None, 1),
        right: 3,
    }));
    assert!(p.well_formed());
    let printer = AstPrinter;
    assert_eq!(printer.print(&p, 4), "(* 123 (group (- -2)))");
    assert_eq!(printer.parenthesize(&p, "list", &vec![0, 1]), "(list 123 -2)");
}

#[test]
fn default_token_is_illegal_and_empty() {
    let t = Token::default();
    assert_eq!(t.kind, TokenKind::Illegal);
    assert_eq!(t.lexeme, "");
    assert!(t.literal.is_none());
    assert_eq!(t.line, 0);
}
