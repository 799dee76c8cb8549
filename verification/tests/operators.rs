//! The operator semantics, one case at a time.

use arclang::interpreter::{eval_binary, eval_unary, is_truthy};
use arclang::tokens::{Object, TokenKind};

fn n(x: i64) -> Object {
    Object::Num(x)
}

fn s(text: &str) -> Object {
    Object::Str(text.to_string())
}

#[test]
fn number_arithmetic() {
    assert_eq!(eval_binary(TokenKind::Plus, &n(2), &n(3)), n(5));
    assert_eq!(eval_binary(TokenKind::Minus, &n(2), &n(3)), n(-1));
    assert_eq!(eval_binary(TokenKind::Asterisk, &n(-4), &n(3)), n(-12));
    assert_eq!(eval_binary(TokenKind::Slash, &n(10), &n(3)), n(3));
    assert_eq!(eval_binary(TokenKind::Slash, &n(-10), &n(3)), n(-3));
    assert_eq!(eval_binary(TokenKind::Slash, &n(10), &n(-3)), n(-3));
    assert_eq!(eval_binary(TokenKind::Slash, &n(-10), &n(-3)), n(3));
}

#[test]
fn division_by_zero_yields_the_sentinel() {
    assert_eq!(eval_binary(TokenKind::Slash, &n(10), &n(0)), Object::ArithmeticError);
}

#[test]
fn overflow_yields_the_sentinel() {
    assert_eq!(eval_binary(TokenKind::Plus, &n(i64::MAX), &n(1)), Object::ArithmeticError);
    assert_eq!(eval_binary(TokenKind::Minus, &n(i64::MIN), &n(1)), Object::ArithmeticError);
    assert_eq!(
        eval_binary(TokenKind::Asterisk, &n(i64::MAX), &n(2)),
        Object::ArithmeticError
    );
    assert_eq!(eval_binary(TokenKind::Slash, &n(i64::MIN), &n(-1)), Object::ArithmeticError);
    assert_eq!(eval_binary(TokenKind::Slash, &n(i64::MIN), &n(1)), n(i64::MIN));
}

#[test]
fn number_comparisons() {
    assert_eq!(eval_binary(TokenKind::GreaterThan, &n(2), &n(1)), Object::Bool(true));
    assert_eq!(eval_binary(TokenKind::GreaterThanEqual, &n(2), &n(2)), Object::Bool(true));
    assert_eq!(eval_binary(TokenKind::LessThan, &n(2), &n(1)), Object::Bool(false));
    assert_eq!(eval_binary(TokenKind::LessThanEqual, &n(1), &n(2)), Object::Bool(true));
    assert_eq!(eval_binary(TokenKind::EqualEqual, &n(2), &n(2)), Object::Bool(true));
    assert_eq!(eval_binary(TokenKind::NotEqual, &n(2), &n(2)), Object::Bool(false));
}

#[test]
fn string_operations() {
    assert_eq!(eval_binary(TokenKind::Plus, &s("ab"), &s("cd")), s("abcd"));
    assert_eq!(eval_binary(TokenKind::EqualEqual, &s("ab"), &s("ab")), Object::Bool(true));
    assert_eq!(eval_binary(TokenKind::NotEqual, &s("ab"), &s("cd")), Object::Bool(true));
    assert_eq!(eval_binary(TokenKind::Minus, &s("ab"), &s("cd")), Object::ArithmeticError);
}

#[test]
fn mixed_string_and_number_concatenate() {
    assert_eq!(eval_binary(TokenKind::Plus, &s("n="), &n(-3)), s("n=-3"));
    assert_eq!(eval_binary(TokenKind::Plus, &n(12), &s("!")), s("12!"));
    assert_eq!(eval_binary(TokenKind::Asterisk, &s("x"), &n(2)), Object::ArithmeticError);
}

#[test]
fn boolean_equality_only() {
    assert_eq!(
        eval_binary(TokenKind::EqualEqual, &Object::Bool(true), &Object::Bool(true)),
        Object::Bool(true)
    );
    assert_eq!(
        eval_binary(TokenKind::NotEqual, &Object::Bool(true), &Object::Bool(false)),
        Object::Bool(true)
    );
    assert_eq!(
        eval_binary(TokenKind::Plus, &Object::Bool(true), &Object::Bool(false)),
        Object::ArithmeticError
    );
}

#[test]
fn nil_comparisons_respect_the_operator() {
    assert_eq!(eval_binary(TokenKind::EqualEqual, &Object::Nil, &Object::Nil), Object::Bool(true));
    assert_eq!(eval_binary(TokenKind::NotEqual, &Object::Nil, &Object::Nil), Object::Bool(false));
    assert_eq!(eval_binary(TokenKind::EqualEqual, &Object::Nil, &n(1)), Object::Bool(false));
    assert_eq!(eval_binary(TokenKind::NotEqual, &Object::Nil, &n(1)), Object::Bool(true));
}

#[test]
fn unary_minus_and_bang() {
    assert_eq!(eval_unary(TokenKind::Minus, &n(5)), n(-5));
    assert_eq!(eval_unary(TokenKind::Minus, &n(i64::MIN)), Object::ArithmeticError);
    assert_eq!(eval_unary(TokenKind::Minus, &s("x")), Object::Nil);
    assert_eq!(eval_unary(TokenKind::Bang, &Object::Nil), Object::Bool(true));
    assert_eq!(eval_unary(TokenKind::Bang, &n(0)), Object::Bool(false));
}

#[test]
fn truthiness_rule() {
    assert!(!is_truthy(&Object::Nil));
    assert!(!is_truthy(&Object::Bool(false)));
    assert!(is_truthy(&Object::Bool(true)));
    assert!(is_truthy(&n(0)));
    assert!(is_truthy(&s("")));
}
