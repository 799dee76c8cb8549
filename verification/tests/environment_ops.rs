//! The scope store and function binding, exercised directly.

use arclang::environment::Environment;
use arclang::functions::Function;
use arclang::stmt::FunctionStmt;
use arclang::tokens::{Object, Token, TokenKind};

fn ident(name: &str) -> Token {
    Token::new(TokenKind::Identifier, name.to_string(), None, 1)
}

#[test]
fn define_then_get_returns_the_value() {
    let mut env = Environment::new();
    env.define(0, "x".to_string(), Object::Num(41));
    assert_eq!(env.get(0, &ident("x")).unwrap(), Object::Num(41));
    env.define(0, "x".to_string(), Object::Str("later".to_string()));
    assert_eq!(env.get(0, &ident("x")).unwrap(), Object::Str("later".to_string()));
}

#[test]
fn get_walks_the_enclosing_chain() {
    let mut env = Environment::new();
    env.define(0, "x".to_string(), Object::Num(1));
    let inner = env.new_with_enclosing(0);
    assert_eq!(env.get(inner, &ident("x")).unwrap(), Object::Num(1));
    env.define(inner, "x".to_string(), Object::Num(2));
    assert_eq!(env.get(inner, &ident("x")).unwrap(), Object::Num(2));
    assert_eq!(env.get(0, &ident("x")).unwrap(), Object::Num(1));
}

#[test]
fn get_of_an_unbound_name_is_an_error() {
    let env = Environment::new();
    assert!(env.get(0, &ident("missing")).is_err());
}

#[test]
fn assign_mutates_an_existing_binding_only() {
    let mut env = Environment::new();
    env.define(0, "x".to_string(), Object::Num(1));
    let inner = env.new_with_enclosing(0);
    assert!(env.assign(inner, &ident("x"), Object::Num(9)).is_ok());
    assert_eq!(env.get(0, &ident("x")).unwrap(), Object::Num(9));
    assert!(env.assign(inner, &ident("y"), Object::Num(3)).is_err());
    assert!(env.get(inner, &ident("y")).is_err());
}

#[test]
fn get_at_walks_exactly_the_given_distance() {
    let mut env = Environment::new();
    env.define(0, "x".to_string(), Object::Num(0));
    let one = env.new_with_enclosing(0);
    env.define(one, "x".to_string(), Object::Num(1));
    let two = env.new_with_enclosing(one);
    env.define(two, "x".to_string(), Object::Num(2));
    assert_eq!(env.get_at(two, 0, "x").unwrap(), Object::Num(2));
    assert_eq!(env.get_at(two, 1, "x").unwrap(), Object::Num(1));
    assert_eq!(env.get_at(two, 2, "x").unwrap(), Object::Num(0));
    assert!(env.get_at(two, 3, "x").is_none());
    assert!(env.get_at(two, 1, "y").is_none());
}

#[test]
fn assign_at_targets_one_scope() {
    let mut env = Environment::new();
    env.define(0, "x".to_string(), Object::Num(0));
    let one = env.new_with_enclosing(0);
    env.define(one, "x".to_string(), Object::Num(1));
    assert!(env.assign_at(one, 1, &ident("x"), Object::Num(7)).is_ok());
    assert_eq!(env.get_at(one, 0, "x").unwrap(), Object::Num(1));
    assert_eq!(env.get_at(one, 1, "x").unwrap(), Object::Num(7));
    assert!(env.assign_at(one, 0, &ident("missing"), Object::Nil).is_err());
}

#[test]
fn binding_this_twice_agrees_on_the_receiver() {
    let mut env = Environment::new();
    let decl = FunctionStmt { name: ident("m"), params: Vec::new(), body: Vec::new() };
    let f = Function::new(&decl, 0, false);
    let g1 = f.bind(Object::Instance(4), &mut env);
    let g2 = f.bind(Object::Instance(4), &mut env);
    assert_ne!(g1.closure, g2.closure);
    assert_eq!(env.get_at(g1.closure, 0, "this").unwrap(), Object::Instance(4));
    assert_eq!(env.get_at(g2.closure, 0, "this").unwrap(), Object::Instance(4));
}

#[test]
fn fresh_scopes_have_fresh_indices() {
    let mut env = Environment::new();
    let a = env.new_with_enclosing(0);
    let b = env.new_with_enclosing(0);
    let c = env.new_with_enclosing(a);
    assert_ne!(a, b);
    assert_ne!(b, c);
    assert_ne!(a, c);
}
