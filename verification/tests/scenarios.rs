//! End-to-end runs: programs built as node arenas, resolved, and
//! interpreted, with the printed lines checked exactly.

use arclang::expr::{
    AssignExpr, BinaryExpr, CallExpr, Expr, GetExpr, LiteralExpr, SetExpr, SuperExpr, ThisExpr,
    VariableExpr,
};
use arclang::interpreter::Interpreter;
use arclang::program::Program;
use arclang::resolver::Resolver;
use arclang::stmt::{
    BlockStmt, ClassStmt, ExpressionStmt, FunctionStmt, IfStmt, PrintStmt, ReturnStmt, Stmt,
    VarStmt, WhileStmt,
};
use arclang::tokens::{Object, Token, TokenKind};
use arclang::errors::Error;

fn ident(name: &str) -> Token {
    Token::new(TokenKind::Identifier, name.to_string(), None, 1)
}

fn op(kind: TokenKind, lexeme: &str) -> Token {
    Token::new(kind, lexeme.to_string(), None, 1)
}

fn push_expr(p: &mut Program, e: Expr) -> usize {
    p.exprs.push(e);
    p.exprs.len() - 1
}

fn push_stmt(p: &mut Program, s: Stmt) -> usize {
    p.stmts.push(s);
    p.stmts.len() - 1
}

fn num(p: &mut Program, v: i64) -> usize {
    push_expr(p, Expr::Literal(LiteralExpr { value: Some(Object::Num(v)) }))
}

fn nil(p: &mut Program) -> usize {
    push_expr(p, Expr::Literal(LiteralExpr { value: Some(Object::Nil) }))
}

fn var_ref(p: &mut Program, name: &str) -> usize {
    push_expr(p, Expr::Variable(VariableExpr { name: ident(name) }))
}

fn binary(p: &mut Program, left: usize, kind: TokenKind, lexeme: &str, right: usize) -> usize {
    push_expr(p, Expr::Binary(BinaryExpr { left, operator: op(kind, lexeme), right }))
}

fn call(p: &mut Program, callee: usize, arguments: Vec<usize>) -> usize {
    push_expr(
        p,
        Expr::Call(CallExpr { callee, paren: op(TokenKind::RightParen, ")"), arguments }),
    )
}

fn assign(p: &mut Program, name: &str, value: usize) -> usize {
    push_expr(p, Expr::Assign(AssignExpr { name: ident(name), value }))
}

fn print_stmt(p: &mut Program, expression: usize) -> usize {
    push_stmt(p, Stmt::Print(PrintStmt { expression }))
}

fn expr_stmt(p: &mut Program, expression: usize) -> usize {
    push_stmt(p, Stmt::Expression(ExpressionStmt { expression }))
}

fn var_stmt(p: &mut Program, name: &str, initializer: Option<usize>) -> usize {
    push_stmt(p, Stmt::Var(VarStmt { name: ident(name), initializer }))
}

fn block(p: &mut Program, statements: Vec<usize>) -> usize {
    push_stmt(p, Stmt::Block(BlockStmt { statements }))
}

fn function(p: &mut Program, name: &str, params: Vec<&str>, body: Vec<usize>) -> usize {
    let params = params.into_iter().map(ident).collect();
    push_stmt(p, Stmt::Function(FunctionStmt { name: ident(name), params, body }))
}

/// Resolves and interprets; returns the success flag, the printed
/// lines, and the interpreter for further inspection.
fn run(p: &Program, tops: Vec<usize>) -> (bool, Vec<String>, Interpreter) {
    assert!(p.well_formed());
    let mut res = Resolver::new();
    res.resolve(p, &tops);
    assert!(res.success(), "resolution failed: {:?}", res.errors.len());
    let mut terp = Interpreter::new();
    for i in 0..res.locals.len() {
        let (eid, d) = res.locals[i];
        terp.resolve(eid, d);
    }
    let ok = terp.interpret(p, &tops);
    let out = terp.output.clone();
    (ok, out, terp)
}

fn lines(out: &[String]) -> Vec<&str> {
    out.iter().map(|s| s.as_str()).collect()
}

#[test]
fn shadowed_initializer_reads_outer_binding() {
    // { var a = 1; { var a = a + 1; print a; } print a; }
    let p = &mut Program::new();
    let e0 = num(p, 1);
    let e1 = var_ref(p, "a");
    let e2 = num(p, 1);
    let e3 = binary(p, e1, TokenKind::Plus, "+", e2);
    let e4 = var_ref(p, "a");
    let e5 = var_ref(p, "a");
    let s0 = var_stmt(p, "a", Some(e0));
    let s1 = var_stmt(p, "a", Some(e3));
    let s2 = print_stmt(p, e4);
    let s3 = block(p, vec![s1, s2]);
    let s4 = print_stmt(p, e5);
    let s5 = block(p, vec![s0, s3, s4]);
    let (ok, out, _) = run(p, vec![s5]);
    assert!(ok);
    assert_eq!(lines(&out), vec!["2", "1"]);
}

#[test]
fn counter_closure_shares_captured_environment() {
    // fn makeCounter() { var i = 0; fn count() { i = i + 1; print i; }
    // return count; } var c = makeCounter(); c(); c();
    let p = &mut Program::new();
    let e0 = var_ref(p, "i");
    let e1 = num(p, 1);
    let e2 = binary(p, e0, TokenKind::Plus, "+", e1);
    let e3 = assign(p, "i", e2);
    let e4 = var_ref(p, "i");
    let s0 = expr_stmt(p, e3);
    let s1 = print_stmt(p, e4);
    let s2 = function(p, "count", vec![], vec![s0, s1]);
    let e5 = num(p, 0);
    let s3 = var_stmt(p, "i", Some(e5));
    let e6 = var_ref(p, "count");
    let s4 = push_stmt(
        p,
        Stmt::Return(ReturnStmt { keyword: op(TokenKind::Return, "return"), value: Some(e6) }),
    );
    let s5 = function(p, "makeCounter", vec![], vec![s3, s2, s4]);
    let e7 = var_ref(p, "makeCounter");
    let e8 = call(p, e7, vec![]);
    let s6 = var_stmt(p, "c", Some(e8));
    let e9 = var_ref(p, "c");
    let e10 = call(p, e9, vec![]);
    let s7 = expr_stmt(p, e10);
    let e11 = var_ref(p, "c");
    let e12 = call(p, e11, vec![]);
    let s8 = expr_stmt(p, e12);
    let (ok, out, _) = run(p, vec![s5, s6, s7, s8]);
    assert!(ok);
    assert_eq!(lines(&out), vec!["1", "2"]);
}

#[test]
fn super_method_binds_subclass_instance() {
    // class A { m() { print this.x; } }
    // class B < A { m() { super.m(); } }
    // var b = B(); b.x = 7; b.m();
    let p = &mut Program::new();
    let e0 = push_expr(p, Expr::This(ThisExpr { keyword: op(TokenKind::This, "this") }));
    let e1 = push_expr(p, Expr::Get(GetExpr { object: e0, name: ident("x") }));
    let s0 = print_stmt(p, e1);
    let s1 = function(p, "m", vec![], vec![s0]);
    let s2 = push_stmt(
        p,
        Stmt::Class(ClassStmt { name: ident("A"), superclass: None, methods: vec![s1] }),
    );
    let e2 = push_expr(
        p,
        Expr::Super(SuperExpr { keyword: op(TokenKind::Super, "super"), method: ident("m") }),
    );
    let e3 = call(p, e2, vec![]);
    let s3 = expr_stmt(p, e3);
    let s4 = function(p, "m", vec![], vec![s3]);
    let e4 = var_ref(p, "A");
    let s5 = push_stmt(
        p,
        Stmt::Class(ClassStmt { name: ident("B"), superclass: Some(e4), methods: vec![s4] }),
    );
    let e5 = var_ref(p, "B");
    let e6 = call(p, e5, vec![]);
    let s6 = var_stmt(p, "b", Some(e6));
    let e7 = var_ref(p, "b");
    let e8 = num(p, 7);
    let e9 = push_expr(p, Expr::SetField(SetExpr { object: e7, name: ident("x"), value: e8 }));
    let s7 = expr_stmt(p, e9);
    let e10 = var_ref(p, "b");
    let e11 = push_expr(p, Expr::Get(GetExpr { object: e10, name: ident("m") }));
    let e12 = call(p, e11, vec![]);
    let s8 = expr_stmt(p, e12);
    let (ok, out, _) = run(p, vec![s2, s5, s6, s7, s8]);
    assert!(ok);
    assert_eq!(lines(&out), vec!["7"]);
}

#[test]
fn initializer_sets_field_and_returns_this() {
    // class Foo { init(x) { this.x = x; } }
    // var f = Foo(1); print f.x; print f.init(2); print f.x;
    let p = &mut Program::new();
    let e0 = push_expr(p, Expr::This(ThisExpr { keyword: op(TokenKind::This, "this") }));
    let e1 = var_ref(p, "x");
    let e2 = push_expr(p, Expr::SetField(SetExpr { object: e0, name: ident("x"), value: e1 }));
    let s0 = expr_stmt(p, e2);
    let s1 = function(p, "init", vec!["x"], vec![s0]);
    let s2 = push_stmt(
        p,
        Stmt::Class(ClassStmt { name: ident("Foo"), superclass: None, methods: vec![s1] }),
    );
    let e3 = var_ref(p, "Foo");
    let e4 = num(p, 1);
    let e5 = call(p, e3, vec![e4]);
    let s3 = var_stmt(p, "f", Some(e5));
    let e6 = var_ref(p, "f");
    let e7 = push_expr(p, Expr::Get(GetExpr { object: e6, name: ident("x") }));
    let s4 = print_stmt(p, e7);
    let e8 = var_ref(p, "f");
    let e9 = push_expr(p, Expr::Get(GetExpr { object: e8, name: ident("init") }));
    let e10 = num(p, 2);
    let e11 = call(p, e9, vec![e10]);
    let s5 = print_stmt(p, e11);
    let e12 = var_ref(p, "f");
    let e13 = push_expr(p, Expr::Get(GetExpr { object: e12, name: ident("x") }));
    let s6 = print_stmt(p, e13);
    let (ok, out, _) = run(p, vec![s2, s3, s4, s5, s6]);
    assert!(ok);
    assert_eq!(lines(&out), vec!["1", "<instance Foo>", "2"]);
}

#[test]
fn self_referential_initializer_without_outer_binding_is_reported() {
    // { var a = a; } with no outer a: a resolver error, not a crash.
    let p = &mut Program::new();
    let e0 = var_ref(p, "a");
    let s0 = var_stmt(p, "a", Some(e0));
    let s1 = block(p, vec![s0]);
    assert!(p.well_formed());
    let mut res = Resolver::new();
    res.resolve(p, &vec![s1]);
    assert!(!res.success());
    assert!(matches!(res.errors[0], Error::RuntimeError { .. }));
}

#[test]
fn loop_iterations_capture_distinct_bindings() {
    // var i = 0; var f1 = nil; var f2 = nil;
    // while (i < 2) { var x = i; fn g() { print x; }
    //                 if (i == 0) { f1 = g; } else { f2 = g; } i = i + 1; }
    // f1(); f2();
    let p = &mut Program::new();
    let e0 = num(p, 0);
    let e1 = nil(p);
    let e2 = nil(p);
    let e3 = var_ref(p, "i");
    let e4 = num(p, 2);
    let e5 = binary(p, e3, TokenKind::LessThan, "<", e4);
    let e6 = var_ref(p, "i");
    let e7 = var_ref(p, "x");
    let s0 = print_stmt(p, e7);
    let s1 = function(p, "g", vec![], vec![s0]);
    let e8 = var_ref(p, "i");
    let e9 = num(p, 0);
    let e10 = binary(p, e8, TokenKind::EqualEqual, "==", e9);
    let e11 = var_ref(p, "g");
    let e12 = assign(p, "f1", e11);
    let s2 = expr_stmt(p, e12);
    let e13 = var_ref(p, "g");
    let e14 = assign(p, "f2", e13);
    let s3 = expr_stmt(p, e14);
    let s4 = push_stmt(
        p,
        Stmt::If(IfStmt { condition: e10, then_branch: s2, else_branch: Some(s3) }),
    );
    let e15 = var_ref(p, "i");
    let e16 = num(p, 1);
    let e17 = binary(p, e15, TokenKind::Plus, "+", e16);
    let e18 = assign(p, "i", e17);
    let s5 = expr_stmt(p, e18);
    let s6 = var_stmt(p, "x", Some(e6));
    let s7 = block(p, vec![s6, s1, s4, s5]);
    let s8 = push_stmt(p, Stmt::While(WhileStmt { condition: e5, body: s7 }));
    let s9 = var_stmt(p, "i", Some(e0));
    let s10 = var_stmt(p, "f1", Some(e1));
    let s11 = var_stmt(p, "f2", Some(e2));
    let e19 = var_ref(p, "f1");
    let e20 = call(p, e19, vec![]);
    let s12 = expr_stmt(p, e20);
    let e21 = var_ref(p, "f2");
    let e22 = call(p, e21, vec![]);
    let s13 = expr_stmt(p, e22);
    let (ok, out, _) = run(p, vec![s9, s10, s11, s8, s12, s13]);
    assert!(ok);
    assert_eq!(lines(&out), vec!["0", "1"]);
}

#[test]
fn division_by_zero_is_a_runtime_error() {
    // print 10 / 0;
    let p = &mut Program::new();
    let e0 = num(p, 10);
    let e1 = num(p, 0);
    let e2 = binary(p, e0, TokenKind::Slash, "/", e1);
    let s0 = print_stmt(p, e2);
    let (ok, out, terp) = run(p, vec![s0]);
    assert!(!ok);
    assert!(out.is_empty());
    assert_eq!(terp.errors.len(), 1);
    assert!(matches!(terp.errors[0], Error::RuntimeError { .. }));
}

#[test]
fn while_loop_accumulates() {
    // var s = 0; var i = 0; while (i < 5) { s = s + i; i = i + 1; } print s;
    let p = &mut Program::new();
    let e0 = num(p, 0);
    let e1 = num(p, 0);
    let e2 = var_ref(p, "i");
    let e3 = num(p, 5);
    let e4 = binary(p, e2, TokenKind::LessThan, "<", e3);
    let e5 = var_ref(p, "s");
    let e6 = var_ref(p, "i");
    let e7 = binary(p, e5, TokenKind::Plus, "+", e6);
    let e8 = assign(p, "s", e7);
    let s0 = expr_stmt(p, e8);
    let e9 = var_ref(p, "i");
    let e10 = num(p, 1);
    let e11 = binary(p, e9, TokenKind::Plus, "+", e10);
    let e12 = assign(p, "i", e11);
    let s1 = expr_stmt(p, e12);
    let s2 = block(p, vec![s0, s1]);
    let s3 = push_stmt(p, Stmt::While(WhileStmt { condition: e4, body: s2 }));
    let s4 = var_stmt(p, "s", Some(e0));
    let s5 = var_stmt(p, "i", Some(e1));
    let e13 = var_ref(p, "s");
    let s6 = print_stmt(p, e13);
    let (ok, out, _) = run(p, vec![s4, s5, s3, s6]);
    assert!(ok);
    assert_eq!(lines(&out), vec!["10"]);
}

#[test]
fn function_without_return_yields_nil() {
    // fn f() {} print f();
    let p = &mut Program::new();
    let s0 = function(p, "f", vec![], vec![]);
    let e0 = var_ref(p, "f");
    let e1 = call(p, e0, vec![]);
    let s1 = print_stmt(p, e1);
    let (ok, out, _) = run(p, vec![s0, s1]);
    assert!(ok);
    assert_eq!(lines(&out), vec!["nil"]);
}

#[test]
fn return_carries_its_value() {
    // fn f() { return 7; } print f();
    let p = &mut Program::new();
    let e0 = num(p, 7);
    let s0 = push_stmt(
        p,
        Stmt::Return(ReturnStmt { keyword: op(TokenKind::Return, "return"), value: Some(e0) }),
    );
    let s1 = function(p, "f", vec![], vec![s0]);
    let e1 = var_ref(p, "f");
    let e2 = call(p, e1, vec![]);
    let s2 = print_stmt(p, e2);
    let (ok, out, _) = run(p, vec![s1, s2]);
    assert!(ok);
    assert_eq!(lines(&out), vec!["7"]);
}

#[test]
fn wrong_arity_is_a_runtime_error() {
    // fn f(x) {} f();
    let p = &mut Program::new();
    let s0 = function(p, "f", vec!["x"], vec![]);
    let e0 = var_ref(p, "f");
    let e1 = call(p, e0, vec![]);
    let s1 = expr_stmt(p, e1);
    let (ok, _, terp) = run(p, vec![s0, s1]);
    assert!(!ok);
    assert!(matches!(terp.errors[0], Error::RuntimeError { .. }));
}

#[test]
fn calling_a_number_is_a_runtime_error() {
    // 1();
    let p = &mut Program::new();
    let e0 = num(p, 1);
    let e1 = call(p, e0, vec![]);
    let s0 = expr_stmt(p, e1);
    let (ok, _, terp) = run(p, vec![s0]);
    assert!(!ok);
    assert!(matches!(terp.errors[0], Error::RuntimeError { .. }));
}

#[test]
fn undefined_variable_is_a_runtime_error() {
    // print zz;
    let p = &mut Program::new();
    let e0 = var_ref(p, "zz");
    let s0 = print_stmt(p, e0);
    let (ok, _, terp) = run(p, vec![s0]);
    assert!(!ok);
    assert!(matches!(terp.errors[0], Error::RuntimeError { .. }));
}

#[test]
fn return_at_top_level_is_a_resolver_error() {
    // return 1;
    let p = &mut Program::new();
    let e0 = num(p, 1);
    let s0 = push_stmt(
        p,
        Stmt::Return(ReturnStmt { keyword: op(TokenKind::Return, "return"), value: Some(e0) }),
    );
    assert!(p.well_formed());
    let mut res = Resolver::new();
    res.resolve(p, &vec![s0]);
    assert!(!res.success());
}

#[test]
fn duplicate_declaration_in_one_scope_is_reported() {
    // { var a = 1; var a = 2; }
    let p = &mut Program::new();
    let e0 = num(p, 1);
    let e1 = num(p, 2);
    let s0 = var_stmt(p, "a", Some(e0));
    let s1 = var_stmt(p, "a", Some(e1));
    let s2 = block(p, vec![s0, s1]);
    assert!(p.well_formed());
    let mut res = Resolver::new();
    res.resolve(p, &vec![s2]);
    assert!(!res.success());
}

#[test]
fn logical_operators_short_circuit() {
    // print 1 and 2; print nil or "x"; print false and 1;
    let p = &mut Program::new();
    let e0 = num(p, 1);
    let e1 = num(p, 2);
    let e2 = push_expr(
        p,
        Expr::Logical(arclang::expr::LogicalExpr {
            left: e0,
            operator: op(TokenKind::And, "and"),
            right: e1,
        }),
    );
    let s0 = print_stmt(p, e2);
    let e3 = nil(p);
    let e4 = push_expr(
        p,
        Expr::Literal(LiteralExpr { value: Some(Object::Str("x".to_string())) }),
    );
    let e5 = push_expr(
        p,
        Expr::Logical(arclang::expr::LogicalExpr {
            left: e3,
            operator: op(TokenKind::Or, "or"),
            right: e4,
        }),
    );
    let s1 = print_stmt(p, e5);
    let e6 = push_expr(p, Expr::Literal(LiteralExpr { value: Some(Object::Bool(false)) }));
    let e7 = num(p, 1);
    let e8 = push_expr(
        p,
        Expr::Logical(arclang::expr::LogicalExpr {
            left: e6,
            operator: op(TokenKind::And, "and"),
            right: e7,
        }),
    );
    let s2 = print_stmt(p, e8);
    let (ok, out, _) = run(p, vec![s0, s1, s2]);
    assert!(ok);
    assert_eq!(lines(&out), vec!["2", "x", "false"]);
}

#[test]
fn clock_is_callable_from_the_global_scope() {
    // clock();
    let p = &mut Program::new();
    let e0 = var_ref(p, "clock");
    let e1 = call(p, e0, vec![]);
    let s0 = expr_stmt(p, e1);
    let (ok, out, _) = run(p, vec![s0]);
    assert!(ok);
    assert!(out.is_empty());
}

#[test]
fn inherited_method_is_found_through_the_superclass() {
    // class A { m() { print 5; } } class B < A {} var b = B(); b.m();
    let p = &mut Program::new();
    let e0 = num(p, 5);
    let s0 = print_stmt(p, e0);
    let s1 = function(p, "m", vec![], vec![s0]);
    let s2 = push_stmt(
        p,
        Stmt::Class(ClassStmt { name: ident("A"), superclass: None, methods: vec![s1] }),
    );
    let e1 = var_ref(p, "A");
    let s3 = push_stmt(
        p,
        Stmt::Class(ClassStmt { name: ident("B"), superclass: Some(e1), methods: vec![] }),
    );
    let e2 = var_ref(p, "B");
    let e3 = call(p, e2, vec![]);
    let s4 = var_stmt(p, "b", Some(e3));
    let e4 = var_ref(p, "b");
    let e5 = push_expr(p, Expr::Get(GetExpr { object: e4, name: ident("m") }));
    let e6 = call(p, e5, vec![]);
    let s5 = expr_stmt(p, e6);
    let (ok, out, _) = run(p, vec![s2, s3, s4, s5]);
    assert!(ok);
    assert_eq!(lines(&out), vec!["5"]);
}

#[test]
fn undefined_property_is_a_runtime_error() {
    // class A {} var a = A(); print a.missing;
    let p = &mut Program::new();
    let s0 = push_stmt(
        p,
        Stmt::Class(ClassStmt { name: ident("A"), superclass: None, methods: vec![] }),
    );
    let e0 = var_ref(p, "A");
    let e1 = call(p, e0, vec![]);
    let s1 = var_stmt(p, "a", Some(e1));
    let e2 = var_ref(p, "a");
    let e3 = push_expr(p, Expr::Get(GetExpr { object: e2, name: ident("missing") }));
    let s2 = print_stmt(p, e3);
    let (ok, _, terp) = run(p, vec![s0, s1, s2]);
    assert!(!ok);
    assert!(matches!(terp.errors[0], Error::RuntimeError { .. }));
}

#[test]
fn only_instances_have_fields() {
    // 1.x = 2;
    let p = &mut Program::new();
    let e0 = num(p, 1);
    let e1 = num(p, 2);
    let e2 = push_expr(p, Expr::SetField(SetExpr { object: e0, name: ident("x"), value: e1 }));
    let s0 = expr_stmt(p, e2);
    let (ok, _, terp) = run(p, vec![s0]);
    assert!(!ok);
    assert!(matches!(terp.errors[0], Error::RuntimeError { .. }));
}

#[test]
fn class_arity_follows_its_initializer() {
    // class Foo { init(x) {} } Foo();
    let p = &mut Program::new();
    let s0 = function(p, "init", vec!["x"], vec![]);
    let s1 = push_stmt(
        p,
        Stmt::Class(ClassStmt { name: ident("Foo"), superclass: None, methods: vec![s0] }),
    );
    let e0 = var_ref(p, "Foo");
    let e1 = call(p, e0, vec![]);
    let s2 = expr_stmt(p, e1);
    let (ok, _, terp) = run(p, vec![s1, s2]);
    assert!(!ok);
    assert!(matches!(terp.errors[0], Error::RuntimeError { .. }));
}

#[test]
fn an_exhausted_step_budget_is_a_system_error() {
    // print 1; with no fuel to spend
    let p = &mut Program::new();
    let e0 = num(p, 1);
    let s0 = print_stmt(p, e0);
    assert!(p.well_formed());
    let mut terp = Interpreter::new();
    let r = terp.execute(p, s0, 0, 0);
    assert!(matches!(r, Err(Error::SystemError { .. })));
}

#[test]
fn string_concatenation_prints_unquoted() {
    // print "a" + 1; print 2 + "b"; print "x" + "y";
    let p = &mut Program::new();
    let e0 = push_expr(
        p,
        Expr::Literal(LiteralExpr { value: Some(Object::Str("a".to_string())) }),
    );
    let e1 = num(p, 1);
    let e2 = binary(p, e0, TokenKind::Plus, "+", e1);
    let s0 = print_stmt(p, e2);
    let e3 = num(p, 2);
    let e4 = push_expr(
        p,
        Expr::Literal(LiteralExpr { value: Some(Object::Str("b".to_string())) }),
    );
    let e5 = binary(p, e3, TokenKind::Plus, "+", e4);
    let s1 = print_stmt(p, e5);
    let e6 = push_expr(
        p,
        Expr::Literal(LiteralExpr { value: Some(Object::Str("x".to_string())) }),
    );
    let e7 = push_expr(
        p,
        Expr::Literal(LiteralExpr { value: Some(Object::Str("y".to_string())) }),
    );
    let e8 = binary(p, e6, TokenKind::Plus, "+", e7);
    let s2 = print_stmt(p, e8);
    let (ok, out, _) = run(p, vec![s0, s1, s2]);
    assert!(ok);
    assert_eq!(lines(&out), vec!["a1", "2b", "xy"]);
}
