//! Tokens and runtime values.
//!
//! `Object` is the language's tagged value union.  Numbers are machine
//! integers (`i64`): the verified core works on exact integer
//! arithmetic.  Callable and instance values do not own their payload;
//! they hold an index into the interpreter's function, class or
//! instance arena, which is what gives closures and instances shared,
//! mutable identity without shared ownership.

use vstd::prelude::*;

verus! {

use vstd::string::StrSliceExecFns;

/// Character-by-character equality of two string slices.
pub fn str_eq(a: &str, b: &str) -> (r: bool)
    ensures
        r == (a@ == b@),
{
    let n = a.unicode_len();
    let m = b.unicode_len();
    if n != m {
        return false;
    }
    let mut i: usize = 0;
    while i < n
        invariant
            i <= n,
            n == a@.len(),
            n == b@.len(),
            forall|j: int| 0 <= j < i ==> a@[j] == b@[j],
        decreases n - i,
    {
        if a.get_char(i) != b.get_char(i) {
            return false;
        }
        i = i + 1;
    }
    proof {
        assert(a@ =~= b@);
    }
    true
}

/// The kind of a scanned token.
#[derive(Debug, Default, PartialEq, Eq, Structural, Clone, Copy)]
pub enum TokenKind {
    #[default]
    Illegal,
    EOF,
    Number,
    String,
    Identifier,
    Plus,
    Minus,
    Asterisk,
    Slash,
    Bang,
    Equal,
    NotEqual,
    EqualEqual,
    LessThan,
    LessThanEqual,
    GreaterThan,
    GreaterThanEqual,
    LeftParen,
    RightParen,
    LeftBrace,
    RightBrace,
    RightSquare,
    LeftSquare,
    Comma,
    Dot,
    Semicolon,
    Comment,
    And,
    Class,
    Else,
    False,
    Fn,
    For,
    If,
    Nil,
    Or,
    Print,
    Return,
    Super,
    This,
    True,
    Var,
    While,
}

/// A runtime value.
///
/// `Function`, `Class` and `Instance` carry an index into the
/// interpreter's arenas.  `Native` is the single built-in callable,
/// the clock.  `ArithmeticError` is the internal sentinel produced by
/// binary-operator evaluation on an unsupported type pairing; the
/// operator handler turns it into a reported runtime error before it
/// can escape.
#[derive(Debug)]
pub enum Object {
    Num(i64),
    Str(String),
    Bool(bool),
    Function(usize),
    Class(usize),
    Instance(usize),
    Native,
    Nil,
    ArithmeticError,
}

/// Value equality as the contracts speak of it: variants must match,
/// strings are compared by their character sequences, callables and
/// instances by their arena identity.
pub open spec fn obj_eq(a: Object, b: Object) -> bool {
    match (a, b) {
        (Object::Num(x), Object::Num(y)) => x == y,
        (Object::Str(x), Object::Str(y)) => x@ == y@,
        (Object::Bool(x), Object::Bool(y)) => x == y,
        (Object::Function(x), Object::Function(y)) => x == y,
        (Object::Class(x), Object::Class(y)) => x == y,
        (Object::Instance(x), Object::Instance(y)) => x == y,
        (Object::Native, Object::Native) => true,
        (Object::Nil, Object::Nil) => true,
        (Object::ArithmeticError, Object::ArithmeticError) => true,
        _ => false,
    }
}

/// Values a literal expression or a token may carry: the primitives.
pub open spec fn obj_is_primitive(a: Object) -> bool {
    match a {
        Object::Num(_) => true,
        Object::Str(_) => true,
        Object::Bool(_) => true,
        Object::Nil => true,
        _ => false,
    }
}

impl Clone for Object {
    fn clone(&self) -> (res: Self)
        ensures
            res == *self,
    {
        match self {
            Object::Num(x) => Object::Num(*x),
            Object::Str(s) => Object::Str(s.clone()),
            Object::Bool(b) => Object::Bool(*b),
            Object::Function(i) => Object::Function(*i),
            Object::Class(i) => Object::Class(*i),
            Object::Instance(i) => Object::Instance(*i),
            Object::Native => Object::Native,
            Object::Nil => Object::Nil,
            Object::ArithmeticError => Object::ArithmeticError,
        }
    }
}

impl PartialEq for Object {
    fn eq(&self, other: &Self) -> (res: bool)
        ensures
            res == obj_eq(*self, *other),
    {
        match (self, other) {
            (Object::Num(x), Object::Num(y)) => *x == *y,
            (Object::Str(x), Object::Str(y)) => *x == *y,
            (Object::Bool(x), Object::Bool(y)) => *x == *y,
            (Object::Function(x), Object::Function(y)) => *x == *y,
            (Object::Class(x), Object::Class(y)) => *x == *y,
            (Object::Instance(x), Object::Instance(y)) => *x == *y,
            (Object::Native, Object::Native) => true,
            (Object::Nil, Object::Nil) => true,
            (Object::ArithmeticError, Object::ArithmeticError) => true,
            _ => false,
        }
    }
}

impl vstd::std_specs::cmp::PartialEqSpecImpl for Object {
    open spec fn obeys_eq_spec() -> bool {
        true
    }

    open spec fn eq_spec(&self, other: &Self) -> bool {
        obj_eq(*self, *other)
    }
}

/// A scanned token: its kind, the source text it covers, an optional
/// literal payload (for number and string tokens), and the line it was
/// found on.
#[derive(Debug)]
pub struct Token {
    pub kind: TokenKind,
    pub lexeme: String,
    pub literal: Option<Object>,
    pub line: usize,
}

impl Clone for Token {
    fn clone(&self) -> (res: Self)
        ensures
            res == *self,
    {
        Token {
            kind: self.kind,
            lexeme: self.lexeme.clone(),
            literal: match &self.literal {
                Some(o) => Some(o.clone()),
                None => None,
            },
            line: self.line,
        }
    }
}

impl Token {
    pub fn new(kind: TokenKind, lexeme: String, literal: Option<Object>, line: usize) -> (t: Token)
        ensures
            t.kind == kind,
            t.lexeme == lexeme,
            t.literal == literal,
            t.line == line,
    {
        Token { kind, lexeme, literal, line }
    }
}

impl Default for Token {
    fn default() -> (t: Self)
        ensures
            t.kind == TokenKind::Illegal,
            t.lexeme@ == Seq::<char>::empty(),
            t.literal is None,
            t.line == 0,
    {
        Token { kind: TokenKind::Illegal, lexeme: String::new(), literal: None, line: 0 }
    }
}

} // verus!
