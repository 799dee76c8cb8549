//! Statement nodes.
//!
//! Statements live in an arena alongside the expressions (see
//! [`crate::program::Program`]); a node refers to nested statements by
//! index, and a well-formed node's nested statements all have smaller
//! indices than the node itself.

use vstd::prelude::*;

verus! {

use crate::tokens::Token;

pub struct BlockStmt {
    pub statements: Vec<usize>,
}

pub struct ClassStmt {
    pub name: Token,
    pub superclass: Option<usize>,
    pub methods: Vec<usize>,
}

pub struct ExpressionStmt {
    pub expression: usize,
}

pub struct FunctionStmt {
    pub name: Token,
    pub params: Vec<Token>,
    pub body: Vec<usize>,
}

pub struct IfStmt {
    pub condition: usize,
    pub then_branch: usize,
    pub else_branch: Option<usize>,
}

pub struct PrintStmt {
    pub expression: usize,
}

pub struct ReturnStmt {
    pub keyword: Token,
    pub value: Option<usize>,
}

pub struct VarStmt {
    pub name: Token,
    pub initializer: Option<usize>,
}

pub struct WhileStmt {
    pub condition: usize,
    pub body: usize,
}

/// A statement node; nested statements and expressions are arena
/// indices.
pub enum Stmt {
    Block(BlockStmt),
    Class(ClassStmt),
    Expression(ExpressionStmt),
    Function(FunctionStmt),
    If(IfStmt),
    Print(PrintStmt),
    Return(ReturnStmt),
    Var(VarStmt),
    While(WhileStmt),
}

/// Nested statements of the node at index `i` come strictly before it,
/// and every expression index is in range.  A class's methods must be
/// function nodes; that is stated in `Program::wf`, which can see the
/// arena.
pub open spec fn stmt_wf(s: Stmt, i: int, n_exprs: int) -> bool {
    match s {
        Stmt::Block(b) => forall|k: int| 0 <= k < b.statements@.len() ==> b.statements@[k] < i,
        Stmt::Class(c) => {
            &&& match c.superclass {
                Some(se) => se < n_exprs,
                None => true,
            }
            &&& forall|k: int| 0 <= k < c.methods@.len() ==> c.methods@[k] < i
        },
        Stmt::Expression(e) => e.expression < n_exprs,
        Stmt::Function(f) => forall|k: int| 0 <= k < f.body@.len() ==> f.body@[k] < i,
        Stmt::If(f) => f.condition < n_exprs && f.then_branch < i && match f.else_branch {
            Some(e) => e < i,
            None => true,
        },
        Stmt::Print(p) => p.expression < n_exprs,
        Stmt::Return(r) => match r.value {
            Some(e) => e < n_exprs,
            None => true,
        },
        Stmt::Var(v) => match v.initializer {
            Some(e) => e < n_exprs,
            None => true,
        },
        Stmt::While(w) => w.condition < n_exprs && w.body < i,
    }
}

} // verus!
