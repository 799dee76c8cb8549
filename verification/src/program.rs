//! The program arena.
//!
//! A [`Program`] owns every expression and statement node of one parse,
//! in construction order, so children always come before their parents.
//! Nodes never change after construction; the arena index of a node is
//! its identity.

use vstd::prelude::*;

verus! {

use crate::expr::{expr_wf, Expr};
use crate::stmt::{stmt_wf, Stmt};

/// The immutable node arenas of one parsed program.
pub struct Program {
    pub exprs: Vec<Expr>,
    pub stmts: Vec<Stmt>,
}

impl Program {
    /// Every node is internally well-formed and every method of a
    /// class node is a function node.
    pub open spec fn wf(self) -> bool {
        &&& forall|i: int| 0 <= i < self.exprs@.len() ==> expr_wf(#[trigger] self.exprs@[i], i)
        &&& forall|i: int|
            0 <= i < self.stmts@.len() ==> stmt_wf(
                #[trigger] self.stmts@[i],
                i,
                self.exprs@.len() as int,
            )
        &&& forall|i: int|
            0 <= i < self.stmts@.len() ==> match #[trigger] self.stmts@[i] {
                Stmt::Class(c) => forall|k: int|
                    0 <= k < c.methods@.len() ==> (#[trigger] self.stmts@[c.methods@[k] as int]) matches Stmt::Function(_),
                _ => true,
            }
    }

    /// An empty arena.
    pub fn new() -> (p: Program)
        ensures
            p.wf(),
            p.exprs@.len() == 0,
            p.stmts@.len() == 0,
    {
        Program { exprs: Vec::new(), stmts: Vec::new() }
    }

    /// Checks the arena: a `true` answer establishes `wf`.
    pub fn well_formed(&self) -> (r: bool)
        ensures
            r == self.wf(),
    {
        let n_exprs = self.exprs.len();
        let n_stmts = self.stmts.len();
        let mut i: usize = 0;
        while i < n_exprs
            invariant
                i <= n_exprs,
                n_exprs == self.exprs@.len(),
                forall|j: int| 0 <= j < i ==> expr_wf(#[trigger] self.exprs@[j], j),
            decreases n_exprs - i,
        {
            if !check_expr(&self.exprs[i], i) {
                return false;
            }
            i = i + 1;
        }
        let mut i: usize = 0;
        while i < n_stmts
            invariant
                i <= n_stmts,
                n_exprs == self.exprs@.len(),
                n_stmts == self.stmts@.len(),
                forall|j: int|
                    0 <= j < i ==> stmt_wf(#[trigger] self.stmts@[j], j, n_exprs as int),
                forall|j: int|
                    0 <= j < i ==> match #[trigger] self.stmts@[j] {
                        Stmt::Class(c) => forall|k: int|
                            0 <= k < c.methods@.len() ==> (#[trigger] self.stmts@[c.methods@[k] as int]) matches Stmt::Function(_),
                        _ => true,
                    },
            decreases n_stmts - i,
        {
            if !self.check_stmt(i) {
                return false;
            }
            i = i + 1;
        }
        true
    }

    /// Checks one statement node, including that a class's methods are
    /// function nodes.
    fn check_stmt(&self, i: usize) -> (r: bool)
        requires
            i < self.stmts@.len(),
        ensures
            r == (stmt_wf(self.stmts@[i as int], i as int, self.exprs@.len() as int)
                && match self.stmts@[i as int] {
                Stmt::Class(c) => forall|k: int|
                    0 <= k < c.methods@.len() ==> (#[trigger] self.stmts@[c.methods@[k] as int]) matches Stmt::Function(_),
                _ => true,
            }),
    {
        let n_exprs = self.exprs.len();
        match &self.stmts[i] {
            Stmt::Block(b) => all_below(&b.statements, i),
            Stmt::Class(c) => {
                let sup_ok = match c.superclass {
                    Some(se) => se < n_exprs,
                    None => true,
                };
                if !sup_ok || !all_below(&c.methods, i) {
                    return false;
                }
                let n = c.methods.len();
                let mut k: usize = 0;
                while k < n
                    invariant
                        k <= n,
                        n == c.methods@.len(),
                        i < self.stmts@.len(),
                        self.stmts@[i as int] matches Stmt::Class(cc) && cc == *c,
                        forall|j: int| 0 <= j < n ==> c.methods@[j] < i,
                        forall|j: int|
                            0 <= j < k ==> (#[trigger] self.stmts@[c.methods@[j] as int]) matches Stmt::Function(_),
                    decreases n - k,
                {
                    match &self.stmts[c.methods[k]] {
                        Stmt::Function(_) => {},
                        _ => {
                            return false;
                        },
                    }
                    k = k + 1;
                }
                true
            },
            Stmt::Expression(e) => e.expression < n_exprs,
            Stmt::Function(f) => all_below(&f.body, i),
            Stmt::If(f) => f.condition < n_exprs && f.then_branch < i && match f.else_branch {
                Some(e) => e < i,
                None => true,
            },
            Stmt::Print(p) => p.expression < n_exprs,
            Stmt::Return(r) => match r.value {
                Some(e) => e < n_exprs,
                None => true,
            },
            Stmt::Var(v) => match v.initializer {
                Some(e) => e < n_exprs,
                None => true,
            },
            Stmt::While(w) => w.condition < n_exprs && w.body < i,
        }
    }
}

/// Checks one expression node.
fn check_expr(e: &Expr, i: usize) -> (r: bool)
    ensures
        r == expr_wf(*e, i as int),
{
    match e {
        Expr::Assign(a) => a.value < i,
        Expr::Binary(b) => b.left < i && b.right < i,
        Expr::Call(c) => c.callee < i && all_below(&c.arguments, i),
        Expr::Get(g) => g.object < i,
        Expr::Grouping(g) => g.expression < i,
        Expr::Literal(l) => match &l.value {
            Some(v) => match v {
                crate::tokens::Object::Num(_) => true,
                crate::tokens::Object::Str(_) => true,
                crate::tokens::Object::Bool(_) => true,
                crate::tokens::Object::Nil => true,
                _ => false,
            },
            None => true,
        },
        Expr::Logical(l) => l.left < i && l.right < i,
        Expr::SetField(s) => s.object < i && s.value < i,
        Expr::Super(_) => true,
        Expr::This(_) => true,
        Expr::Unary(u) => u.right < i,
        Expr::Variable(_) => true,
    }
}

/// Whether every index in the list is strictly below `bound`.
pub fn all_below(ids: &Vec<usize>, bound: usize) -> (r: bool)
    ensures
        r == (forall|k: int| 0 <= k < ids@.len() ==> ids@[k] < bound),
{
    let n = ids.len();
    let mut k: usize = 0;
    while k < n
        invariant
            k <= n,
            n == ids@.len(),
            forall|j: int| 0 <= j < k ==> ids@[j] < bound,
        decreases n - k,
    {
        if ids[k] >= bound {
            return false;
        }
        k = k + 1;
    }
    true
}

} // verus!
