//! The static scope resolver.
//!
//! A single pass over the program that mirrors the interpreter's
//! block structure without evaluating anything.  It keeps a stack of
//! scopes, each mapping a name to an "is fully initialized" flag, and
//! records for every variable reference the number of enclosing
//! scopes between the reference and its binding.  The interpreter
//! later walks exactly that many links instead of searching by name.
//!
//! While a variable's own initializer is being resolved, its binding
//! is on the stack but flagged uninitialized: a reference to the name
//! then resolves to an enclosing binding when one exists, and reading
//! a local in its own initializer with no enclosing binding is a
//! reported error.  Redeclaring a name in the same block scope and
//! `return` outside a function are reported errors too; resolution
//! continues after an error so one pass finds them all, and a run is
//! only executed when the pass reported none.

use vstd::prelude::*;

verus! {

use crate::environment::{
    find_last,
    lemma_lookup_at_last_match,
    lemma_lookup_no_match,
    lookup_pairs,
};
use crate::errors::Error;
use crate::expr::Expr;
use crate::program::Program;
use crate::stmt::{FunctionStmt, Stmt};
use crate::tokens::Token;

/// What kind of function body the resolver is inside, for validating
/// `return` placement.
#[derive(PartialEq, Eq, Structural, Clone, Copy, Debug)]
pub enum FunctionType {
    NoFunction,
    InFunction,
    InMethod,
}

/// The distance, in scopes counted from the innermost, of the
/// innermost scope that binds `name`; `None` when no scope does.
pub open spec fn spec_distance(scopes: Seq<Vec<(String, bool)>>, name: Seq<char>) -> Option<int>
    decreases scopes.len(),
{
    if scopes.len() == 0 {
        None
    } else if lookup_pairs(scopes.last()@, name) is Some {
        Some(0)
    } else {
        match spec_distance(scopes.drop_last(), name) {
            Some(d) => Some(d + 1),
            None => None,
        }
    }
}

/// What resolving one variable reference does to the pass: with the
/// declared-but-uninitialized innermost binding skipped, the
/// reference either records exactly the `spec_distance` of its name
/// on the scope stack, or — when the skip left nothing to bind to —
/// reports the own-initializer error; an unrecorded reference falls
/// back to the global scope at run time.
pub open spec fn variable_resolution(
    pre: Resolver,
    post: Resolver,
    eid: int,
    name: Seq<char>,
) -> bool {
    let scopes = pre.scopes@;
    let unready = scopes.len() > 0 && lookup_pairs(scopes.last()@, name) == Some(false);
    let upper = if unready {
        scopes.len() - 1
    } else {
        scopes.len() as int
    };
    match spec_distance(scopes.take(upper), name) {
        Some(d) => post.locals@ == pre.locals@.push(
            (eid as usize, (d + scopes.len() - upper) as usize),
        ) && post.errors == pre.errors && post.had_error == pre.had_error,
        None => post.locals == pre.locals && (unready ==> post.had_error && post.errors@.len()
            == pre.errors@.len() + 1) && (!unready ==> post.errors == pre.errors
            && post.had_error == pre.had_error),
    }
}

/// The static resolver's state: the scope stack, the function-kind
/// context, the recorded binding distances, and the errors reported
/// so far.
pub struct Resolver {
    pub scopes: Vec<Vec<(String, bool)>>,
    pub had_error: bool,
    pub current_function: FunctionType,
    pub locals: Vec<(usize, usize)>,
    pub errors: Vec<Error>,
}

/// What one resolution step may do to the resolver: the scope stack
/// is balanced, the function context is restored, recorded distances
/// and errors are only appended, and the error flag never clears.
pub open spec fn resolver_step(pre: Resolver, post: Resolver) -> bool {
    &&& post.scopes@.len() == pre.scopes@.len()
    &&& post.current_function == pre.current_function
    &&& post.locals@.len() >= pre.locals@.len()
    &&& forall|i: int| 0 <= i < pre.locals@.len() ==> post.locals@[i] == pre.locals@[i]
    &&& post.errors@.len() >= pre.errors@.len()
    &&& (pre.had_error ==> post.had_error)
    &&& (post.had_error ==> pre.had_error || post.errors@.len() > pre.errors@.len())
    &&& (post.errors@.len() > pre.errors@.len() ==> post.had_error)
}

impl Resolver {
    pub fn new() -> (r: Resolver)
        ensures
            r.scopes@.len() == 0,
            !r.had_error,
            r.current_function == FunctionType::NoFunction,
            r.locals@.len() == 0,
            r.errors@.len() == 0,
    {
        Resolver {
            scopes: Vec::new(),
            had_error: false,
            current_function: FunctionType::NoFunction,
            locals: Vec::new(),
            errors: Vec::new(),
        }
    }

    /// Resolves a program's top-level statements.
    pub fn resolve(&mut self, p: &Program, statements: &Vec<usize>)
        requires
            p.wf(),
            forall|k: int| 0 <= k < statements@.len() ==> statements@[k] < p.stmts@.len(),
        ensures
            resolver_step(*old(self), *final(self)),
            statements@.len() == 1 && p.stmts@[statements@[0] as int] is Return
                && old(self).current_function == FunctionType::NoFunction
                ==> final(self).had_error,
    {
        let ghost lone_return = statements@.len() == 1 && p.stmts@[statements@[0] as int] is Return
            && old(self).current_function == FunctionType::NoFunction;
        let n = statements.len();
        let mut i: usize = 0;
        while i < n
            invariant
                p.wf(),
                n == statements@.len(),
                forall|k: int| 0 <= k < statements@.len() ==> statements@[k] < p.stmts@.len(),
                i <= n,
                lone_return == (statements@.len() == 1 && p.stmts@[statements@[0] as int] is Return
                    && old(self).current_function == FunctionType::NoFunction),
                lone_return && i >= 1 ==> self.had_error,
                resolver_step(*old(self), *self),
            decreases n - i,
        {
            self.resolve_stmt(p, statements[i]);
            i = i + 1;
        }
    }

    /// Whether the pass reported no error.
    pub fn success(&self) -> (r: bool)
        ensures
            r == !self.had_error,
    {
        !self.had_error
    }

    /// Resolves one statement node.
    pub fn resolve_stmt(&mut self, p: &Program, sid: usize)
        requires
            p.wf(),
            sid < p.stmts@.len(),
        ensures
            resolver_step(*old(self), *final(self)),
            p.stmts@[sid as int] matches Stmt::Var(v) ==> ({
                &&& old(self).scopes@.len() > 0 ==> lookup_pairs(
                    final(self).scopes@.last()@,
                    v.name.lexeme@,
                ) == Some(true)
                &&& (old(self).scopes@.len() > 0 && lookup_pairs(
                    old(self).scopes@.last()@,
                    v.name.lexeme@,
                ) is Some ==> final(self).had_error)
            }),
            p.stmts@[sid as int] matches Stmt::Block(b) ==> (b.statements@.len() == 1 ==> (
            p.stmts@[b.statements@[0] as int] matches Stmt::Print(pr) ==> (
            p.exprs@[pr.expression as int] matches Expr::Variable(v) ==> match spec_distance(
                old(self).scopes@,
                v.name.lexeme@,
            ) {
                Some(d) => final(self).locals@.len() > old(self).locals@.len()
                    && final(self).locals@[old(self).locals@.len() as int] == (
                pr.expression,
                (d + 1) as usize,
                ),
                None => final(self).locals == old(self).locals,
            }))),
            p.stmts@[sid as int] matches Stmt::Print(pr) ==> (
            p.exprs@[pr.expression as int] matches Expr::Variable(v) ==> variable_resolution(
                *old(self),
                *final(self),
                pr.expression as int,
                v.name.lexeme@,
            )),
            p.stmts@[sid as int] matches Stmt::Expression(ex) ==> (
            p.exprs@[ex.expression as int] matches Expr::Variable(v) ==> variable_resolution(
                *old(self),
                *final(self),
                ex.expression as int,
                v.name.lexeme@,
            )),
            p.stmts@[sid as int] matches Stmt::If(cf) ==> (
            p.exprs@[cf.condition as int] matches Expr::Variable(v) ==> ({
                let scopes = old(self).scopes@;
                let unready = scopes.len() > 0 && lookup_pairs(scopes.last()@, v.name.lexeme@)
                    == Some(false);
                let upper = if unready {
                    scopes.len() - 1
                } else {
                    scopes.len() as int
                };
                match spec_distance(scopes.take(upper), v.name.lexeme@) {
                    Some(d) => final(self).locals@.len() > old(self).locals@.len()
                        && final(self).locals@[old(self).locals@.len() as int] == (
                    cf.condition,
                    (d + scopes.len() - upper) as usize,
                    ),
                    None => true,
                }
            })),
            p.stmts@[sid as int] matches Stmt::While(w) ==> (
            p.exprs@[w.condition as int] matches Expr::Variable(v) ==> ({
                let scopes = old(self).scopes@;
                let unready = scopes.len() > 0 && lookup_pairs(scopes.last()@, v.name.lexeme@)
                    == Some(false);
                let upper = if unready {
                    scopes.len() - 1
                } else {
                    scopes.len() as int
                };
                match spec_distance(scopes.take(upper), v.name.lexeme@) {
                    Some(d) => final(self).locals@.len() > old(self).locals@.len()
                        && final(self).locals@[old(self).locals@.len() as int] == (
                    w.condition,
                    (d + scopes.len() - upper) as usize,
                    ),
                    None => true,
                }
            })),
            p.stmts@[sid as int] matches Stmt::Return(_) ==> (old(self).current_function
                == FunctionType::NoFunction ==> final(self).had_error
                && final(self).errors@.len() == old(self).errors@.len() + 1),
        decreases sid, 1int,
    {
        match &p.stmts[sid] {
            Stmt::Block(b) => {
                self.begin_scope();
                let ghost after_open = *self;
                let n = b.statements.len();
                let mut i: usize = 0;
                while i < n
                    invariant
                        p.wf(),
                        n == b.statements@.len(),
                        forall|k: int| 0 <= k < n ==> b.statements@[k] < sid,
                        sid < p.stmts@.len(),
                        i <= n,
                        i == 0 ==> *self == after_open,
                        n == 1 && i == 1 ==> (
                        p.stmts@[b.statements@[0] as int] matches Stmt::Print(pr) ==> (
                        p.exprs@[pr.expression as int] matches Expr::Variable(v)
                            ==> variable_resolution(
                            after_open,
                            *self,
                            pr.expression as int,
                            v.name.lexeme@,
                        ))),
                        after_open.locals == old(self).locals,
                        after_open.errors == old(self).errors,
                        after_open.had_error == old(self).had_error,
                        after_open.scopes@.len() == old(self).scopes@.len() + 1,
                        after_open.scopes@.last()@.len() == 0,
                        forall|j: int|
                            0 <= j < old(self).scopes@.len() ==> after_open.scopes@[j] == old(
                                self,
                            ).scopes@[j],
                        self.scopes@.len() == old(self).scopes@.len() + 1,
                        self.current_function == old(self).current_function,
                        self.locals@.len() >= old(self).locals@.len(),
                        forall|j: int|
                            0 <= j < old(self).locals@.len() ==> self.locals@[j] == old(
                                self,
                            ).locals@[j],
                        self.errors@.len() >= old(self).errors@.len(),
                        (old(self).had_error ==> self.had_error),
                        (self.had_error ==> old(self).had_error || self.errors@.len() > old(
                            self,
                        ).errors@.len()),
                        (self.errors@.len() > old(self).errors@.len() ==> self.had_error),
                    decreases n - i,
                {
                    self.resolve_stmt(p, b.statements[i]);
                    i = i + 1;
                }
                proof {
                    if b.statements@.len() == 1 {
                        match p.stmts@[b.statements@[0] as int] {
                            Stmt::Print(pr) => {
                                match p.exprs@[pr.expression as int] {
                                    Expr::Variable(v) => {
                                        lemma_distance_under_empty_scope(
                                            after_open.scopes@,
                                            old(self).scopes@,
                                            v.name.lexeme@,
                                        );
                                        assert(after_open.scopes@.take(
                                            after_open.scopes@.len() as int,
                                        ) =~= after_open.scopes@);
                                    },
                                    _ => {},
                                }
                            },
                            _ => {},
                        }
                    }
                }
                self.end_scope();
            },
            Stmt::Class(c) => {
                self.declare(&c.name);
                self.define(&c.name);
                let has_super = match c.superclass {
                    Some(se) => {
                        self.resolve_expr(p, se);
                        true
                    },
                    None => false,
                };
                if has_super {
                    self.begin_scope();
                    self.define_name_str("super");
                }
                self.begin_scope();
                self.define_name_str("this");
                let n = c.methods.len();
                let mut i: usize = 0;
                while i < n
                    invariant
                        p.wf(),
                        n == c.methods@.len(),
                        forall|k: int| 0 <= k < n ==> c.methods@[k] < sid,
                        forall|k: int|
                            0 <= k < n ==> (#[trigger] p.stmts@[c.methods@[k] as int]) matches Stmt::Function(_),
                        sid < p.stmts@.len(),
                        i <= n,
                        self.scopes@.len() > 0,
                        self.scopes@.len() == old(self).scopes@.len() + (if has_super {
                            2int
                        } else {
                            1int
                        }),
                        self.current_function == old(self).current_function,
                        self.locals@.len() >= old(self).locals@.len(),
                        forall|j: int|
                            0 <= j < old(self).locals@.len() ==> self.locals@[j] == old(
                                self,
                            ).locals@[j],
                        self.errors@.len() >= old(self).errors@.len(),
                        (old(self).had_error ==> self.had_error),
                        (self.had_error ==> old(self).had_error || self.errors@.len() > old(
                            self,
                        ).errors@.len()),
                        (self.errors@.len() > old(self).errors@.len() ==> self.had_error),
                    decreases n - i,
                {
                    let mid = c.methods[i];
                    match &p.stmts[mid] {
                        Stmt::Function(func) => {
                            self.resolve_function(p, mid, func, FunctionType::InMethod);
                        },
                        _ => {},
                    }
                    i = i + 1;
                }
                self.end_scope();
                if has_super {
                    self.end_scope();
                }
            },
            Stmt::Expression(e) => {
                self.resolve_expr(p, e.expression);
            },
            Stmt::Function(func) => {
                self.declare(&func.name);
                self.define(&func.name);
                self.resolve_function(p, sid, func, FunctionType::InFunction);
            },
            Stmt::If(f) => {
                self.resolve_expr(p, f.condition);
                self.resolve_stmt(p, f.then_branch);
                match f.else_branch {
                    Some(e) => {
                        self.resolve_stmt(p, e);
                    },
                    None => {},
                }
            },
            Stmt::Print(pr) => {
                self.resolve_expr(p, pr.expression);
            },
            Stmt::Return(ret) => {
                if self.current_function == FunctionType::NoFunction {
                    self.error(&ret.keyword, "Cannot return from top-level code.");
                } else {
                    match ret.value {
                        Some(e) => {
                            self.resolve_expr(p, e);
                        },
                        None => {},
                    }
                }
            },
            Stmt::Var(v) => {
                self.declare(&v.name);
                match v.initializer {
                    Some(init) => {
                        self.resolve_expr(p, init);
                    },
                    None => {},
                }
                self.define(&v.name);
            },
            Stmt::While(w) => {
                self.resolve_expr(p, w.condition);
                self.resolve_stmt(p, w.body);
            },
        }
    }

    /// Resolves a function body: a fresh scope seeded with the
    /// parameters, resolved with the function-kind context set.
    fn resolve_function(
        &mut self,
        p: &Program,
        sid: usize,
        func: &FunctionStmt,
        func_type: FunctionType,
    )
        requires
            p.wf(),
            sid < p.stmts@.len(),
            p.stmts@[sid as int] matches Stmt::Function(ff) && ff == *func,
        ensures
            resolver_step(*old(self), *final(self)),
        decreases sid, 0int,
    {
        let enclosing_function = self.current_function;
        self.current_function = func_type;
        self.begin_scope();
        let n_params = func.params.len();
        let mut i: usize = 0;
        while i < n_params
            invariant
                n_params == func.params@.len(),
                i <= n_params,
                self.scopes@.len() == old(self).scopes@.len() + 1,
                self.locals@.len() >= old(self).locals@.len(),
                forall|j: int|
                    0 <= j < old(self).locals@.len() ==> self.locals@[j] == old(self).locals@[j],
                self.errors@.len() >= old(self).errors@.len(),
                (old(self).had_error ==> self.had_error),
                (self.had_error ==> old(self).had_error || self.errors@.len() > old(
                    self,
                ).errors@.len()),
                (self.errors@.len() > old(self).errors@.len() ==> self.had_error),
            decreases n_params - i,
        {
            self.declare(&func.params[i]);
            self.define(&func.params[i]);
            i = i + 1;
        }
        let n = func.body.len();
        let mut i: usize = 0;
        while i < n
            invariant
                p.wf(),
                n == func.body@.len(),
                forall|k: int| 0 <= k < n ==> func.body@[k] < sid,
                sid < p.stmts@.len(),
                i <= n,
                self.scopes@.len() == old(self).scopes@.len() + 1,
                self.locals@.len() >= old(self).locals@.len(),
                forall|j: int|
                    0 <= j < old(self).locals@.len() ==> self.locals@[j] == old(self).locals@[j],
                self.errors@.len() >= old(self).errors@.len(),
                (old(self).had_error ==> self.had_error),
                (self.had_error ==> old(self).had_error || self.errors@.len() > old(
                    self,
                ).errors@.len()),
                (self.errors@.len() > old(self).errors@.len() ==> self.had_error),
            decreases n - i,
        {
            self.resolve_stmt(p, func.body[i]);
            i = i + 1;
        }
        self.end_scope();
        self.current_function = enclosing_function;
    }

    /// Resolves one expression node.
    pub fn resolve_expr(&mut self, p: &Program, eid: usize)
        requires
            p.wf(),
            eid < p.exprs@.len(),
        ensures
            resolver_step(*old(self), *final(self)),
            final(self).scopes == old(self).scopes,
            p.exprs@[eid as int] matches Expr::Variable(v) ==> variable_resolution(
                *old(self),
                *final(self),
                eid as int,
                v.name.lexeme@,
            ),
            p.exprs@[eid as int] matches Expr::Assign(a) ==> (match spec_distance(
                old(self).scopes@,
                a.name.lexeme@,
            ) {
                Some(d) => final(self).locals@.len() > old(self).locals@.len()
                    && final(self).locals@.last() == (eid, d as usize),
                None => true,
            }),
            p.exprs@[eid as int] matches Expr::This(t) ==> final(self).errors == old(self).errors
                && final(self).had_error == old(self).had_error && (match spec_distance(
                old(self).scopes@,
                t.keyword.lexeme@,
            ) {
                Some(d) => final(self).locals@ == old(self).locals@.push((eid, d as usize)),
                None => final(self).locals == old(self).locals,
            }),
            p.exprs@[eid as int] matches Expr::Super(sx) ==> final(self).errors
                == old(self).errors && final(self).had_error == old(self).had_error && (
            match spec_distance(
                old(self).scopes@,
                sx.keyword.lexeme@,
            ) {
                Some(d) => final(self).locals@ == old(self).locals@.push((eid, d as usize)),
                None => final(self).locals == old(self).locals,
            }),
        decreases eid,
    {
        match &p.exprs[eid] {
            Expr::Literal(_) => {},
            Expr::Grouping(g) => {
                self.resolve_expr(p, g.expression);
            },
            Expr::Unary(u) => {
                self.resolve_expr(p, u.right);
            },
            Expr::Binary(b) => {
                self.resolve_expr(p, b.left);
                self.resolve_expr(p, b.right);
            },
            Expr::Logical(l) => {
                self.resolve_expr(p, l.left);
                self.resolve_expr(p, l.right);
            },
            Expr::Call(c) => {
                self.resolve_expr(p, c.callee);
                let n = c.arguments.len();
                let mut i: usize = 0;
                while i < n
                    invariant
                        p.wf(),
                        n == c.arguments@.len(),
                        forall|k: int| 0 <= k < n ==> c.arguments@[k] < eid,
                        eid < p.exprs@.len(),
                        i <= n,
                        resolver_step(*old(self), *self),
                        self.scopes == old(self).scopes,
                    decreases n - i,
                {
                    self.resolve_expr(p, c.arguments[i]);
                    i = i + 1;
                }
            },
            Expr::Get(g) => {
                self.resolve_expr(p, g.object);
            },
            Expr::SetField(s) => {
                self.resolve_expr(p, s.value);
                self.resolve_expr(p, s.object);
            },
            Expr::Variable(v) => {
                proof {
                    assert(self.scopes@.take(self.scopes@.len() as int) =~= self.scopes@);
                }
                let l = self.scopes.len();
                let unready = if l > 0 {
                    match scope_flag(&self.scopes[l - 1], v.name.lexeme.as_str()) {
                        Some(flag) => !flag,
                        None => false,
                    }
                } else {
                    false
                };
                if unready {
                    let found = self.resolve_local(eid, &v.name, l - 1);
                    if !found {
                        self.error(
                            &v.name,
                            "Cannot read local variable in its own initializer.",
                        );
                    }
                } else {
                    let _found = self.resolve_local(eid, &v.name, l);
                }
            },
            Expr::Assign(a) => {
                self.resolve_expr(p, a.value);
                proof {
                    assert(self.scopes@.take(self.scopes@.len() as int) =~= self.scopes@);
                }
                let l = self.scopes.len();
                let _found = self.resolve_local(eid, &a.name, l);
            },
            Expr::This(t) => {
                proof {
                    assert(self.scopes@.take(self.scopes@.len() as int) =~= self.scopes@);
                }
                let l = self.scopes.len();
                let _found = self.resolve_local(eid, &t.keyword, l);
            },
            Expr::Super(s) => {
                proof {
                    assert(self.scopes@.take(self.scopes@.len() as int) =~= self.scopes@);
                }
                let l = self.scopes.len();
                let _found = self.resolve_local(eid, &s.keyword, l);
            },
        }
    }

    /// Searches the scopes below `upper` from the innermost outward
    /// and records the binding distance of the first match; a
    /// reference that matches nowhere is left unrecorded and falls
    /// back to the global scope at run time.
    fn resolve_local(&mut self, expr_id: usize, name: &Token, upper: usize) -> (found: bool)
        requires
            upper <= old(self).scopes@.len(),
        ensures
            final(self).scopes == old(self).scopes,
            final(self).had_error == old(self).had_error,
            final(self).errors == old(self).errors,
            final(self).current_function == old(self).current_function,
            match spec_distance(old(self).scopes@.take(upper as int), name.lexeme@) {
                Some(d) => found && final(self).locals@ == old(self).locals@.push(
                    (expr_id, (d + old(self).scopes@.len() - upper) as usize),
                ),
                None => !found && final(self).locals == old(self).locals,
            },
    {
        let total = self.scopes.len();
        let mut i = upper;
        while i > 0
            invariant
                upper <= total,
                total == self.scopes@.len(),
                i <= upper,
                *self == *old(self),
                spec_distance(self.scopes@.take(upper as int), name.lexeme@) == match spec_distance(
                    self.scopes@.take(i as int),
                    name.lexeme@,
                ) {
                    Some(d) => Some(d + (upper - i)),
                    None => None::<int>,
                },
            decreases i,
        {
            i = i - 1;
            proof {
                assert(self.scopes@.take(i + 1).drop_last() =~= self.scopes@.take(i as int));
                assert(self.scopes@.take(i + 1).last() == self.scopes@[i as int]);
            }
            match find_last(&self.scopes[i], name.lexeme.as_str()) {
                Some(j) => {
                    proof {
                        lemma_lookup_at_last_match(
                            self.scopes@[i as int]@,
                            name.lexeme@,
                            j as int,
                        );
                    }
                    self.locals.push((expr_id, total - 1 - i));
                    return true;
                },
                None => {
                    proof {
                        lemma_lookup_no_match(self.scopes@[i as int]@, name.lexeme@);
                    }
                },
            }
        }
        proof {
            assert(self.scopes@.take(0) =~= Seq::<Vec<(String, bool)>>::empty());
        }
        false
    }

    /// Opens a block scope.
    fn begin_scope(&mut self)
        ensures
            final(self).scopes@.len() == old(self).scopes@.len() + 1,
            forall|i: int|
                0 <= i < old(self).scopes@.len() ==> final(self).scopes@[i] == old(
                    self,
                ).scopes@[i],
            final(self).scopes@.last()@ == Seq::<(String, bool)>::empty(),
            final(self).had_error == old(self).had_error,
            final(self).errors == old(self).errors,
            final(self).locals == old(self).locals,
            final(self).current_function == old(self).current_function,
    {
        self.scopes.push(Vec::new());
    }

    /// Closes the innermost scope.
    fn end_scope(&mut self)
        requires
            old(self).scopes@.len() > 0,
        ensures
            final(self).scopes@ == old(self).scopes@.drop_last(),
            final(self).scopes@.len() == old(self).scopes@.len() - 1,
            final(self).had_error == old(self).had_error,
            final(self).errors == old(self).errors,
            final(self).locals == old(self).locals,
            final(self).current_function == old(self).current_function,
    {
        self.scopes.pop();
    }

    /// Declares a name in the innermost scope, not yet initialized;
    /// redeclaring a name in the same scope is a reported error.  At
    /// the top level, with no scope open, names live in the global
    /// scope and this is a no-op.
    fn declare(&mut self, name: &Token)
        ensures
            final(self).scopes@.len() == old(self).scopes@.len(),
            final(self).current_function == old(self).current_function,
            final(self).locals == old(self).locals,
            final(self).errors@.len() >= old(self).errors@.len(),
            (old(self).had_error ==> final(self).had_error),
            (final(self).had_error ==> old(self).had_error || final(self).errors@.len() > old(
                self,
            ).errors@.len()),
            (final(self).errors@.len() > old(self).errors@.len() ==> final(self).had_error),
            forall|i: int|
                0 <= i < old(self).scopes@.len() && i != old(self).scopes@.len() - 1
                    ==> final(self).scopes@[i] == old(self).scopes@[i],
            old(self).scopes@.len() > 0 && lookup_pairs(
                old(self).scopes@.last()@,
                name.lexeme@,
            ) is None ==> final(self).scopes@.last()@ == old(self).scopes@.last()@.push(
                (name.lexeme, false),
            ),
            old(self).scopes@.len() > 0 && lookup_pairs(
                old(self).scopes@.last()@,
                name.lexeme@,
            ) is Some ==> final(self).had_error && final(self).scopes == old(self).scopes,
    {
        let l = self.scopes.len();
        if l == 0 {
            return ;
        }
        match scope_flag(&self.scopes[l - 1], name.lexeme.as_str()) {
            Some(_) => {
                self.error(name, "Variable with this name already declared in this scope.");
            },
            None => {
                let scope = &mut self.scopes[l - 1];
                scope.push((name.lexeme.clone(), false));
            },
        }
    }

    /// Marks a name in the innermost scope as fully initialized.
    fn define(&mut self, name: &Token)
        ensures
            final(self).scopes@.len() == old(self).scopes@.len(),
            final(self).current_function == old(self).current_function,
            final(self).locals == old(self).locals,
            final(self).errors == old(self).errors,
            final(self).had_error == old(self).had_error,
            forall|i: int|
                0 <= i < old(self).scopes@.len() && i != old(self).scopes@.len() - 1
                    ==> final(self).scopes@[i] == old(self).scopes@[i],
            old(self).scopes@.len() > 0 ==> final(self).scopes@.last()@ == old(
                self,
            ).scopes@.last()@.push((name.lexeme, true)),
            old(self).scopes@.len() > 0 ==> lookup_pairs(
                final(self).scopes@.last()@,
                name.lexeme@,
            ) == Some(true),
    {
        let l = self.scopes.len();
        if l == 0 {
            return ;
        }
        let scope = &mut self.scopes[l - 1];
        scope.push((name.lexeme.clone(), true));
    }

    /// Marks an implicit name (`this`, `super`) in the innermost
    /// scope as initialized.
    fn define_name_str(&mut self, name: &str)
        ensures
            final(self).scopes@.len() == old(self).scopes@.len(),
            final(self).current_function == old(self).current_function,
            final(self).locals == old(self).locals,
            final(self).errors == old(self).errors,
            final(self).had_error == old(self).had_error,
            old(self).scopes@.len() > 0 ==> lookup_pairs(
                final(self).scopes@.last()@,
                name@,
            ) == Some(true),
    {
        let l = self.scopes.len();
        if l == 0 {
            return ;
        }
        let scope = &mut self.scopes[l - 1];
        scope.push((String::from_str(name), true));
    }

    /// Reports a static-scope error and goes on resolving.
    fn error(&mut self, token: &Token, message: &str)
        ensures
            final(self).scopes == old(self).scopes,
            final(self).current_function == old(self).current_function,
            final(self).locals == old(self).locals,
            final(self).had_error,
            final(self).errors@.len() == old(self).errors@.len() + 1,
            (final(self).errors@.last() matches Error::RuntimeError { token: t, message: _ }
                && t == *token),
    {
        self.had_error = true;
        self.errors.push(Error::runtime_error(token, message));
    }
}

/// A fresh, empty innermost scope shifts every recorded distance by
/// one and hides nothing.
proof fn lemma_distance_under_empty_scope(
    s1: Seq<Vec<(String, bool)>>,
    s2: Seq<Vec<(String, bool)>>,
    name: Seq<char>,
)
    requires
        s1.len() == s2.len() + 1,
        s1.last()@.len() == 0,
        forall|j: int| 0 <= j < s2.len() ==> s1[j] == s2[j],
    ensures
        spec_distance(s1, name) == (match spec_distance(s2, name) {
            Some(d) => Some(d + 1),
            None => None::<int>,
        }),
{
    assert(lookup_pairs(s1.last()@, name) is None);
    assert(s1.drop_last() =~= s2);
}

/// The recorded flag of `name` in one scope, newest binding first.
fn scope_flag(scope: &Vec<(String, bool)>, name: &str) -> (r: Option<bool>)
    ensures
        r == lookup_pairs(scope@, name@),
{
    match find_last(scope, name) {
        Some(i) => {
            proof {
                lemma_lookup_at_last_match(scope@, name@, i as int);
            }
            Some(scope[i].1)
        },
        None => {
            proof {
                lemma_lookup_no_match(scope@, name@);
            }
            None
        },
    }
}

} // verus!
