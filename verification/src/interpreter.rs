//! The evaluator.
//!
//! The interpreter executes statements and evaluates expressions
//! against the scope store, consulting the binding-distance table the
//! resolver filled in to jump directly to the right scope.  Statement
//! execution returns a tri-state flow — normal completion or an
//! explicit `return` carrying its value — beside the error channel, so
//! non-local exit is not an error in disguise.
//!
//! Execution is metered: every recursive step spends one unit of fuel,
//! and a run that exhausts its budget stops with a reported system
//! error.  This is what makes every loop and recursion here provably
//! terminating while the interpreted language itself has unbounded
//! loops.

use vstd::prelude::*;

verus! {

use vstd::arithmetic::div_mod::{lemma_div_is_ordered_by_denominator, lemma_div_nonincreasing};
use vstd::string::StringExecFns;

use crate::class::{classes_wf, spec_find_method, ClassStruct};
use crate::environment::{lookup_pairs, Environment};
use crate::errors::Error;
use crate::expr::{Expr, LiteralExpr};
use crate::functions::Function;
use crate::instance::InstanceStruct;
use crate::numbers::{i64_to_string, int_rep, u64_to_string};
use crate::program::Program;
use crate::stmt::Stmt;
use crate::tokens::{str_eq, Object, Token, TokenKind};

/// How a statement finished: normally, or by an explicit `return`
/// carrying a value.  Errors travel beside this, in `Result`'s error
/// arm.
pub enum Flow {
    Normal,
    Return(Object),
}

/// The truthiness rule: only `nil` and `false` are falsy.
pub open spec fn spec_truthy(v: Object) -> bool {
    match v {
        Object::Nil => false,
        Object::Bool(b) => b,
        _ => true,
    }
}

/// Whether a value counts as true in a condition.
pub fn is_truthy(v: &Object) -> (r: bool)
    ensures
        r == spec_truthy(*v),
{
    match v {
        Object::Nil => false,
        Object::Bool(b) => *b,
        _ => true,
    }
}

/// The value a literal expression denotes: its payload, or nil when
/// it has none.
pub open spec fn literal_value(l: LiteralExpr) -> Object {
    match l.value {
        Some(v) => v,
        None => Object::Nil,
    }
}

/// Whether statement `sid` is a print statement whose expression is a
/// literal.
pub open spec fn is_print_of_literal(p: Program, sid: int) -> bool {
    match p.stmts@[sid] {
        Stmt::Print(pr) => p.exprs@[pr.expression as int] is Literal,
        _ => false,
    }
}

/// A declaration touches only the current scope's binding of its own
/// name: every other scope, and every other name of the current
/// scope, reads as before.
pub open spec fn var_frame(pre: Interpreter, post: Interpreter, env: int, name: Seq<char>) -> bool {
    &&& (forall|i: int|
        0 <= i < pre.envs.scopes@.len() && i != env ==> #[trigger] post.envs.scopes@[i]
            == pre.envs.scopes@[i])
    &&& (forall|m: Seq<char>|
        m != name ==> #[trigger] post.envs.scope_lookup(env, m) == pre.envs.scope_lookup(env, m))
}

/// What a finished class declaration leaves behind: the newest class
/// carries the statement's name, superclass-someness and one method
/// per declaration — each method's function record matching its
/// declaration, the one named `init` flagged, closing over a scope
/// that binds `super` to the recorded superclass when one exists —
/// and the scope chain answers the class name with that class value.
pub open spec fn class_outcome(
    pre: Interpreter,
    post: Interpreter,
    p: Program,
    c: crate::stmt::ClassStmt,
    env: int,
) -> bool {
    let cid = post.classes@.len() - 1;
    let cls = post.classes@[cid];
    &&& post.classes@.len() > pre.classes@.len()
    &&& cls.name@ == c.name.lexeme@
    &&& (cls.superclass is Some <==> c.superclass is Some)
    &&& cls.methods@.len() == c.methods@.len()
    &&& (forall|j: int|
        0 <= j < c.methods@.len() ==> (#[trigger] cls.methods@[j]).1 < post.functions@.len())
    &&& (forall|j: int|
        0 <= j < c.methods@.len() ==> match p.stmts@[c.methods@[j] as int] {
            Stmt::Function(m) => {
                let f = post.functions@[(#[trigger] cls.methods@[j]).1 as int];
                &&& cls.methods@[j].0@ == m.name.lexeme@
                &&& f.name == m.name
                &&& f.params@ == m.params@
                &&& f.body@ == m.body@
                &&& f.is_initializer == (m.name.lexeme@ == "init"@)
                &&& f.closure < post.envs.scopes@.len()
                &&& match cls.superclass {
                    Some(sc) => post.envs.scope_lookup(f.closure as int, "super"@) == Some(
                        Object::Class(sc),
                    ),
                    None => true,
                }
            },
            _ => true,
        })
    &&& post.envs.chain_lookup(env, c.name.lexeme@) == Some(
        Object::Class((post.classes@.len() - 1) as usize),
    )
}

/// The value a variable reference denotes in a run state: read at the
/// recorded binding distance, or from the global scope when none is
/// recorded; `None` when the read misses, which the evaluator reports
/// as an undefined variable.
pub open spec fn var_value(st: Interpreter, eid: int, env: int, name: Seq<char>) -> Option<Object> {
    match st.distance_of(eid) {
        Some(d) => st.envs.distance_lookup(env, d as int, name),
        None => st.envs.chain_lookup(0, name),
    }
}

/// A number when it fits in the numeric type, the arithmetic-error
/// sentinel when it does not.
pub open spec fn num_of(x: int) -> Object {
    if i64::MIN <= x <= i64::MAX {
        Object::Num(x as i64)
    } else {
        Object::ArithmeticError
    }
}

/// Division truncated toward zero, as the host machine divides.
pub open spec fn trunc_div(a: int, b: int) -> int {
    let q = abs_int(a) / abs_int(b);
    if (a < 0) != (b < 0) {
        -q
    } else {
        q
    }
}

pub open spec fn abs_int(a: int) -> int {
    if a < 0 {
        -a
    } else {
        a
    }
}

/// The result of a binary operator on two numbers.  Overflow and
/// division by zero yield the arithmetic-error sentinel, as does an
/// operator that numbers do not support.
pub open spec fn num_result(op: TokenKind, a: i64, b: i64) -> Object {
    match op {
        TokenKind::Minus => num_of(a - b),
        TokenKind::Slash => if b == 0 {
            Object::ArithmeticError
        } else {
            num_of(trunc_div(a as int, b as int))
        },
        TokenKind::Asterisk => num_of(a * b),
        TokenKind::Plus => num_of(a + b),
        TokenKind::GreaterThan => Object::Bool(a > b),
        TokenKind::GreaterThanEqual => Object::Bool(a >= b),
        TokenKind::LessThan => Object::Bool(a < b),
        TokenKind::LessThanEqual => Object::Bool(a <= b),
        TokenKind::NotEqual => Object::Bool(a != b),
        TokenKind::EqualEqual => Object::Bool(a == b),
        _ => Object::ArithmeticError,
    }
}

/// What binary-operator evaluation must return, by the runtime types
/// of both operands.  The relation pins the result completely; it is a
/// relation only because a spec cannot build the `String` a
/// concatenation returns.
pub open spec fn binary_result_ok(op: TokenKind, l: Object, r: Object, res: Object) -> bool {
    match (l, r) {
        (Object::Num(a), Object::Num(b)) => res == num_result(op, a, b),
        (Object::Str(a), Object::Str(b)) => match op {
            TokenKind::Plus => res matches Object::Str(s) && s@ == a@ + b@,
            TokenKind::NotEqual => res == Object::Bool(a@ != b@),
            TokenKind::EqualEqual => res == Object::Bool(a@ == b@),
            _ => res == Object::ArithmeticError,
        },
        (Object::Str(a), Object::Num(b)) => match op {
            TokenKind::Plus => res matches Object::Str(s) && s@ == a@ + int_rep(b as int),
            _ => res == Object::ArithmeticError,
        },
        (Object::Num(a), Object::Str(b)) => match op {
            TokenKind::Plus => res matches Object::Str(s) && s@ == int_rep(a as int) + b@,
            _ => res == Object::ArithmeticError,
        },
        (Object::Bool(a), Object::Bool(b)) => match op {
            TokenKind::NotEqual => res == Object::Bool(a != b),
            TokenKind::EqualEqual => res == Object::Bool(a == b),
            _ => res == Object::ArithmeticError,
        },
        (Object::Nil, Object::Nil) => match op {
            TokenKind::NotEqual => res == Object::Bool(false),
            TokenKind::EqualEqual => res == Object::Bool(true),
            _ => res == Object::ArithmeticError,
        },
        (Object::Nil, _) => match op {
            TokenKind::NotEqual => res == Object::Bool(true),
            TokenKind::EqualEqual => res == Object::Bool(false),
            _ => res == Object::ArithmeticError,
        },
        _ => res == Object::ArithmeticError,
    }
}

/// The result of a unary operator.  Negating the one number with no
/// positive counterpart yields the arithmetic-error sentinel; negating
/// a non-number quietly yields `nil`.
pub open spec fn unary_result(op: TokenKind, v: Object) -> Object {
    match op {
        TokenKind::Minus => match v {
            Object::Num(x) => if x == i64::MIN {
                Object::ArithmeticError
            } else {
                Object::Num((-x) as i64)
            },
            _ => Object::Nil,
        },
        TokenKind::Bang => Object::Bool(!spec_truthy(v)),
        _ => Object::ArithmeticError,
    }
}

/// Evaluates a unary operator on an already-evaluated operand.
pub fn eval_unary(op: TokenKind, v: &Object) -> (res: Object)
    ensures
        res == unary_result(op, *v),
{
    match op {
        TokenKind::Minus => match v {
            Object::Num(x) => if *x == i64::MIN {
                Object::ArithmeticError
            } else {
                Object::Num(-*x)
            },
            _ => Object::Nil,
        },
        TokenKind::Bang => Object::Bool(!is_truthy(v)),
        _ => Object::ArithmeticError,
    }
}

/// Evaluates a binary operator on two already-evaluated operands,
/// dispatching on the runtime type pair.
pub fn eval_binary(op: TokenKind, left: &Object, right: &Object) -> (res: Object)
    ensures
        binary_result_ok(op, *left, *right, res),
{
    match (left, right) {
        (Object::Num(a), Object::Num(b)) => eval_binary_nums(op, *a, *b),
        (Object::Str(a), Object::Str(b)) => {
            if op == TokenKind::Plus {
                Object::Str(a.clone().concat(b.as_str()))
            } else if op == TokenKind::NotEqual {
                Object::Bool(!str_eq(a.as_str(), b.as_str()))
            } else if op == TokenKind::EqualEqual {
                Object::Bool(str_eq(a.as_str(), b.as_str()))
            } else {
                Object::ArithmeticError
            }
        },
        (Object::Str(a), Object::Num(b)) => {
            if op == TokenKind::Plus {
                Object::Str(a.clone().concat(i64_to_string(*b).as_str()))
            } else {
                Object::ArithmeticError
            }
        },
        (Object::Num(a), Object::Str(b)) => {
            if op == TokenKind::Plus {
                Object::Str(i64_to_string(*a).concat(b.as_str()))
            } else {
                Object::ArithmeticError
            }
        },
        (Object::Bool(a), Object::Bool(b)) => {
            if op == TokenKind::NotEqual {
                Object::Bool(*a != *b)
            } else if op == TokenKind::EqualEqual {
                Object::Bool(*a == *b)
            } else {
                Object::ArithmeticError
            }
        },
        (Object::Nil, Object::Nil) => {
            if op == TokenKind::NotEqual {
                Object::Bool(false)
            } else if op == TokenKind::EqualEqual {
                Object::Bool(true)
            } else {
                Object::ArithmeticError
            }
        },
        (Object::Nil, _) => {
            if op == TokenKind::NotEqual {
                Object::Bool(true)
            } else if op == TokenKind::EqualEqual {
                Object::Bool(false)
            } else {
                Object::ArithmeticError
            }
        },
        _ => Object::ArithmeticError,
    }
}

/// Number-number binary evaluation, with overflow and zero-divisor
/// checks.
fn eval_binary_nums(op: TokenKind, a: i64, b: i64) -> (res: Object)
    ensures
        res == num_result(op, a, b),
{
    match op {
        TokenKind::Minus => clamp_i128((a as i128) - (b as i128)),
        TokenKind::Slash => {
            if b == 0 {
                Object::ArithmeticError
            } else {
                div_trunc_exec(a, b)
            }
        },
        TokenKind::Asterisk => mul_i64(a, b),
        TokenKind::Plus => clamp_i128((a as i128) + (b as i128)),
        TokenKind::GreaterThan => Object::Bool(a > b),
        TokenKind::GreaterThanEqual => Object::Bool(a >= b),
        TokenKind::LessThan => Object::Bool(a < b),
        TokenKind::LessThanEqual => Object::Bool(a <= b),
        TokenKind::NotEqual => Object::Bool(a != b),
        TokenKind::EqualEqual => Object::Bool(a == b),
        _ => Object::ArithmeticError,
    }
}

/// Multiplication through a wide intermediate.
fn mul_i64(a: i64, b: i64) -> (res: Object)
    ensures
        res == num_of((a as int) * (b as int)),
{
    let wa: i128 = a as i128;
    let wb: i128 = b as i128;
    proof {
        assert(-0x80000000000000000000000000000000 <= (wa as int) * (wb as int)
            < 0x80000000000000000000000000000000) by (nonlinear_arith)
            requires
                -0x8000000000000000 <= wa as int <= 0x7fffffffffffffff,
                -0x8000000000000000 <= wb as int <= 0x7fffffffffffffff,
        ;
    }
    clamp_i128(wa * wb)
}

/// A number when the wide intermediate fits, the sentinel otherwise.
fn clamp_i128(x: i128) -> (res: Object)
    ensures
        res == num_of(x as int),
{
    if x >= (i64::MIN as i128) && x <= (i64::MAX as i128) {
        Object::Num(x as i64)
    } else {
        Object::ArithmeticError
    }
}

/// The default step budget of a run.
pub const DEFAULT_FUEL: u64 = 1000000000;

/// The interpreter's run state: the scope store, the value arenas,
/// the binding-distance table, the lines printed so far, and the
/// errors a run reported.
pub struct Interpreter {
    pub envs: Environment,
    pub globals: usize,
    pub functions: Vec<Function>,
    pub classes: Vec<ClassStruct>,
    pub instances: Vec<InstanceStruct>,
    pub locals: Vec<Option<usize>>,
    pub output: Vec<String>,
    pub errors: Vec<Error>,
}

/// What any evaluation step may do to the run state: scopes are only
/// added and existing enclosing links never move; functions and
/// classes are only appended and never rewritten; an instance never
/// changes its class; printed lines are only appended; and the
/// binding-distance table stays as the resolver left it.
pub open spec fn evolution(pre: Interpreter, post: Interpreter) -> bool {
    &&& pre.envs.scopes@.len() <= post.envs.scopes@.len()
    &&& forall|i: int|
        0 <= i < pre.envs.scopes@.len() ==> (#[trigger] post.envs.scopes@[i]).enclosing
            == pre.envs.scopes@[i].enclosing
    &&& pre.functions@.len() <= post.functions@.len()
    &&& forall|i: int| 0 <= i < pre.functions@.len() ==> #[trigger] post.functions@[i] == pre.functions@[i]
    &&& pre.classes@.len() <= post.classes@.len()
    &&& forall|i: int| 0 <= i < pre.classes@.len() ==> #[trigger] post.classes@[i] == pre.classes@[i]
    &&& pre.instances@.len() <= post.instances@.len()
    &&& forall|i: int|
        0 <= i < pre.instances@.len() ==> (#[trigger] post.instances@[i]).class
            == pre.instances@[i].class
    &&& post.locals == pre.locals
    &&& post.globals == pre.globals
    &&& post.output@.len() >= pre.output@.len()
    &&& forall|i: int| 0 <= i < pre.output@.len() ==> #[trigger] post.output@[i] == pre.output@[i]
    &&& post.errors == pre.errors
}

impl Interpreter {
    /// The scope store is well-formed, inheritance chains are
    /// acyclic, and the global scope is scope 0.
    pub open spec fn wf(self) -> bool {
        &&& self.envs.wf()
        &&& classes_wf(self.classes@)
        &&& self.globals == 0
    }

    /// The recorded binding distance of the expression node `eid`.
    pub open spec fn distance_of(self, eid: int) -> Option<usize> {
        if 0 <= eid < self.locals@.len() {
            self.locals@[eid]
        } else {
            None
        }
    }

    /// A fresh run state whose global scope holds the one native
    /// capability, `clock`.
    pub fn new() -> (terp: Interpreter)
        ensures
            terp.wf(),
            terp.envs.scopes@.len() == 1,
            terp.envs.scopes@[0].bindings@.len() == 1,
            terp.envs.scopes@[0].bindings@[0].0@ == "clock"@,
            terp.envs.scopes@[0].bindings@[0].1 == Object::Native,
            terp.envs.chain_lookup(0, "clock"@) == Some(Object::Native),
            forall|m: Seq<char>| m != "clock"@ ==> #[trigger] terp.envs.chain_lookup(0, m) is None,
            terp.functions@.len() == 0,
            terp.classes@.len() == 0,
            terp.instances@.len() == 0,
            terp.locals@.len() == 0,
            terp.output@.len() == 0,
            terp.errors@.len() == 0,
            terp.globals == 0,
    {
        let mut envs = Environment::new();
        envs.define(0, String::from_str("clock"), Object::Native);
        Interpreter {
            envs,
            globals: 0,
            functions: Vec::new(),
            classes: Vec::new(),
            instances: Vec::new(),
            locals: Vec::new(),
            output: Vec::new(),
            errors: Vec::new(),
        }
    }

    /// Records the binding distance the resolver computed for the
    /// expression node `expr_id`.  Entries are write-once per
    /// resolution pass; everything else is untouched.
    pub fn resolve(&mut self, expr_id: usize, depth: usize)
        ensures
            final(self).locals@.len() >= old(self).locals@.len(),
            expr_id < final(self).locals@.len(),
            final(self).locals@[expr_id as int] == Some(depth),
            forall|i: int|
                0 <= i < final(self).locals@.len() && i != expr_id
                    ==> #[trigger] final(self).locals@[i] == (if i < old(self).locals@.len() {
                    old(self).locals@[i]
                } else {
                    None::<usize>
                }),
            final(self).envs == old(self).envs,
            final(self).globals == old(self).globals,
            final(self).functions == old(self).functions,
            final(self).classes == old(self).classes,
            final(self).instances == old(self).instances,
            final(self).output == old(self).output,
            final(self).errors == old(self).errors,
    {
        while self.locals.len() <= expr_id
            invariant
                self.locals@.len() >= old(self).locals@.len(),
                forall|i: int|
                    0 <= i < self.locals@.len() ==> #[trigger] self.locals@[i] == (if i < old(
                        self,
                    ).locals@.len() {
                        old(self).locals@[i]
                    } else {
                        None::<usize>
                    }),
                self.envs == old(self).envs,
                self.globals == old(self).globals,
                self.functions == old(self).functions,
                self.classes == old(self).classes,
                self.instances == old(self).instances,
                self.output == old(self).output,
                self.errors == old(self).errors,
            decreases expr_id + 1 - self.locals@.len(),
        {
            self.locals.push(None);
        }
        self.locals[expr_id] = Some(depth);
    }

    /// The recorded distance for `eid`, read back.
    fn lookup_distance(&self, eid: usize) -> (r: Option<usize>)
        ensures
            r == self.distance_of(eid as int),
    {
        if eid < self.locals.len() {
            self.locals[eid]
        } else {
            None
        }
    }

    /// Reads a variable: through `get_at` at the recorded distance
    /// when the resolver recorded one, through the global scope when
    /// it did not.
    pub fn look_up_variable(&self, name: &Token, expr_id: usize, env: usize) -> (r: Result<
        Object,
        Error,
    >)
        requires
            self.wf(),
            env < self.envs.scopes@.len(),
        ensures
            match var_value(*self, expr_id as int, env as int, name.lexeme@) {
                Some(v) => r matches Ok(w) && w == v,
                None => (r matches Err(e) && (e matches Error::RuntimeError {
                    token: t,
                    message: _,
                } && t == *name)),
            },
    {
        match self.lookup_distance(expr_id) {
            Some(d) => match self.envs.get_at(env, d, name.lexeme.as_str()) {
                Some(v) => Ok(v),
                None => Err(crate::environment::undefined_variable(name)),
            },
            None => self.envs.get(self.globals, name),
        }
    }

    /// The display text of a value in this run state.
    pub open spec fn obj_text(self, v: Object) -> Seq<char> {
        match v {
            Object::Num(x) => int_rep(x as int),
            Object::Str(s) => s@,
            Object::Bool(b) => if b {
                "true"@
            } else {
                "false"@
            },
            Object::Nil => "nil"@,
            Object::ArithmeticError => "Arithmetic Error"@,
            Object::Native => "<native>"@,
            Object::Function(f) => if 0 <= f < self.functions@.len() {
                "<fn "@ + self.functions@[f as int].name.lexeme@ + ">"@
            } else {
                "<fn>"@
            },
            Object::Class(c) => if 0 <= c < self.classes@.len() {
                self.classes@[c as int].name@
            } else {
                "<class>"@
            },
            Object::Instance(i) => if 0 <= i < self.instances@.len()
                && self.instances@[i as int].class < self.classes@.len() {
                "<instance "@ + self.classes@[self.instances@[i as int].class as int].name@
                    + ">"@
            } else {
                "<instance>"@
            },
        }
    }

    /// Renders a value for display: numbers in decimal, strings
    /// unquoted, booleans and nil by name, functions as `<fn name>`,
    /// classes by their name.
    pub fn stringify(&self, v: &Object) -> (s: String)
        ensures
            s@ == self.obj_text(*v),
    {
        proof {
            reveal_strlit("true");
            reveal_strlit("false");
            reveal_strlit("nil");
            reveal_strlit("Arithmetic Error");
            reveal_strlit("<native>");
            reveal_strlit("<fn ");
            reveal_strlit(">");
            reveal_strlit("<fn>");
            reveal_strlit("<class>");
            reveal_strlit("<instance ");
            reveal_strlit("<instance>");
        }
        match v {
            Object::Num(x) => i64_to_string(*x),
            Object::Str(s) => s.clone(),
            Object::Bool(b) => if *b {
                "true".to_owned()
            } else {
                "false".to_owned()
            },
            Object::Nil => "nil".to_owned(),
            Object::ArithmeticError => "Arithmetic Error".to_owned(),
            Object::Native => "<native>".to_owned(),
            Object::Function(f) => {
                if *f < self.functions.len() {
                    let mut s = "<fn ".to_owned();
                    s.append(self.functions[*f].name.lexeme.as_str());
                    s.append(">");
                    s
                } else {
                    "<fn>".to_owned()
                }
            },
            Object::Class(c) => {
                if *c < self.classes.len() {
                    self.classes[*c].name.clone()
                } else {
                    "<class>".to_owned()
                }
            },
            Object::Instance(i) => {
                if *i < self.instances.len() && self.instances[*i].class < self.classes.len() {
                    let mut s = "<instance ".to_owned();
                    s.append(self.classes[self.instances[*i].class].name.as_str());
                    s.append(">");
                    s
                } else {
                    "<instance>".to_owned()
                }
            },
        }
    }
}

impl Interpreter {
    /// Evaluates the expression node `eid` in scope `env`.
    ///
    /// The contract pins the frame of every step; variable, `this`
    /// and `super` references exactly, by the recorded distances;
    /// every operator applied to literal operands, including which
    /// pairings become a reported runtime error; assignment,
    /// property access and call validation whenever the receiver or
    /// callee is a variable or literal, read from the entry state.
    /// For operands that are themselves composite the contract states
    /// the frame only: their values come from the same clauses one
    /// node down, a composition the end-to-end tests exercise and the
    /// property and call helpers (`get_property`, `set_property`,
    /// `call_value`) state exactly for every already-evaluated value.
    pub fn evaluate(&mut self, p: &Program, eid: usize, env: usize, fuel: u64) -> (r: Result<
        Object,
        Error,
    >)
        requires
            old(self).wf(),
            p.wf(),
            eid < p.exprs@.len(),
            env < old(self).envs.scopes@.len(),
        ensures
            final(self).wf(),
            evolution(*old(self), *final(self)),
            fuel > 0 ==> (p.exprs@[eid as int] matches Expr::Literal(l) ==> *final(self)
                == *old(self) && match l.value {
                Some(v) => r matches Ok(w) && w == v,
                None => r matches Ok(w) && w == Object::Nil,
            }),
            fuel > 0 ==> (p.exprs@[eid as int] matches Expr::Variable(v) ==> *final(self)
                == *old(self) && (match var_value(
                *old(self),
                eid as int,
                env as int,
                v.name.lexeme@,
            ) {
                Some(w) => r matches Ok(rv) && rv == w,
                None => (r matches Err(e) && (e matches Error::RuntimeError {
                    token: t,
                    message: _,
                } && t == v.name)),
            })),
            fuel > 0 ==> (p.exprs@[eid as int] matches Expr::This(th) ==> *final(self)
                == *old(self) && (match var_value(
                *old(self),
                eid as int,
                env as int,
                th.keyword.lexeme@,
            ) {
                Some(w) => r matches Ok(rv) && rv == w,
                None => (r matches Err(e) && (e matches Error::RuntimeError {
                    token: t,
                    message: _,
                } && t == th.keyword)),
            })),
            fuel > 1 ==> (p.exprs@[eid as int] matches Expr::Binary(b) ==> (
            p.exprs@[b.left as int] matches Expr::Literal(l1) ==> (
            p.exprs@[b.right as int] matches Expr::Literal(l2) ==> match r {
                Ok(w) => binary_result_ok(b.operator.kind, literal_value(l1), literal_value(l2), w)
                    && w != Object::ArithmeticError,
                Err(e) => binary_result_ok(
                    b.operator.kind,
                    literal_value(l1),
                    literal_value(l2),
                    Object::ArithmeticError,
                ) && (e matches Error::RuntimeError { token: t, message: _ } && t == b.operator),
            }))),
            fuel > 0 && r is Ok ==> (p.exprs@[eid as int] matches Expr::Assign(a) ==> (
            r matches Ok(v) ==> match old(self).distance_of(eid as int) {
                Some(d) => (old(self).envs.ancestor(env as int, d as int) matches Some(w)
                    && final(self).envs.scope_lookup(w, a.name.lexeme@) == Some(v)),
                None => final(self).envs.chain_lookup(0, a.name.lexeme@) == Some(v),
            })),
            fuel > 1 ==> (p.exprs@[eid as int] matches Expr::Assign(a) ==> (
            p.exprs@[a.value as int] matches Expr::Literal(l) ==> match old(self).distance_of(
                eid as int,
            ) {
                Some(d) => match old(self).envs.distance_lookup(env as int, d as int, a.name.lexeme@) {
                    Some(_) => r matches Ok(w) && w == literal_value(l),
                    None => (r matches Err(e) && (e matches Error::RuntimeError {
                        token: t,
                        message: _,
                    } && t == a.name)),
                },
                None => match old(self).envs.chain_lookup(0, a.name.lexeme@) {
                    Some(_) => r matches Ok(w) && w == literal_value(l),
                    None => (r matches Err(e) && (e matches Error::RuntimeError {
                        token: t,
                        message: _,
                    } && t == a.name)),
                },
            })),
            fuel > 1 ==> (p.exprs@[eid as int] matches Expr::Get(g) ==> (
            p.exprs@[g.object as int] matches Expr::Literal(_) ==> (r matches Err(e) && (
            e matches Error::RuntimeError { token: t, message: _ } && t == g.name)))),
            fuel > 1 ==> (p.exprs@[eid as int] matches Expr::SetField(sf) ==> (
            p.exprs@[sf.object as int] matches Expr::Literal(_) ==> (r matches Err(e) && (
            e matches Error::RuntimeError { token: t, message: _ } && t == sf.name)))),
            fuel > 1 ==> (p.exprs@[eid as int] matches Expr::Get(g) ==> (
            p.exprs@[g.object as int] matches Expr::Variable(ov) ==> match var_value(
                *old(self),
                g.object as int,
                env as int,
                ov.name.lexeme@,
            ) {
                Some(recv) => match recv {
                    Object::Instance(iid) => (iid < old(self).instances@.len()) ==> (
                    match lookup_pairs(
                        old(self).instances@[iid as int].fields@,
                        g.name.lexeme@,
                    ) {
                        Some(fv) => r matches Ok(w) && w == fv,
                        None => (old(self).instances@[iid as int].class
                            < old(self).classes@.len()) ==> (match spec_find_method(
                            old(self).classes@,
                            old(self).instances@[iid as int].class as int,
                            g.name.lexeme@,
                        ) {
                            Some(mfid) => (mfid < old(self).functions@.len() && old(
                                self,
                            ).functions@[mfid as int].closure < old(self).envs.scopes@.len())
                                ==> (r matches Ok(w) && w == Object::Function(
                                old(self).functions@.len() as usize,
                            ) && final(self).envs.scope_lookup(
                                (final(self).envs.scopes@.len() - 1) as int,
                                "this"@,
                            ) == Some(recv)),
                            None => (r matches Err(e) && (e matches Error::RuntimeError {
                                token: t,
                                message: _,
                            } && t == g.name)),
                        }),
                    }),
                    _ => (r matches Err(e) && (e matches Error::RuntimeError {
                        token: t,
                        message: _,
                    } && t == g.name)),
                },
                None => (r matches Err(e) && e matches Error::RuntimeError { .. }),
            })),
            fuel > 1 ==> (p.exprs@[eid as int] matches Expr::SetField(sf) ==> (
            p.exprs@[sf.object as int] matches Expr::Variable(ov) ==> (
            p.exprs@[sf.value as int] matches Expr::Literal(lv) ==> match var_value(
                *old(self),
                sf.object as int,
                env as int,
                ov.name.lexeme@,
            ) {
                Some(recv) => match recv {
                    Object::Instance(iid) => (iid < old(self).instances@.len()) ==> (
                    r matches Ok(w) && w == literal_value(lv) && lookup_pairs(
                        final(self).instances@[iid as int].fields@,
                        sf.name.lexeme@,
                    ) == Some(literal_value(lv))),
                    _ => (r matches Err(e) && (e matches Error::RuntimeError {
                        token: t,
                        message: _,
                    } && t == sf.name)),
                },
                None => (r matches Err(e) && e matches Error::RuntimeError { .. }),
            }))),
            fuel > 1 ==> (p.exprs@[eid as int] matches Expr::Call(c) ==> (
            c.arguments@.len() == 0 ==> ({
                &&& (p.exprs@[c.callee as int] matches Expr::Literal(_) ==> (r matches Err(e)
                    && (e matches Error::RuntimeError { token: t, message: _ } && t == c.paren)))
                &&& (p.exprs@[c.callee as int] matches Expr::Variable(cv) ==> match var_value(
                    *old(self),
                    c.callee as int,
                    env as int,
                    cv.name.lexeme@,
                ) {
                    Some(callee) => match callee {
                        Object::Function(fid) => (fid < old(self).functions@.len() && old(
                            self,
                        ).functions@[fid as int].params@.len() != 0) ==> (r matches Err(e) && (
                        e matches Error::RuntimeError { token: t, message: _ } && t == c.paren)),
                        Object::Num(_) => (r matches Err(e) && (e matches Error::RuntimeError {
                            token: t,
                            message: _,
                        } && t == c.paren)),
                        Object::Str(_) => (r matches Err(e) && (e matches Error::RuntimeError {
                            token: t,
                            message: _,
                        } && t == c.paren)),
                        Object::Bool(_) => (r matches Err(e) && (e matches Error::RuntimeError {
                            token: t,
                            message: _,
                        } && t == c.paren)),
                        Object::Nil => (r matches Err(e) && (e matches Error::RuntimeError {
                            token: t,
                            message: _,
                        } && t == c.paren)),
                        Object::Instance(_) => (r matches Err(e) && (
                        e matches Error::RuntimeError { token: t, message: _ } && t == c.paren)),
                        _ => true,
                    },
                    None => (r matches Err(e) && e matches Error::RuntimeError { .. }),
                })
            }))),
            fuel > 0 ==> (p.exprs@[eid as int] matches Expr::Super(sx) ==> match old(
                self,
            ).distance_of(eid as int) {
                Some(d) => match old(self).envs.distance_lookup(env as int, d as int, "super"@) {
                    Some(sup) => match sup {
                        Object::Class(scid) => (scid < old(self).classes@.len() && d >= 1) ==> (
                        match old(self).envs.distance_lookup(env as int, d - 1, "this"@) {
                            Some(robj) => match spec_find_method(
                                old(self).classes@,
                                scid as int,
                                sx.method.lexeme@,
                            ) {
                                Some(mfid) => (mfid < old(self).functions@.len() && old(
                                    self,
                                ).functions@[mfid as int].closure < old(self).envs.scopes@.len())
                                    ==> (r matches Ok(w) && w == Object::Function(
                                    old(self).functions@.len() as usize,
                                ) && final(self).functions@.len() == old(self).functions@.len() + 1
                                    && ({
                                    let g = final(self).functions@[old(
                                        self,
                                    ).functions@.len() as int];
                                    &&& g.name == old(self).functions@[mfid as int].name
                                    &&& g.params@ == old(self).functions@[mfid as int].params@
                                    &&& g.body@ == old(self).functions@[mfid as int].body@
                                    &&& final(self).envs.scope_lookup(g.closure as int, "this"@)
                                        == Some(robj)
                                    &&& final(self).envs.scopes@[g.closure as int].enclosing
                                        == Some(old(self).functions@[mfid as int].closure)
                                })),
                                None => (r matches Err(e) && (e matches Error::RuntimeError {
                                    token: t,
                                    message: _,
                                } && t == sx.method)),
                            },
                            None => (r matches Err(e) && e matches Error::RuntimeError { .. }),
                        }),
                        _ => (r matches Err(e) && e matches Error::RuntimeError { .. }),
                    },
                    None => (r matches Err(e) && e matches Error::RuntimeError { .. }),
                },
                None => (r matches Err(e) && e matches Error::RuntimeError { .. }),
            }),
            fuel > 1 ==> (p.exprs@[eid as int] matches Expr::Logical(lg) ==> (
            p.exprs@[lg.left as int] matches Expr::Literal(l1) ==> (
            p.exprs@[lg.right as int] matches Expr::Literal(l2) ==> (r matches Ok(w) && w == (
            if lg.operator.kind == TokenKind::Or {
                if spec_truthy(literal_value(l1)) {
                    literal_value(l1)
                } else {
                    literal_value(l2)
                }
            } else {
                if !spec_truthy(literal_value(l1)) {
                    literal_value(l1)
                } else {
                    literal_value(l2)
                }
            }))))),
            fuel > 1 ==> (p.exprs@[eid as int] matches Expr::Logical(lg) ==> (
            p.exprs@[lg.left as int] matches Expr::Variable(lv) ==> (
            p.exprs@[lg.right as int] matches Expr::Literal(l2) ==> match var_value(
                *old(self),
                lg.left as int,
                env as int,
                lv.name.lexeme@,
            ) {
                Some(w) => (r matches Ok(rv) && rv == (if lg.operator.kind == TokenKind::Or {
                    if spec_truthy(w) {
                        w
                    } else {
                        literal_value(l2)
                    }
                } else {
                    if !spec_truthy(w) {
                        w
                    } else {
                        literal_value(l2)
                    }
                })),
                None => (r matches Err(e) && e matches Error::RuntimeError { .. }),
            }))),
            fuel > 1 ==> (p.exprs@[eid as int] matches Expr::Unary(u) ==> (
            p.exprs@[u.right as int] matches Expr::Literal(l1) ==> match r {
                Ok(w) => w == unary_result(u.operator.kind, literal_value(l1)) && w
                    != Object::ArithmeticError,
                Err(e) => unary_result(u.operator.kind, literal_value(l1))
                    == Object::ArithmeticError && (e matches Error::RuntimeError {
                    token: t,
                    message: _,
                } && t == u.operator),
            })),
        decreases fuel,
    {
        if fuel == 0 {
            return Err(out_of_fuel());
        }
        let fuel = fuel - 1;
        match &p.exprs[eid] {
            Expr::Literal(l) => match &l.value {
                Some(v) => Ok(v.clone()),
                None => Ok(Object::Nil),
            },
            Expr::Grouping(g) => self.evaluate(p, g.expression, env, fuel),
            Expr::Unary(u) => {
                let right = self.evaluate(p, u.right, env, fuel)?;
                let res = eval_unary(u.operator.kind, &right);
                match res {
                    Object::ArithmeticError => Err(
                        Error::runtime_error(&u.operator, "Invalid unary operator"),
                    ),
                    _ => Ok(res),
                }
            },
            Expr::Binary(b) => {
                let left = self.evaluate(p, b.left, env, fuel)?;
                let right = self.evaluate(p, b.right, env, fuel)?;
                let res = eval_binary(b.operator.kind, &left, &right);
                match res {
                    Object::ArithmeticError => Err(
                        Error::runtime_error(&b.operator, "Invalid binary operator"),
                    ),
                    _ => Ok(res),
                }
            },
            Expr::Logical(l) => {
                let left = self.evaluate(p, l.left, env, fuel)?;
                if l.operator.kind == TokenKind::Or {
                    if is_truthy(&left) {
                        return Ok(left);
                    }
                } else {
                    if !is_truthy(&left) {
                        return Ok(left);
                    }
                }
                self.evaluate(p, l.right, env, fuel)
            },
            Expr::Variable(v) => self.look_up_variable(&v.name, eid, env),
            Expr::This(t) => self.look_up_variable(&t.keyword, eid, env),
            Expr::Assign(a) => {
                let value = self.evaluate(p, a.value, env, fuel)?;
                let ghost mid = *self;
                match self.lookup_distance(eid) {
                    Some(d) => match self.envs.assign_at(env, d, &a.name, value.clone()) {
                        Ok(_) => {
                            proof {
                                crate::environment::lemma_ancestor_congruence(
                                    old(self).envs,
                                    mid.envs,
                                    env as int,
                                    d as int,
                                );
                            }
                            Ok(value)
                        },
                        Err(e) => Err(e),
                    },
                    None => match self.envs.assign(0, &a.name, value.clone()) {
                        Ok(_) => Ok(value),
                        Err(e) => Err(e),
                    },
                }
            },
            Expr::Call(c) => {
                let callee = self.evaluate(p, c.callee, env, fuel)?;
                let args = self.eval_args(p, &c.arguments, env, fuel)?;
                self.call_value(p, callee, args, &c.paren, fuel)
            },
            Expr::Get(g) => {
                let object = self.evaluate(p, g.object, env, fuel)?;
                self.get_property(object, &g.name)
            },
            Expr::SetField(s) => {
                let object = self.evaluate(p, s.object, env, fuel)?;
                match object {
                    Object::Instance(_) => {
                        let value = self.evaluate(p, s.value, env, fuel)?;
                        self.set_property(object, &s.name, value)
                    },
                    _ => Err(Error::runtime_error(&s.name, "Only instances have fields.")),
                }
            },
            Expr::Super(s) => {
                match self.lookup_distance(eid) {
                    Some(distance) => {
                        let sup = match self.envs.get_at(env, distance, "super") {
                            Some(v) => v,
                            None => {
                                return Err(
                                    Error::runtime_error(&s.keyword, "Undefined variable 'super'."),
                                );
                            },
                        };
                        let scid = match sup {
                            Object::Class(x) => x,
                            _ => {
                                return Err(
                                    Error::runtime_error(
                                        &s.keyword,
                                        "'super' must refer to a class.",
                                    ),
                                );
                            },
                        };
                        if scid >= self.classes.len() {
                            return Err(internal_error());
                        }
                        if distance == 0 {
                            return Err(Error::runtime_error(&s.keyword, "Could not find 'this'."));
                        }
                        let object = match self.envs.get_at(env, distance - 1, "this") {
                            Some(v) => v,
                            None => {
                                return Err(
                                    Error::runtime_error(&s.keyword, "Could not find 'this'."),
                                );
                            },
                        };
                        match ClassStruct::find_method(
                            &self.classes,
                            scid,
                            s.method.lexeme.as_str(),
                        ) {
                            Some(mfid) => self.bind_method(mfid, object),
                            None => Err(undefined_property(&s.method)),
                        }
                    },
                    None => Err(Error::runtime_error(&s.keyword, "Undefined variable 'super'.")),
                }
            },
        }
    }

    /// Evaluates a call's arguments, left to right.
    fn eval_args(&mut self, p: &Program, args: &Vec<usize>, env: usize, fuel: u64) -> (r: Result<
        Vec<Object>,
        Error,
    >)
        requires
            old(self).wf(),
            p.wf(),
            forall|k: int| 0 <= k < args@.len() ==> args@[k] < p.exprs@.len(),
            env < old(self).envs.scopes@.len(),
        ensures
            final(self).wf(),
            evolution(*old(self), *final(self)),
            (r matches Ok(vs) ==> vs@.len() == args@.len()),
            fuel > 0 && args@.len() == 0 ==> r is Ok && *final(self) == *old(self),
        decreases fuel,
    {
        if fuel == 0 {
            return Err(out_of_fuel());
        }
        let sub_fuel = fuel - 1;
        let mut values: Vec<Object> = Vec::new();
        let n = args.len();
        if n == 0 {
            return Ok(values);
        }
        let mut i: usize = 0;
        while i < n
            invariant
                self.wf(),
                p.wf(),
                n == args@.len(),
                forall|k: int| 0 <= k < args@.len() ==> args@[k] < p.exprs@.len(),
                env < self.envs.scopes@.len(),
                i <= n,
                sub_fuel == fuel - 1,
                values@.len() == i,
                evolution(*old(self), *self),
            decreases n - i,
        {
            let v = self.evaluate(p, args[i], env, sub_fuel)?;
            values.push(v);
            i = i + 1;
        }
        Ok(values)
    }

    /// Reads a property on an already-evaluated receiver: the field
    /// table first, then the class's method chain, whose find is bound
    /// to the receiver; a miss is an undefined-property error, a
    /// non-instance receiver a reported type error.
    fn get_property(&mut self, recv: Object, name: &Token) -> (r: Result<Object, Error>)
        requires
            old(self).wf(),
        ensures
            final(self).wf(),
            evolution(*old(self), *final(self)),
            match recv {
                Object::Instance(iid) => (iid < old(self).instances@.len()) ==> (
                match lookup_pairs(old(self).instances@[iid as int].fields@, name.lexeme@) {
                    Some(fv) => (r matches Ok(w) && w == fv) && *final(self) == *old(self),
                    None => (old(self).instances@[iid as int].class < old(
                        self,
                    ).classes@.len()) ==> (match spec_find_method(
                        old(self).classes@,
                        old(self).instances@[iid as int].class as int,
                        name.lexeme@,
                    ) {
                        Some(mfid) => (mfid < old(self).functions@.len() && old(
                            self,
                        ).functions@[mfid as int].closure < old(self).envs.scopes@.len()) ==> (
                        r matches Ok(w) && w == Object::Function(
                            old(self).functions@.len() as usize,
                        ) && final(self).envs.scope_lookup(
                            (final(self).envs.scopes@.len() - 1) as int,
                            "this"@,
                        ) == Some(recv)),
                        None => ((r matches Err(e) && (e matches Error::RuntimeError {
                            token: t,
                            message: _,
                        } && t == *name)) && *final(self) == *old(self)),
                    }),
                }),
                _ => ((r matches Err(e) && (e matches Error::RuntimeError {
                    token: t,
                    message: _,
                } && t == *name)) && *final(self) == *old(self)),
            },
    {
        match recv {
            Object::Instance(iid) => {
                if iid >= self.instances.len() {
                    return Err(internal_error());
                }
                match self.instances[iid].get(name.lexeme.as_str()) {
                    Some(v) => Ok(v),
                    None => {
                        let cid = self.instances[iid].class;
                        if cid >= self.classes.len() {
                            return Err(internal_error());
                        }
                        match ClassStruct::find_method(&self.classes, cid, name.lexeme.as_str()) {
                            Some(mfid) => self.bind_method(mfid, Object::Instance(iid)),
                            None => Err(undefined_property(name)),
                        }
                    },
                }
            },
            _ => Err(Error::runtime_error(name, "Only instances have fields.")),
        }
    }

    /// Writes a property on an already-evaluated receiver: the field
    /// is inserted or overwritten and the assigned value returned; a
    /// non-instance receiver is a reported type error.
    fn set_property(&mut self, recv: Object, name: &Token, value: Object) -> (r: Result<
        Object,
        Error,
    >)
        requires
            old(self).wf(),
        ensures
            final(self).wf(),
            evolution(*old(self), *final(self)),
            match recv {
                Object::Instance(iid) => (iid < old(self).instances@.len()) ==> (r matches Ok(w)
                    && w == value && lookup_pairs(
                    final(self).instances@[iid as int].fields@,
                    name.lexeme@,
                ) == Some(value) && (forall|m: Seq<char>|
                    m != name.lexeme@ ==> #[trigger] lookup_pairs(
                        final(self).instances@[iid as int].fields@,
                        m,
                    ) == lookup_pairs(old(self).instances@[iid as int].fields@, m)) && (forall|
                    k: int,
                |
                    0 <= k < old(self).instances@.len() && k != iid
                        ==> #[trigger] final(self).instances@[k] == old(self).instances@[k])),
                _ => ((r matches Err(e) && (e matches Error::RuntimeError {
                    token: t,
                    message: _,
                } && t == *name)) && *final(self) == *old(self)),
            },
    {
        match recv {
            Object::Instance(iid) => {
                if iid >= self.instances.len() {
                    return Err(internal_error());
                }
                let inst = &mut self.instances[iid];
                inst.set(name, value.clone());
                Ok(value)
            },
            _ => Err(Error::runtime_error(name, "Only instances have fields.")),
        }
    }

    /// Calls an already-evaluated callee with already-evaluated
    /// arguments: functions and classes must be handed exactly their
    /// arity, the clock takes none, and any other value is a reported
    /// type error.
    fn call_value(
        &mut self,
        p: &Program,
        callee: Object,
        args: Vec<Object>,
        paren: &Token,
        fuel: u64,
    ) -> (r: Result<Object, Error>)
        requires
            old(self).wf(),
            p.wf(),
        ensures
            final(self).wf(),
            evolution(*old(self), *final(self)),
            match callee {
                Object::Function(fid) => (fid < old(self).functions@.len() && old(
                    self,
                ).functions@[fid as int].params@.len() != args@.len()) ==> ((r matches Err(e) && (
                e matches Error::RuntimeError { token: t, message: _ } && t == *paren))
                    && *final(self) == *old(self)),
                Object::Native => args@.len() != 0 ==> ((r matches Err(e) && (
                e matches Error::RuntimeError { token: t, message: _ } && t == *paren))
                    && *final(self) == *old(self)),
                Object::Class(_) => true,
                _ => ((r matches Err(e) && (e matches Error::RuntimeError {
                    token: t,
                    message: _,
                } && t == *paren)) && *final(self) == *old(self)),
            },
            callee is Class ==> (r matches Ok(v) ==> v matches Object::Instance(_)),
        decreases fuel,
    {
        match callee {
            Object::Function(fid) => {
                if fid >= self.functions.len() {
                    return Err(internal_error());
                }
                let arity = self.functions[fid].params.len();
                if args.len() != arity {
                    return Err(arity_error(paren, arity, args.len()));
                }
                if fuel == 0 {
                    return Err(out_of_fuel());
                }
                self.call_function(p, fid, args, fuel - 1)
            },
            Object::Native => {
                if args.len() != 0 {
                    return Err(arity_error(paren, 0, args.len()));
                }
                let clock = crate::native_functions::NativeClock {  };
                clock.call()
            },
            Object::Class(cid) => {
                if cid >= self.classes.len() {
                    return Err(internal_error());
                }
                let arity = self.class_arity(cid);
                if args.len() != arity {
                    return Err(arity_error(paren, arity, args.len()));
                }
                if fuel == 0 {
                    return Err(out_of_fuel());
                }
                self.instantiate(p, cid, args, fuel - 1)
            },
            _ => Err(Error::runtime_error(paren, "Can only call functions and classes.")),
        }
    }

    /// Rewraps the method `mfid` with `this` bound to the receiver,
    /// places the bound copy in the function arena, and returns it as
    /// a value.
    fn bind_method(&mut self, mfid: usize, receiver: Object) -> (r: Result<Object, Error>)
        requires
            old(self).wf(),
        ensures
            final(self).wf(),
            evolution(*old(self), *final(self)),
            (r matches Ok(v) ==> v matches Object::Function(_)),
            (mfid < old(self).functions@.len() && old(self).functions@[mfid as int].closure
                < old(self).envs.scopes@.len()) ==> (r matches Ok(v) && v == Object::Function(
                old(self).functions@.len() as usize,
            ) && final(self).functions@.len() == old(self).functions@.len() + 1 && ({
                let g = final(self).functions@[old(self).functions@.len() as int];
                &&& g.name == old(self).functions@[mfid as int].name
                &&& g.params@ == old(self).functions@[mfid as int].params@
                &&& g.body@ == old(self).functions@[mfid as int].body@
                &&& g.is_initializer == old(self).functions@[mfid as int].is_initializer
                &&& g.closure == old(self).envs.scopes@.len()
                &&& final(self).envs.scopes@.len() == old(self).envs.scopes@.len() + 1
                &&& g.closure < final(self).envs.scopes@.len()
                &&& final(self).envs.scope_lookup(g.closure as int, "this"@) == Some(receiver)
                &&& final(self).envs.scopes@[g.closure as int].enclosing == Some(
                    old(self).functions@[mfid as int].closure,
                )
            })),
    {
        if mfid >= self.functions.len() {
            return Err(internal_error());
        }
        if self.functions[mfid].closure >= self.envs.scopes.len() {
            return Err(internal_error());
        }
        let bound = self.functions[mfid].bind(receiver, &mut self.envs);
        let bfid = self.functions.len();
        self.functions.push(bound);
        Ok(Object::Function(bfid))
    }

    /// The arity of a class as a callable: its initializer's, or zero
    /// without one.
    fn class_arity(&self, cid: usize) -> (n: usize)
        requires
            self.wf(),
            cid < self.classes@.len(),
        ensures
            match spec_find_method(self.classes@, cid as int, "init"@) {
                Some(f) => (f < self.functions@.len() && n
                    == self.functions@[f as int].params@.len()) || (f >= self.functions@.len() && n
                    == 0),
                None => n == 0,
            },
    {
        match ClassStruct::find_method(&self.classes, cid, "init") {
            Some(f) => {
                if f < self.functions.len() {
                    self.functions[f].params.len()
                } else {
                    0
                }
            },
            None => 0,
        }
    }

    /// Invokes the function `fid`: a fresh scope enclosed by its
    /// closure binds parameters to arguments, the body runs as a
    /// block, a `return` flow yields its value, falling off the end
    /// yields nil — and an initializer always yields its `this`.
    pub fn call_function(&mut self, p: &Program, fid: usize, args: Vec<Object>, fuel: u64) -> (r:
        Result<Object, Error>)
        requires
            old(self).wf(),
            p.wf(),
            fid < old(self).functions@.len(),
        ensures
            final(self).wf(),
            evolution(*old(self), *final(self)),
            old(self).functions@[fid as int].is_initializer ==> (r matches Ok(v)
                ==> final(self).envs.scope_lookup(
                old(self).functions@[fid as int].closure as int,
                "this"@,
            ) == Some(v)),
            r is Ok ==> final(self).envs.scopes@.len() > old(self).envs.scopes@.len(),
            fuel > 1 && !old(self).functions@[fid as int].is_initializer
                && old(self).functions@[fid as int].body@.len() == 0
                && old(self).functions@[fid as int].closure < old(self).envs.scopes@.len()
                ==> (r matches Ok(v) && v == Object::Nil) && ({
                let ps = old(self).functions@[fid as int].params@;
                let bound = if ps.len() < args@.len() {
                    ps.len() as int
                } else {
                    args@.len() as int
                };
                forall|i: int|
                    0 <= i < bound && (forall|j: int|
                        i < j < bound ==> ps[j].lexeme@ != ps[i].lexeme@)
                        ==> #[trigger] final(self).envs.scope_lookup(
                        old(self).envs.scopes@.len() as int,
                        ps[i].lexeme@,
                    ) == Some(args@[i])
            }),
            fuel > 1 && old(self).functions@[fid as int].is_initializer
                && old(self).functions@[fid as int].body@.len() == 0
                && old(self).functions@[fid as int].closure < old(self).envs.scopes@.len() ==> (
            old(self).envs.scope_lookup(
                old(self).functions@[fid as int].closure as int,
                "this"@,
            ) matches Some(t) ==> (r matches Ok(v) && v == t)),
            fuel > 3 && !old(self).functions@[fid as int].is_initializer
                && old(self).functions@[fid as int].closure < old(self).envs.scopes@.len()
                && old(self).functions@[fid as int].body@.len() == 1 && old(
                self,
            ).functions@[fid as int].body@[0] < p.stmts@.len() ==> (
            p.stmts@[old(self).functions@[fid as int].body@[0] as int] matches Stmt::Return(ret)
                ==> match ret.value {
                Some(e) => p.exprs@[e as int] matches Expr::Literal(l) ==> (r matches Ok(v) && v
                    == literal_value(l)),
                None => (r matches Ok(v) && v == Object::Nil),
            }),
        decreases fuel,
    {
        if fuel == 0 {
            return Err(out_of_fuel());
        }
        let fuel = fuel - 1;
        let closure = self.functions[fid].closure;
        let is_init = self.functions[fid].is_initializer;
        if closure >= self.envs.scopes.len() {
            return Err(internal_error());
        }
        let params = crate::functions::copy_tokens(&self.functions[fid].params);
        let body = crate::functions::copy_ids(&self.functions[fid].body);
        if !crate::program::all_below(&body, p.stmts.len()) {
            return Err(internal_error());
        }
        let e_new = self.envs.new_with_enclosing(closure);
        let n_bind = if params.len() < args.len() {
            params.len()
        } else {
            args.len()
        };
        let mut i: usize = 0;
        while i < n_bind
            invariant
                self.wf(),
                n_bind <= params@.len(),
                n_bind <= args@.len(),
                e_new < self.envs.scopes@.len(),
                i <= n_bind,
                forall|k: int|
                    0 <= k < i && (forall|j: int|
                        k < j < i ==> params@[j].lexeme@ != params@[k].lexeme@)
                        ==> #[trigger] self.envs.scope_lookup(e_new as int, params@[k].lexeme@)
                        == Some(args@[k]),
                forall|sc: int|
                    0 <= sc < self.envs.scopes@.len() && sc != e_new
                        ==> #[trigger] self.envs.scopes@[sc] == old(self).envs.scopes@[sc],
                evolution(*old(self), *self),
            decreases n_bind - i,
        {
            self.envs.define(e_new, params[i].lexeme.clone(), args[i].clone());
            i = i + 1;
        }
        let flow = self.execute_block(p, &body, e_new, fuel)?;
        if is_init {
            match self.envs.get_at(closure, 0, "this") {
                Some(t) => Ok(t),
                None => Err(internal_error()),
            }
        } else {
            match flow {
                Flow::Return(v) => Ok(v),
                Flow::Normal => Ok(Object::Nil),
            }
        }
    }

    /// Calls a class: allocates an instance and, when the class has
    /// an initializer, binds and invokes it with the arguments.
    pub fn instantiate(&mut self, p: &Program, cid: usize, args: Vec<Object>, fuel: u64) -> (r:
        Result<Object, Error>)
        requires
            old(self).wf(),
            p.wf(),
            cid < old(self).classes@.len(),
        ensures
            final(self).wf(),
            evolution(*old(self), *final(self)),
            (r matches Ok(v) ==> v == Object::Instance(old(self).instances@.len() as usize)
                && final(self).instances@.len() > old(self).instances@.len()
                && final(self).instances@[old(self).instances@.len() as int].class == cid),
            fuel > 0 && spec_find_method(old(self).classes@, cid as int, "init"@) is None ==> (
            r matches Ok(v) && v == Object::Instance(old(self).instances@.len() as usize)
                && final(self).instances@[old(self).instances@.len() as int].fields@.len() == 0),
            fuel > 2 ==> (spec_find_method(old(self).classes@, cid as int, "init"@) matches Some(
                mfid,
            ) ==> ((mfid < old(self).functions@.len() && old(
                self,
            ).functions@[mfid as int].is_initializer && old(
                self,
            ).functions@[mfid as int].body@.len() == 0 && old(
                self,
            ).functions@[mfid as int].closure < old(self).envs.scopes@.len()) ==> (r matches Ok(v)
                && v == Object::Instance(old(self).instances@.len() as usize)))),
        decreases fuel,
    {
        if fuel == 0 {
            return Err(out_of_fuel());
        }
        let fuel = fuel - 1;
        let iid = self.instances.len();
        self.instances.push(InstanceStruct::new(cid));
        match ClassStruct::find_method(&self.classes, cid, "init") {
            Some(mfid) => {
                let initializer = self.bind_method(mfid, Object::Instance(iid))?;
                match initializer {
                    Object::Function(bfid) => {
                        if bfid >= self.functions.len() {
                            return Err(internal_error());
                        }
                        self.call_function(p, bfid, args, fuel)?;
                        Ok(Object::Instance(iid))
                    },
                    _ => Err(internal_error()),
                }
            },
            None => Ok(Object::Instance(iid)),
        }
    }

    /// Executes the statement node `sid` in scope `env`.
    ///
    /// Beside the frame, the contract owes an outcome wherever one is
    /// decidable from the statement and the entry state alone:
    /// declarations bind their name and touch nothing else, a block
    /// allocates a fresh scope enclosing the current one, `print` of a
    /// literal or of a variable appends exactly its rendering,
    /// `return` yields a return flow carrying its value, a class
    /// declaration leaves behind what `class_outcome` states, and a
    /// function declaration appends exactly the declared function and
    /// binds its name to it.
    pub fn execute(&mut self, p: &Program, sid: usize, env: usize, fuel: u64) -> (r: Result<
        Flow,
        Error,
    >)
        requires
            old(self).wf(),
            p.wf(),
            sid < p.stmts@.len(),
            env < old(self).envs.scopes@.len(),
        ensures
            final(self).wf(),
            evolution(*old(self), *final(self)),
            fuel > 0 && r is Ok ==> (p.stmts@[sid as int] matches Stmt::Var(v) ==> final(self).envs.scope_lookup(
                env as int,
                v.name.lexeme@,
            ) is Some),
            fuel > 1 ==> (p.stmts@[sid as int] matches Stmt::Var(v) ==> match v.initializer {
                Some(init) => p.exprs@[init as int] matches Expr::Literal(l) ==> (r matches Ok(f)
                    && f is Normal) && final(self).envs.scope_lookup(env as int, v.name.lexeme@)
                    == Some(literal_value(l)) && var_frame(*old(self), *final(self), env as int, v.name.lexeme@),
                None => (r matches Ok(f) && f is Normal) && final(self).envs.scope_lookup(
                    env as int,
                    v.name.lexeme@,
                ) == Some(Object::Nil) && var_frame(*old(self), *final(self), env as int, v.name.lexeme@),
            }),
            fuel > 0 && r is Ok ==> (p.stmts@[sid as int] matches Stmt::Print(_)
                ==> final(self).output@.len() > old(self).output@.len()),
            fuel > 1 ==> (p.stmts@[sid as int] matches Stmt::If(cf) ==> (
            p.exprs@[cf.condition as int] matches Expr::Literal(cl) ==> ({
                &&& (!spec_truthy(literal_value(cl)) && cf.else_branch is None ==> (
                r matches Ok(fl) && fl is Normal))
                &&& (spec_truthy(literal_value(cl)) && fuel > 2 ==> (
                p.stmts@[cf.then_branch as int] matches Stmt::Print(pr2) ==> (
                p.exprs@[pr2.expression as int] matches Expr::Literal(plit) ==> (r matches Ok(fl)
                    && fl is Normal) && final(self).output@.len() == old(self).output@.len() + 1
                    && final(self).output@.last()@ == old(self).obj_text(literal_value(plit)))))
                &&& (!spec_truthy(literal_value(cl)) && fuel > 2 ==> (
                cf.else_branch matches Some(eb) ==> (
                p.stmts@[eb as int] matches Stmt::Print(pr3) ==> (
                p.exprs@[pr3.expression as int] matches Expr::Literal(plit3) ==> (r matches Ok(fl)
                    && fl is Normal) && final(self).output@.len() == old(self).output@.len() + 1
                    && final(self).output@.last()@ == old(self).obj_text(literal_value(plit3))))))
            }))),
            fuel > 1 ==> (p.stmts@[sid as int] matches Stmt::Print(pr) ==> (
            p.exprs@[pr.expression as int] matches Expr::Literal(lit) ==> (r matches Ok(f)
                && f is Normal) && final(self).output@.len() == old(self).output@.len() + 1
                && final(self).output@.last()@ == old(self).obj_text(literal_value(lit)))),
            fuel > 1 ==> (p.stmts@[sid as int] matches Stmt::Print(pv) ==> (
            p.exprs@[pv.expression as int] matches Expr::Variable(v) ==> match var_value(
                *old(self),
                pv.expression as int,
                env as int,
                v.name.lexeme@,
            ) {
                Some(w) => (r matches Ok(f) && f is Normal) && final(self).output@.len() == old(
                    self,
                ).output@.len() + 1 && final(self).output@.last()@ == old(self).obj_text(w),
                None => (r matches Err(e) && e matches Error::RuntimeError { .. }),
            })),
            fuel > 1 ==> (p.stmts@[sid as int] matches Stmt::Return(ret) ==> match ret.value {
                Some(e) => p.exprs@[e as int] matches Expr::Literal(l) ==> (r matches Ok(f)
                    && f matches Flow::Return(v) && v == literal_value(l)),
                None => (r matches Ok(f) && f matches Flow::Return(v) && v == Object::Nil),
            }),
            fuel > 0 ==> (p.stmts@[sid as int] matches Stmt::Block(b) ==> final(self).envs.scopes@.len()
                > old(self).envs.scopes@.len() && final(self).envs.scopes@[old(self).envs.scopes@.len() as int].enclosing
                == Some(env) && (fuel > 1 && b.statements@.len() == 0 ==> (r matches Ok(f)
                && f is Normal))),
            fuel > 0 && r is Ok ==> (p.stmts@[sid as int] matches Stmt::Return(_)
                ==> (r matches Ok(f) && f is Return)),
            fuel > 1 ==> (p.stmts@[sid as int] matches Stmt::While(w) ==> (
            p.exprs@[w.condition as int] matches Expr::Literal(l) ==> (!spec_truthy(
                literal_value(l),
            ) ==> (r matches Ok(f) && f is Normal)))),
            fuel > 2 ==> (p.stmts@[sid as int] matches Stmt::While(w) ==> (
            p.exprs@[w.condition as int] matches Expr::Literal(cl) ==> (spec_truthy(
                literal_value(cl),
            ) ==> (p.stmts@[w.body as int] matches Stmt::Return(ret) ==> match ret.value {
                Some(e) => p.exprs@[e as int] matches Expr::Literal(l2) ==> (r matches Ok(f)
                    && f matches Flow::Return(v) && v == literal_value(l2)),
                None => (r matches Ok(f) && f matches Flow::Return(v) && v == Object::Nil),
            })))),
            fuel > 1 ==> (p.stmts@[sid as int] matches Stmt::Expression(e) ==> (
            p.exprs@[e.expression as int] matches Expr::Literal(_) ==> (r matches Ok(f)
                && f is Normal))),
            fuel > 0 && r is Ok ==> (p.stmts@[sid as int] matches Stmt::Class(cd)
                ==> class_outcome(*old(self), *final(self), *p, cd, env as int)),
            fuel > 0 ==> (p.stmts@[sid as int] matches Stmt::Function(func) ==> (r matches Ok(f)
                && f is Normal) && final(self).functions@.len() == old(self).functions@.len() + 1
                && (final(self).functions@[old(self).functions@.len() as int].name == func.name
                && final(self).functions@[old(self).functions@.len() as int].params@
                == func.params@ && final(self).functions@[old(self).functions@.len() as int].body@
                == func.body@ && final(self).functions@[old(self).functions@.len() as int].closure
                == env && !final(self).functions@[old(self).functions@.len() as int].is_initializer)
                && final(self).envs.scope_lookup(env as int, func.name.lexeme@) == Some(
                Object::Function(old(self).functions@.len() as usize),
            )),
        decreases fuel,
    {
        if fuel == 0 {
            return Err(out_of_fuel());
        }
        let fuel = fuel - 1;
        match &p.stmts[sid] {
            Stmt::Expression(e) => {
                self.evaluate(p, e.expression, env, fuel)?;
                Ok(Flow::Normal)
            },
            Stmt::Print(pr) => {
                let value = self.evaluate(p, pr.expression, env, fuel)?;
                let line = self.stringify(&value);
                self.output.push(line);
                Ok(Flow::Normal)
            },
            Stmt::Var(v) => {
                let value = match v.initializer {
                    Some(init) => self.evaluate(p, init, env, fuel)?,
                    None => Object::Nil,
                };
                self.envs.define(env, v.name.lexeme.clone(), value);
                Ok(Flow::Normal)
            },
            Stmt::Block(b) => {
                let e_new = self.envs.new_with_enclosing(env);
                self.execute_block(p, &b.statements, e_new, fuel)
            },
            Stmt::If(f) => {
                let cond = self.evaluate(p, f.condition, env, fuel)?;
                if is_truthy(&cond) {
                    self.execute(p, f.then_branch, env, fuel)
                } else {
                    match f.else_branch {
                        Some(e) => self.execute(p, e, env, fuel),
                        None => Ok(Flow::Normal),
                    }
                }
            },
            Stmt::While(w) => {
                let cond = self.evaluate(p, w.condition, env, fuel)?;
                if !is_truthy(&cond) {
                    return Ok(Flow::Normal);
                }
                let flow = self.execute(p, w.body, env, fuel)?;
                match flow {
                    Flow::Return(v) => Ok(Flow::Return(v)),
                    Flow::Normal => self.execute(p, sid, env, fuel),
                }
            },
            Stmt::Return(ret) => {
                let value = match ret.value {
                    Some(e) => self.evaluate(p, e, env, fuel)?,
                    None => Object::Nil,
                };
                Ok(Flow::Return(value))
            },
            Stmt::Function(func) => {
                let f = Function::new(func, env, false);
                let fid = self.functions.len();
                self.functions.push(f);
                self.envs.define(env, func.name.lexeme.clone(), Object::Function(fid));
                Ok(Flow::Normal)
            },
            Stmt::Class(c) => self.execute_class(p, sid, c, env, fuel),
        }
    }

    /// Executes a class declaration: evaluates the superclass, binds
    /// the class name as a placeholder, builds each method as a
    /// function closing over a scope that defines `super` when there
    /// is a superclass, and assigns the finished class over the
    /// placeholder.
    fn execute_class(
        &mut self,
        p: &Program,
        sid: usize,
        c: &crate::stmt::ClassStmt,
        env: usize,
        fuel: u64,
    ) -> (r: Result<Flow, Error>)
        requires
            old(self).wf(),
            p.wf(),
            sid < p.stmts@.len(),
            p.stmts@[sid as int] matches Stmt::Class(cc) && cc == *c,
            env < old(self).envs.scopes@.len(),
        ensures
            final(self).wf(),
            evolution(*old(self), *final(self)),
            fuel > 0 && c.superclass is None && c.methods@.len() == 0 ==> (r matches Ok(f)
                && f is Normal),
            r is Ok ==> class_outcome(*old(self), *final(self), *p, *c, env as int),
            fuel > 1 ==> (c.superclass matches Some(se) ==> ({
                &&& (p.exprs@[se as int] matches Expr::Literal(_) ==> (r matches Err(e) && (
                e matches Error::RuntimeError { token: t, message: _ } && t == c.name)))
                &&& (p.exprs@[se as int] matches Expr::Variable(sv) ==> match var_value(
                    *old(self),
                    se as int,
                    env as int,
                    sv.name.lexeme@,
                ) {
                    Some(supv) => match supv {
                        Object::Class(scid) => (scid < old(self).classes@.len() && r is Ok)
                            ==> final(self).classes@[final(self).classes@.len() - 1].superclass
                            == Some(scid),
                        _ => (r matches Err(e) && (e matches Error::RuntimeError {
                            token: t,
                            message: _,
                        } && t == sv.name)),
                    },
                    None => (r matches Err(e) && e matches Error::RuntimeError { .. }),
                })
            })),
        decreases fuel,
    {
        if fuel == 0 {
            return Err(out_of_fuel());
        }
        let fuel = fuel - 1;
        let superclass: Option<usize> = match c.superclass {
            Some(se) => {
                let sv = self.evaluate(p, se, env, fuel)?;
                match sv {
                    Object::Class(scid) => {
                        if scid >= self.classes.len() {
                            return Err(internal_error());
                        }
                        Some(scid)
                    },
                    _ => {
                        match &p.exprs[se] {
                            Expr::Variable(v) => {
                                return Err(
                                    Error::runtime_error(&v.name, "Superclass must be a class."),
                                );
                            },
                            _ => {
                                return Err(
                                    Error::runtime_error(&c.name, "Superclass must be a class."),
                                );
                            },
                        }
                    },
                }
            },
            None => None,
        };
        self.envs.define(env, c.name.lexeme.clone(), Object::Nil);
        let method_env = match superclass {
            Some(scid) => {
                let e2 = self.envs.new_with_enclosing(env);
                self.envs.define(e2, String::from_str("super"), Object::Class(scid));
                e2
            },
            None => env,
        };
        let ghost envs_snapshot = self.envs;
        let mut methods: Vec<(String, usize)> = Vec::new();
        let n = c.methods.len();
        let mut k: usize = 0;
        while k < n
            invariant
                self.wf(),
                p.wf(),
                n == c.methods@.len(),
                forall|j: int| 0 <= j < n ==> c.methods@[j] < p.stmts@.len(),
                forall|j: int|
                    0 <= j < n ==> (#[trigger] p.stmts@[c.methods@[j] as int]) matches Stmt::Function(_),
                method_env < self.envs.scopes@.len(),
                k <= n,
                match superclass {
                    Some(s) => s < self.classes@.len(),
                    None => true,
                },
                self.envs == envs_snapshot,
                methods@.len() == k,
                forall|j: int|
                    0 <= j < k ==> (#[trigger] methods@[j]).1 < self.functions@.len(),
                forall|j: int|
                    0 <= j < k ==> match p.stmts@[c.methods@[j] as int] {
                        Stmt::Function(m) => {
                            &&& (#[trigger] methods@[j]).0@ == m.name.lexeme@
                            &&& self.functions@[methods@[j].1 as int].name == m.name
                            &&& self.functions@[methods@[j].1 as int].params@ == m.params@
                            &&& self.functions@[methods@[j].1 as int].body@ == m.body@
                            &&& self.functions@[methods@[j].1 as int].is_initializer == (
                            m.name.lexeme@ == "init"@)
                            &&& self.functions@[methods@[j].1 as int].closure == method_env
                        },
                        _ => true,
                    },
                evolution(*old(self), *self),
            decreases n - k,
        {
            let mid = c.methods[k];
            match &p.stmts[mid] {
                Stmt::Function(func) => {
                    let is_init = str_eq(func.name.lexeme.as_str(), "init");
                    let f = Function::new(func, method_env, is_init);
                    let fid = self.functions.len();
                    self.functions.push(f);
                    methods.push((func.name.lexeme.clone(), fid));
                },
                _ => {
                    return Err(
                        Error::runtime_error(&c.name, "Class method did not resolve to a function."),
                    );
                },
            }
            k = k + 1;
        }
        let cid = self.classes.len();
        let cls = ClassStruct::new(c.name.lexeme.clone(), superclass, methods);
        self.classes.push(cls);
        let ghost pre_assign = self.envs;
        proof {
            assert(classes_wf(self.classes@));
            assert(self.envs.scope_lookup(env as int, c.name.lexeme@) is Some);
            crate::environment::lemma_owner_chain(self.envs, env as int, c.name.lexeme@);
        }
        match self.envs.assign(env, &c.name, Object::Class(cid)) {
            Ok(_) => {
                proof {
                    match superclass {
                        Some(_) => {
                            assert(self.envs.scopes@[method_env as int]
                                == pre_assign.scopes@[method_env as int]);
                        },
                        None => {},
                    }
                }
                Ok(Flow::Normal)
            },
            Err(e) => Err(e),
        }
    }

    /// Executes a statement list in the given scope, stopping at the
    /// first `return` flow or error.
    pub fn execute_block(
        &mut self,
        p: &Program,
        statements: &Vec<usize>,
        environment: usize,
        fuel: u64,
    ) -> (r: Result<Flow, Error>)
        requires
            old(self).wf(),
            p.wf(),
            forall|k: int| 0 <= k < statements@.len() ==> statements@[k] < p.stmts@.len(),
            environment < old(self).envs.scopes@.len(),
        ensures
            final(self).wf(),
            evolution(*old(self), *final(self)),
            fuel > 0 && statements@.len() == 0 ==> (r matches Ok(f) && f is Normal)
                && *final(self) == *old(self),
            fuel > 2 && statements@.len() == 1 ==> (
            p.stmts@[statements@[0] as int] matches Stmt::Print(pr) ==> (
            p.exprs@[pr.expression as int] matches Expr::Literal(lit) ==> (r matches Ok(f)
                && f is Normal) && final(self).output@.len() == old(self).output@.len() + 1
                && final(self).output@.last()@ == old(self).obj_text(literal_value(lit)))),
            fuel > 2 && statements@.len() == 1 ==> (
            p.stmts@[statements@[0] as int] matches Stmt::Return(ret) ==> match ret.value {
                Some(e) => p.exprs@[e as int] matches Expr::Literal(l) ==> (r matches Ok(f)
                    && f matches Flow::Return(v) && v == literal_value(l)),
                None => (r matches Ok(f) && f matches Flow::Return(v) && v == Object::Nil),
            }),
            fuel > 2 && statements@.len() == 1 ==> (
            p.stmts@[statements@[0] as int] matches Stmt::Var(vd) ==> match vd.initializer {
                Some(init) => p.exprs@[init as int] matches Expr::Literal(l) ==> (r matches Ok(f)
                    && f is Normal) && final(self).envs.scope_lookup(
                    environment as int,
                    vd.name.lexeme@,
                ) == Some(literal_value(l)),
                None => (r matches Ok(f) && f is Normal) && final(self).envs.scope_lookup(
                    environment as int,
                    vd.name.lexeme@,
                ) == Some(Object::Nil),
            }),
            fuel > 2 && statements@.len() == 1 ==> (
            p.stmts@[statements@[0] as int] matches Stmt::Expression(ex) ==> (
            p.exprs@[ex.expression as int] matches Expr::Literal(_) ==> (r matches Ok(f)
                && f is Normal))),
        decreases fuel,
    {
        if fuel == 0 {
            return Err(out_of_fuel());
        }
        let sub_fuel = fuel - 1;
        let n = statements.len();
        if n == 0 {
            return Ok(Flow::Normal);
        }
        let mut i: usize = 0;
        while i < n
            invariant
                self.wf(),
                p.wf(),
                n == statements@.len(),
                forall|k: int| 0 <= k < statements@.len() ==> statements@[k] < p.stmts@.len(),
                environment < self.envs.scopes@.len(),
                i <= n,
                sub_fuel == fuel - 1,
                i == 0 ==> *self == *old(self),
                n == 1 && i == 1 && fuel > 2 ==> ({
                    &&& (p.stmts@[statements@[0] as int] matches Stmt::Print(pr) ==> (
                    p.exprs@[pr.expression as int] matches Expr::Literal(lit)
                        ==> self.output@.len() == old(self).output@.len() + 1
                        && self.output@.last()@ == old(self).obj_text(literal_value(lit))))
                    &&& (p.stmts@[statements@[0] as int] matches Stmt::Var(vd)
                        ==> match vd.initializer {
                        Some(init) => p.exprs@[init as int] matches Expr::Literal(l)
                            ==> self.envs.scope_lookup(environment as int, vd.name.lexeme@)
                            == Some(literal_value(l)),
                        None => self.envs.scope_lookup(environment as int, vd.name.lexeme@)
                            == Some(Object::Nil),
                    })
                    &&& (p.stmts@[statements@[0] as int] matches Stmt::Return(ret)
                        ==> match ret.value {
                        Some(e) => !(p.exprs@[e as int] is Literal),
                        None => false,
                    })
                }),
                evolution(*old(self), *self),
            decreases n - i,
        {
            let step = self.execute(p, statements[i], environment, sub_fuel);
            proof {
                if fuel > 2 && n == 1 {
                    assert(i == 0);
                }
            }
            let flow = match step {
                Ok(f) => f,
                Err(e) => {
                    return Err(e);
                },
            };
            match flow {
                Flow::Return(v) => {
                    return Ok(Flow::Return(v));
                },
                Flow::Normal => {},
            }
            i = i + 1;
        }
        Ok(Flow::Normal)
    }

    /// Runs a resolved program's top-level statements against the
    /// global scope.  `false` when a statement raised an unrecovered
    /// error, which is then recorded in `errors`.
    pub fn interpret(&mut self, p: &Program, statements: &Vec<usize>) -> (success: bool)
        requires
            old(self).wf(),
            p.wf(),
            forall|k: int| 0 <= k < statements@.len() ==> statements@[k] < p.stmts@.len(),
        ensures
            final(self).wf(),
            success ==> evolution(*old(self), *final(self)),
            !success ==> final(self).errors@.len() == old(self).errors@.len() + 1,
            statements@.len() == 0 ==> success,
            statements@.len() == 1 ==> (p.stmts@[statements@[0] as int] matches Stmt::Print(pr)
                ==> (p.exprs@[pr.expression as int] matches Expr::Literal(lit) ==> success
                && final(self).output@.len() == old(self).output@.len() + 1
                && final(self).output@.last()@ == old(self).obj_text(literal_value(lit)))),
    {
        let ghost single_print = statements@.len() == 1 && is_print_of_literal(
            *p,
            statements@[0] as int,
        );
        let n = statements.len();
        let mut i: usize = 0;
        while i < n
            invariant
                self.wf(),
                p.wf(),
                n == statements@.len(),
                forall|k: int| 0 <= k < statements@.len() ==> statements@[k] < p.stmts@.len(),
                i <= n,
                single_print == (statements@.len() == 1 && is_print_of_literal(
                    *p,
                    statements@[0] as int,
                )),
                i == 0 ==> *self == *old(self),
                single_print && i == 1 ==> ({
                    &&& self.output@.len() == old(self).output@.len() + 1
                    &&& (p.stmts@[statements@[0] as int] matches Stmt::Print(pr) ==> (
                    p.exprs@[pr.expression as int] matches Expr::Literal(lit)
                        ==> self.output@.last()@ == old(self).obj_text(literal_value(lit))))
                }),
                evolution(*old(self), *self),
            decreases n - i,
        {
            let step = self.execute(p, statements[i], 0, DEFAULT_FUEL);
            proof {
                assert(DEFAULT_FUEL > 1);
                if single_print {
                    assert(i == 0);
                    assert(step matches Ok(f) && f is Normal);
                }
            }
            match step {
                Ok(Flow::Normal) => {},
                Ok(Flow::Return(_)) => {
                    self.errors.push(Error::system_error("Cannot return from top-level code."));
                    return false;
                },
                Err(e) => {
                    self.errors.push(e);
                    return false;
                },
            }
            i = i + 1;
        }
        true
    }
}

/// The runtime error for a missing property.
fn undefined_property(token: &Token) -> (e: Error)
    ensures
        (e matches Error::RuntimeError { token: t, message: _ } && t == *token),
{
    proof {
        reveal_strlit("Undefined property '");
        reveal_strlit("'.");
    }
    let mut message = "Undefined property '".to_owned();
    message.append(token.lexeme.as_str());
    message.append("'.");
    Error::runtime_error(token, message.as_str())
}

/// The runtime error for a call with the wrong number of arguments.
fn arity_error(paren: &Token, expected: usize, got: usize) -> (e: Error)
    ensures
        (e matches Error::RuntimeError { token: t, message: _ } && t == *paren),
{
    proof {
        reveal_strlit("Expected ");
        reveal_strlit(" arguments but got ");
        reveal_strlit(".");
    }
    let mut message = "Expected ".to_owned();
    message.append(u64_to_string(expected as u64).as_str());
    message.append(" arguments but got ");
    message.append(u64_to_string(got as u64).as_str());
    message.append(".");
    Error::runtime_error(paren, message.as_str())
}

/// The system error for a run that spent its whole step budget.
fn out_of_fuel() -> (e: Error)
    ensures
        e matches Error::SystemError { .. },
{
    Error::system_error("Execution budget exhausted.")
}

/// The system error for a value that refers outside the arenas; a
/// resolved, well-formed program never produces one.
fn internal_error() -> (e: Error)
    ensures
        e matches Error::SystemError { .. },
{
    Error::system_error("Internal interpreter error.")
}

/// Division truncated toward zero, via magnitudes.
fn div_trunc_exec(a: i64, b: i64) -> (res: Object)
    requires
        b != 0,
    ensures
        res == num_of(trunc_div(a as int, b as int)),
{
    if a == i64::MIN && b == -1 {
        proof {
            vstd::arithmetic::div_mod::lemma_div_basics(abs_int(a as int));
        }
        return Object::ArithmeticError;
    }
    let abs_a: u64 = if a < 0 {
        (-(a as i128)) as u64
    } else {
        a as u64
    };
    let abs_b: u64 = if b < 0 {
        (-(b as i128)) as u64
    } else {
        b as u64
    };
    let q: u64 = abs_a / abs_b;
    proof {
        assert(abs_a as int == abs_int(a as int));
        assert(abs_b as int == abs_int(b as int));
        lemma_div_nonincreasing(abs_a as int, abs_b as int);
    }
    if (a < 0) != (b < 0) {
        let res = (-(q as i128)) as i64;
        proof {
            assert(res as int == -(q as int));
        }
        Object::Num(res)
    } else {
        proof {
            if a == i64::MIN {
                assert(abs_b >= 2);
                lemma_div_is_ordered_by_denominator(abs_a as int, 2, abs_b as int);
                assert(q as int <= abs_a as int / 2);
            }
            assert(q as int <= i64::MAX as int);
        }
        Object::Num(q as i64)
    }
}

} // verus!

