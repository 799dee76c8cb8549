//! User-defined functions.
//!
//! A function value pairs a declaration's name, parameters and body
//! with the scope that was current when the declaration was evaluated:
//! the closure.  Binding a method to an instance rewraps it with a
//! fresh scope that defines `this`, so that `this` resolves through
//! the ordinary scope-chain machinery rather than a special case.

use vstd::prelude::*;

verus! {

use vstd::string::StringExecFns;

use crate::environment::Environment;
use crate::stmt::FunctionStmt;
use crate::tokens::{Object, Token};

/// A function value.  `body` holds statement indices into the program
/// arena; `closure` is the index of the captured scope.
pub struct Function {
    pub name: Token,
    pub params: Vec<Token>,
    pub is_initializer: bool,
    pub body: Vec<usize>,
    pub closure: usize,
}

impl Function {
    /// Builds a function value from its declaration, capturing the
    /// scope current at the declaration site.
    pub fn new(declaration: &FunctionStmt, closure: usize, is_initializer: bool) -> (f: Function)
        ensures
            f.name == declaration.name,
            f.params@ == declaration.params@,
            f.body@ == declaration.body@,
            f.closure == closure,
            f.is_initializer == is_initializer,
    {
        Function {
            name: declaration.name.clone(),
            params: copy_tokens(&declaration.params),
            is_initializer,
            body: copy_ids(&declaration.body),
            closure,
        }
    }

    /// The number of declared parameters.
    pub fn arity(&self) -> (n: usize)
        ensures
            n == self.params@.len(),
    {
        self.params.len()
    }

    /// The display name.
    pub fn stringify(&self) -> (s: String)
        ensures
            s@ == self.name.lexeme@,
    {
        self.name.lexeme.clone()
    }

    /// A copy of this function whose closure is a fresh scope,
    /// enclosed by the original closure, that defines `this` as the
    /// given instance.
    pub fn bind(&self, instance: Object, env: &mut Environment) -> (g: Function)
        requires
            old(env).wf(),
            self.closure < old(env).scopes@.len(),
        ensures
            final(env).wf(),
            final(env).scopes@.len() == old(env).scopes@.len() + 1,
            forall|i: int|
                0 <= i < old(env).scopes@.len() ==> final(env).scopes@[i] == old(env).scopes@[i],
            g.name == self.name,
            g.params@ == self.params@,
            g.body@ == self.body@,
            g.is_initializer == self.is_initializer,
            g.closure == old(env).scopes@.len(),
            final(env).scopes@[g.closure as int].enclosing == Some(self.closure),
            final(env).scope_lookup(g.closure as int, "this"@) == Some(instance),
    {
        let e = env.new_with_enclosing(self.closure);
        env.define(e, String::from_str("this"), instance);
        Function {
            name: self.name.clone(),
            params: copy_tokens(&self.params),
            is_initializer: self.is_initializer,
            body: copy_ids(&self.body),
            closure: e,
        }
    }
}

/// Binding `this` twice for the same receiver — as re-accessing the
/// same method on the same instance does — gives two bound closures
/// that are distinct yet functionally equivalent: each is a copy of
/// the method apart from its fresh closure scope, the second bind
/// never rebinds the first closure's `this`, and both closures resolve
/// `this` to the one receiver.  The premises are what two successive
/// calls of `bind` ensure.
pub proof fn lemma_bind_this_agrees(
    env0: Environment,
    env1: Environment,
    env2: Environment,
    f: Function,
    instance: Object,
    g1: Function,
    g2: Function,
)
    requires
        env1.wf(),
        env2.wf(),
        g1.name == f.name && g1.params@ == f.params@ && g1.body@ == f.body@
            && g1.is_initializer == f.is_initializer,
        g2.name == f.name && g2.params@ == f.params@ && g2.body@ == f.body@
            && g2.is_initializer == f.is_initializer,
        g1.closure == env0.scopes@.len(),
        env1.scopes@.len() == env0.scopes@.len() + 1,
        g2.closure == env1.scopes@.len(),
        env2.scopes@.len() == env1.scopes@.len() + 1,
        forall|i: int| 0 <= i < env1.scopes@.len() ==> env2.scopes@[i] == env1.scopes@[i],
        env1.scope_lookup(g1.closure as int, "this"@) == Some(instance),
        env2.scope_lookup(g2.closure as int, "this"@) == Some(instance),
    ensures
        g1.closure != g2.closure,
        g1.name == g2.name && g1.params@ == g2.params@ && g1.body@ == g2.body@
            && g1.is_initializer == g2.is_initializer,
        env2.scope_lookup(g1.closure as int, "this"@) == Some(instance),
        env2.chain_lookup(g1.closure as int, "this"@) == Some(instance),
        env2.chain_lookup(g2.closure as int, "this"@) == Some(instance),
{
    assert(env2.scopes@[g1.closure as int] == env1.scopes@[g1.closure as int]);
}

/// Copies a list of statement indices.
pub(crate) fn copy_ids(ids: &Vec<usize>) -> (r: Vec<usize>)
    ensures
        r@ == ids@,
{
    let mut r: Vec<usize> = Vec::new();
    let n = ids.len();
    let mut i: usize = 0;
    while i < n
        invariant
            i <= n,
            n == ids@.len(),
            r@ =~= ids@.take(i as int),
        decreases n - i,
    {
        r.push(ids[i]);
        i = i + 1;
    }
    proof {
        assert(r@ =~= ids@);
    }
    r
}

/// Copies a parameter list.
pub(crate) fn copy_tokens(tokens: &Vec<Token>) -> (r: Vec<Token>)
    ensures
        r@ == tokens@,
{
    let mut r: Vec<Token> = Vec::new();
    let n = tokens.len();
    let mut i: usize = 0;
    while i < n
        invariant
            i <= n,
            n == tokens@.len(),
            r@ =~= tokens@.take(i as int),
        decreases n - i,
    {
        r.push(tokens[i].clone());
        i = i + 1;
    }
    proof {
        assert(r@ =~= tokens@);
    }
    r
}

} // verus!
