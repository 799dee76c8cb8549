//! The scope store.
//!
//! An [`Environment`] holds every scope of a run in one arena; a scope
//! is an association list of bindings plus the index of its enclosing
//! scope.  Scope index 0 is the global scope.  Closures and blocks
//! share scopes by index, so a mutation through any holder is visible
//! to all of them.  Every enclosing link points strictly downwards in
//! the arena, which keeps the chains acyclic.

use vstd::prelude::*;

verus! {

use crate::errors::Error;
use crate::tokens::{str_eq, Object, Token};

/// One scope: its bindings, newest last, and its enclosing link.
pub struct Scope {
    pub bindings: Vec<(String, Object)>,
    pub enclosing: Option<usize>,
}

/// The value bound to `name` in an association list, newest binding
/// first.
pub open spec fn lookup_pairs<V>(pairs: Seq<(String, V)>, name: Seq<char>) -> Option<V>
    decreases pairs.len(),
{
    if pairs.len() == 0 {
        None
    } else if pairs.last().0@ == name {
        Some(pairs.last().1)
    } else {
        lookup_pairs(pairs.drop_last(), name)
    }
}

/// The arena of scopes of one run.
pub struct Environment {
    pub scopes: Vec<Scope>,
}

impl Environment {
    /// Every scope's enclosing link points to an earlier scope, and
    /// the global scope exists.
    pub open spec fn wf(self) -> bool {
        &&& self.scopes@.len() >= 1
        &&& forall|i: int|
            0 <= i < self.scopes@.len() ==> match (#[trigger] self.scopes@[i]).enclosing {
                Some(e) => e < i,
                None => true,
            }
    }

    /// The value bound to `name` in scope `e` alone.
    pub open spec fn scope_lookup(self, e: int, name: Seq<char>) -> Option<Object> {
        lookup_pairs(self.scopes@[e].bindings@, name)
    }

    /// The value bound to `name` in scope `e` or, failing that, in its
    /// enclosing chain.
    pub open spec fn chain_lookup(self, e: int, name: Seq<char>) -> Option<Object>
        decreases e,
        when self.wf() && 0 <= e < self.scopes@.len()
    {
        match self.scope_lookup(e, name) {
            Some(v) => Some(v),
            None => match self.scopes@[e].enclosing {
                Some(enc) => self.chain_lookup(enc as int, name),
                None => None,
            },
        }
    }

    /// The scope reached from `e` by walking exactly `d` enclosing
    /// links.
    pub open spec fn ancestor(self, e: int, d: int) -> Option<int>
        decreases d,
        when d >= 0
    {
        if d == 0 {
            Some(e)
        } else {
            match self.scopes@[e].enclosing {
                Some(enc) => self.ancestor(enc as int, d - 1),
                None => None,
            }
        }
    }

    /// The value reached by walking exactly `d` enclosing links from
    /// `e` and reading `name` in the scope there: what a
    /// distance-directed read returns.
    pub open spec fn distance_lookup(self, e: int, d: int, name: Seq<char>) -> Option<Object> {
        match self.ancestor(e, d) {
            Some(a) => self.scope_lookup(a, name),
            None => None,
        }
    }

    /// The innermost scope of `e`'s chain that binds `name`.
    pub open spec fn owner(self, e: int, name: Seq<char>) -> Option<int>
        decreases e,
        when self.wf() && 0 <= e < self.scopes@.len()
    {
        if self.scope_lookup(e, name) is Some {
            Some(e)
        } else {
            match self.scopes@[e].enclosing {
                Some(enc) => self.owner(enc as int, name),
                None => None,
            }
        }
    }

    /// A fresh store holding only an empty global scope.
    pub fn new() -> (env: Environment)
        ensures
            env.wf(),
            env.scopes@.len() == 1,
            env.scopes@[0].bindings@.len() == 0,
            env.scopes@[0].enclosing is None,
    {
        let mut scopes: Vec<Scope> = Vec::new();
        scopes.push(Scope { bindings: Vec::new(), enclosing: None });
        Environment { scopes }
    }

    /// Allocates a fresh, empty scope whose enclosing link is
    /// `enclosing`, and returns its index.  The new index is distinct
    /// from every existing one.
    pub fn new_with_enclosing(&mut self, enclosing: usize) -> (e: usize)
        requires
            old(self).wf(),
            enclosing < old(self).scopes@.len(),
        ensures
            final(self).wf(),
            e == old(self).scopes@.len(),
            final(self).scopes@.len() == old(self).scopes@.len() + 1,
            final(self).scopes@[e as int].bindings@.len() == 0,
            final(self).scopes@[e as int].enclosing == Some(enclosing),
            forall|i: int|
                0 <= i < old(self).scopes@.len() ==> final(self).scopes@[i] == old(
                    self,
                ).scopes@[i],
    {
        let e = self.scopes.len();
        self.scopes.push(Scope { bindings: Vec::new(), enclosing: Some(enclosing) });
        e
    }

    /// Inserts or shadows a binding in scope `e` alone.
    pub fn define(&mut self, e: usize, name: String, value: Object)
        requires
            old(self).wf(),
            e < old(self).scopes@.len(),
        ensures
            final(self).wf(),
            final(self).scopes@.len() == old(self).scopes@.len(),
            final(self).scopes@[e as int].bindings@ == old(self).scopes@[e as int].bindings@.push(
                (name, value),
            ),
            final(self).scopes@[e as int].enclosing == old(self).scopes@[e as int].enclosing,
            forall|i: int|
                0 <= i < old(self).scopes@.len() && i != e ==> final(self).scopes@[i] == old(
                    self,
                ).scopes@[i],
            final(self).scope_lookup(e as int, name@) == Some(value),
            forall|m: Seq<char>|
                m != name@ ==> #[trigger] final(self).scope_lookup(e as int, m) == old(
                    self,
                ).scope_lookup(e as int, m),
    {
        let scope = &mut self.scopes[e];
        scope.bindings.push((name, value));
        proof {
            let post = final(self).scopes@[e as int].bindings@;
            assert(post.drop_last() =~= old(self).scopes@[e as int].bindings@);
        }
    }

    /// Reads `name` through the scope chain starting at `e`.
    pub fn get(&self, e: usize, token: &Token) -> (r: Result<Object, Error>)
        requires
            self.wf(),
            e < self.scopes@.len(),
        ensures
            match r {
                Ok(v) => self.chain_lookup(e as int, token.lexeme@) == Some(v),
                Err(err) => self.chain_lookup(e as int, token.lexeme@) is None && (
                err matches Error::RuntimeError { token: t, message: _ } && t == *token),
            },
    {
        let mut cur = e;
        loop
            invariant
                self.wf(),
                cur < self.scopes@.len(),
                self.chain_lookup(e as int, token.lexeme@) == self.chain_lookup(
                    cur as int,
                    token.lexeme@,
                ),
            decreases cur,
        {
            match self.scope_get(cur, token.lexeme.as_str()) {
                Some(v) => {
                    return Ok(v);
                },
                None => {
                    match self.scopes[cur].enclosing {
                        Some(enc) => {
                            cur = enc;
                        },
                        None => {
                            return Err(undefined_variable(token));
                        },
                    }
                },
            }
        }
    }

    /// Assigns to an existing binding of `name`, searching the chain
    /// from `e`; never creates a binding.  On success the innermost
    /// scope of the chain that binds `name` — and no other scope — is
    /// changed, and only in what it binds `name` to.
    pub fn assign(&mut self, e: usize, token: &Token, value: Object) -> (r: Result<(), Error>)
        requires
            old(self).wf(),
            e < old(self).scopes@.len(),
        ensures
            final(self).wf(),
            final(self).scopes@.len() == old(self).scopes@.len(),
            forall|i: int|
                0 <= i < old(self).scopes@.len() ==> (#[trigger] final(self).scopes@[i]).enclosing
                    == old(self).scopes@[i].enclosing && final(self).scopes@[i].bindings@.len()
                    == old(self).scopes@[i].bindings@.len(),
            match r {
                Ok(_) => {
                    &&& old(self).chain_lookup(e as int, token.lexeme@) is Some
                    &&& final(self).chain_lookup(e as int, token.lexeme@) == Some(value)
                    &&& old(self).owner(e as int, token.lexeme@) matches Some(w)
                        && (forall|i: int|
                        0 <= i < old(self).scopes@.len() && i != w
                            ==> #[trigger] final(self).scopes@[i] == old(self).scopes@[i]) && (
                    forall|m: Seq<char>|
                        m != token.lexeme@ ==> #[trigger] final(self).scope_lookup(w, m) == old(
                            self,
                        ).scope_lookup(w, m)) && final(self).scope_lookup(w, token.lexeme@)
                        == Some(value)
                },
                Err(err) => {
                    &&& old(self).chain_lookup(e as int, token.lexeme@) is None
                    &&& *final(self) == *old(self)
                    &&& (err matches Error::RuntimeError { token: t, message: _ } && t == *token)
                },
            },
    {
        let mut cur = e;
        loop
            invariant
                self.wf(),
                e < self.scopes@.len(),
                cur < self.scopes@.len(),
                *self == *old(self),
                self.chain_lookup(e as int, token.lexeme@) == self.chain_lookup(
                    cur as int,
                    token.lexeme@,
                ),
                self.owner(e as int, token.lexeme@) == self.owner(cur as int, token.lexeme@),
            decreases cur,
        {
            match find_last(&self.scopes[cur].bindings, token.lexeme.as_str()) {
                Some(i) => {
                    proof {
                        lemma_lookup_at_last_match(
                            self.scopes@[cur as int].bindings@,
                            token.lexeme@,
                            i as int,
                        );
                    }
                    let scope = &mut self.scopes[cur];
                    let pair = &mut scope.bindings[i];
                    pair.1 = value;
                    proof {
                        let oldb = old(self).scopes@[cur as int].bindings@;
                        let newb = final(self).scopes@[cur as int].bindings@;
                        assert(newb =~= oldb.update(i as int, (oldb[i as int].0, value)));
                        lemma_lookup_after_value_update(oldb, token.lexeme@, i as int, value);
                        assert(old(self).owner(e as int, token.lexeme@) == Some(cur as int));
                        assert forall|j: int|
                            0 <= j < final(self).scopes@.len() implies ((
                        #[trigger] final(self).scope_lookup(j, token.lexeme@)) is Some
                            <==> old(self).scope_lookup(j, token.lexeme@) is Some) by {
                            if j != cur {
                                assert(final(self).scopes@[j] == old(self).scopes@[j]);
                            }
                        };
                        lemma_owner_congruence(*old(self), *final(self), e as int, token.lexeme@);
                        lemma_owner_chain(*final(self), e as int, token.lexeme@);
                    }
                    return Ok(());
                },
                None => {
                    proof {
                        lemma_lookup_no_match(self.scopes@[cur as int].bindings@, token.lexeme@);
                    }
                    match self.scopes[cur].enclosing {
                        Some(enc) => {
                            cur = enc;
                        },
                        None => {
                            return Err(undefined_variable(token));
                        },
                    }
                },
            }
        }
    }

    /// Reads `name` in the scope exactly `d` enclosing links above
    /// `e`, with no name search along the way.  `None` when the chain
    /// is shorter than `d` or that scope does not bind `name`.
    pub fn get_at(&self, e: usize, distance: usize, name: &str) -> (r: Option<Object>)
        requires
            self.wf(),
            e < self.scopes@.len(),
        ensures
            r == self.distance_lookup(e as int, distance as int, name@),
            match r {
                Some(v) => (self.ancestor(e as int, distance as int) matches Some(a)
                    && self.scope_lookup(a, name@) == Some(v)),
                None => match self.ancestor(e as int, distance as int) {
                    Some(a) => self.scope_lookup(a, name@) is None,
                    None => true,
                },
            },
    {
        match self.walk(e, distance) {
            Some(a) => self.scope_get(a, name),
            None => None,
        }
    }

    /// Assigns to `name` in the scope exactly `d` enclosing links
    /// above `e`; on success only that scope's binding of `name`
    /// changes.
    pub fn assign_at(&mut self, e: usize, distance: usize, name: &Token, value: Object) -> (r:
        Result<(), Error>)
        requires
            old(self).wf(),
            e < old(self).scopes@.len(),
        ensures
            final(self).wf(),
            final(self).scopes@.len() == old(self).scopes@.len(),
            forall|i: int|
                0 <= i < old(self).scopes@.len() ==> (#[trigger] final(self).scopes@[i]).enclosing
                    == old(self).scopes@[i].enclosing && final(self).scopes@[i].bindings@.len()
                    == old(self).scopes@[i].bindings@.len(),
            match r {
                Ok(_) => {
                    &&& old(self).ancestor(e as int, distance as int) matches Some(a) && (forall|
                        i: int,
                    |
                        0 <= i < old(self).scopes@.len() && i != a
                            ==> #[trigger] final(self).scopes@[i] == old(self).scopes@[i]) && (
                    forall|m: Seq<char>|
                        m != name.lexeme@ ==> #[trigger] final(self).scope_lookup(a, m) == old(
                            self,
                        ).scope_lookup(a, m)) && final(self).scope_lookup(a, name.lexeme@) == Some(
                        value,
                    ) && old(self).scope_lookup(a, name.lexeme@) is Some
                },
                Err(err) => {
                    &&& *final(self) == *old(self)
                    &&& (match old(self).ancestor(e as int, distance as int) {
                        Some(a) => old(self).scope_lookup(a, name.lexeme@) is None,
                        None => true,
                    })
                    &&& (err matches Error::RuntimeError { token: t, message: _ } && t == *name)
                },
            },
    {
        match self.walk(e, distance) {
            Some(a) => {
                match find_last(&self.scopes[a].bindings, name.lexeme.as_str()) {
                    Some(i) => {
                        proof {
                            lemma_lookup_at_last_match(
                                self.scopes@[a as int].bindings@,
                                name.lexeme@,
                                i as int,
                            );
                        }
                        let scope = &mut self.scopes[a];
                        let pair = &mut scope.bindings[i];
                        pair.1 = value;
                        proof {
                            let oldb = old(self).scopes@[a as int].bindings@;
                            let newb = final(self).scopes@[a as int].bindings@;
                            assert(newb =~= oldb.update(i as int, (oldb[i as int].0, value)));
                            lemma_lookup_after_value_update(oldb, name.lexeme@, i as int, value);
                        }
                        Ok(())
                    },
                    None => {
                        proof {
                            lemma_lookup_no_match(self.scopes@[a as int].bindings@, name.lexeme@);
                        }
                        Err(undefined_variable(name))
                    },
                }
            },
            None => Err(undefined_variable(name)),
        }
    }

    /// Walks exactly `distance` enclosing links from `e`.
    fn walk(&self, e: usize, distance: usize) -> (r: Option<usize>)
        requires
            self.wf(),
            e < self.scopes@.len(),
        ensures
            match r {
                Some(a) => self.ancestor(e as int, distance as int) == Some(a as int) && a
                    < self.scopes@.len(),
                None => self.ancestor(e as int, distance as int) is None,
            },
    {
        let mut cur = e;
        let mut left = distance;
        loop
            invariant
                self.wf(),
                cur < self.scopes@.len(),
                left <= distance,
                self.ancestor(e as int, distance as int) == self.ancestor(cur as int, left as int),
            decreases left,
        {
            if left == 0 {
                return Some(cur);
            }
            match self.scopes[cur].enclosing {
                Some(enc) => {
                    cur = enc;
                    left = left - 1;
                },
                None => {
                    return None;
                },
            }
        }
    }

    /// Reads `name` in scope `e` alone.
    fn scope_get(&self, e: usize, name: &str) -> (r: Option<Object>)
        requires
            self.wf(),
            e < self.scopes@.len(),
        ensures
            r == self.scope_lookup(e as int, name@),
    {
        match find_last(&self.scopes[e].bindings, name) {
            Some(i) => {
                proof {
                    lemma_lookup_at_last_match(self.scopes@[e as int].bindings@, name@, i as int);
                }
                Some(self.scopes[e].bindings[i].1.clone())
            },
            None => {
                proof {
                    lemma_lookup_no_match(self.scopes@[e as int].bindings@, name@);
                }
                None
            },
        }
    }
}

/// The index of the newest binding of `name`, scanning from the end.
pub fn find_last<V>(bindings: &Vec<(String, V)>, name: &str) -> (r: Option<usize>)
    ensures
        match r {
            Some(i) => i < bindings@.len() && bindings@[i as int].0@ == name@ && (forall|j: int|
                i < j < bindings@.len() ==> bindings@[j].0@ != name@),
            None => forall|j: int| 0 <= j < bindings@.len() ==> bindings@[j].0@ != name@,
        },
{
    let mut i = bindings.len();
    while i > 0
        invariant
            i <= bindings@.len(),
            forall|j: int| i <= j < bindings@.len() ==> bindings@[j].0@ != name@,
        decreases i,
    {
        i = i - 1;
        if str_eq(bindings[i].0.as_str(), name) {
            return Some(i);
        }
    }
    None
}

/// The runtime error for a name that no scope of the chain binds.
pub(crate) fn undefined_variable(token: &Token) -> (e: Error)
    ensures
        (e matches Error::RuntimeError { token: t, message: _ } && t == *token),
{
    proof {
        reveal_strlit("Undefined variable '");
        reveal_strlit("'.");
    }
    let mut message = "Undefined variable '".to_owned();
    message.append(token.lexeme.as_str());
    message.append("'.");
    Error::runtime_error(token, message.as_str())
}

/// A newest match at `i` settles an association-list lookup.
pub proof fn lemma_lookup_at_last_match<V>(pairs: Seq<(String, V)>, name: Seq<char>, i: int)
    requires
        0 <= i < pairs.len(),
        pairs[i].0@ == name,
        forall|j: int| i < j < pairs.len() ==> pairs[j].0@ != name,
    ensures
        lookup_pairs(pairs, name) == Some(pairs[i].1),
    decreases pairs.len(),
{
    if i == pairs.len() - 1 {
    } else {
        assert(pairs.drop_last()[i] == pairs[i]);
        lemma_lookup_at_last_match(pairs.drop_last(), name, i);
    }
}

/// No match anywhere settles an association-list lookup.
pub proof fn lemma_lookup_no_match<V>(pairs: Seq<(String, V)>, name: Seq<char>)
    requires
        forall|j: int| 0 <= j < pairs.len() ==> pairs[j].0@ != name,
    ensures
        lookup_pairs(pairs, name) is None,
    decreases pairs.len(),
{
    if pairs.len() > 0 {
        lemma_lookup_no_match(pairs.drop_last(), name);
    }
}

/// Updating the value of the newest binding of `name` rebinds `name`
/// and leaves every other name's lookup unchanged.
pub proof fn lemma_lookup_after_value_update<V>(
    pairs: Seq<(String, V)>,
    name: Seq<char>,
    i: int,
    value: V,
)
    requires
        0 <= i < pairs.len(),
        pairs[i].0@ == name,
        forall|j: int| i < j < pairs.len() ==> pairs[j].0@ != name,
    ensures
        lookup_pairs(pairs.update(i, (pairs[i].0, value)), name) == Some(value),
        forall|m: Seq<char>|
            m != name ==> #[trigger] lookup_pairs(pairs.update(i, (pairs[i].0, value)), m)
                == lookup_pairs(pairs, m),
    decreases pairs.len(),
{
    let updated = pairs.update(i, (pairs[i].0, value));
    lemma_lookup_at_last_match(updated, name, i);
    assert forall|m: Seq<char>| m != name implies #[trigger] lookup_pairs(updated, m)
        == lookup_pairs(pairs, m) by {
        lemma_lookup_other_names(pairs, name, i, value, m);
    }
}

/// Helper for the frame of `lemma_lookup_after_value_update`.
proof fn lemma_lookup_other_names<V>(
    pairs: Seq<(String, V)>,
    name: Seq<char>,
    i: int,
    value: V,
    m: Seq<char>,
)
    requires
        0 <= i < pairs.len(),
        pairs[i].0@ == name,
        m != name,
    ensures
        lookup_pairs(pairs.update(i, (pairs[i].0, value)), m) == lookup_pairs(pairs, m),
    decreases pairs.len(),
{
    let updated = pairs.update(i, (pairs[i].0, value));
    if i == pairs.len() - 1 {
        assert(updated.drop_last() =~= pairs.drop_last());
    } else {
        assert(updated.last() == pairs.last());
        assert(updated.drop_last() =~= pairs.drop_last().update(i, (pairs[i].0, value)));
        assert(pairs.drop_last()[i] == pairs[i]);
        lemma_lookup_other_names(pairs.drop_last(), name, i, value, m);
    }
}

/// The owner of a name, when there is one, lies within the chain, and
/// the chain lookup answers from it.
pub proof fn lemma_owner_chain(env: Environment, e: int, name: Seq<char>)
    requires
        env.wf(),
        0 <= e < env.scopes@.len(),
    ensures
        match env.owner(e, name) {
            Some(w) => 0 <= w <= e && env.scope_lookup(w, name) is Some && env.chain_lookup(
                e,
                name,
            ) == env.scope_lookup(w, name),
            None => env.chain_lookup(e, name) is None,
        },
    decreases e,
{
    if env.scope_lookup(e, name) is None {
        match env.scopes@[e].enclosing {
            Some(enc) => {
                lemma_owner_chain(env, enc as int, name);
            },
            None => {},
        }
    }
}

/// Two stores whose enclosing links agree walk to the same ancestor.
pub proof fn lemma_ancestor_congruence(s1: Environment, s2: Environment, e: int, d: int)
    requires
        s1.wf(),
        0 <= d,
        0 <= e < s1.scopes@.len(),
        s1.scopes@.len() <= s2.scopes@.len(),
        forall|j: int|
            0 <= j < s1.scopes@.len() ==> (#[trigger] s2.scopes@[j]).enclosing
                == s1.scopes@[j].enclosing,
    ensures
        s2.ancestor(e, d) == s1.ancestor(e, d),
    decreases d,
{
    if d > 0 {
        match s1.scopes@[e].enclosing {
            Some(enc) => {
                lemma_ancestor_congruence(s1, s2, enc as int, d - 1);
            },
            None => {},
        }
    }
}

/// Two stores of the same shape whose scopes bind a name in the same
/// places have the same owner for it.
pub proof fn lemma_owner_congruence(s1: Environment, s2: Environment, e: int, name: Seq<char>)
    requires
        s1.wf(),
        s2.wf(),
        s1.scopes@.len() == s2.scopes@.len(),
        0 <= e < s1.scopes@.len(),
        forall|j: int|
            0 <= j < s1.scopes@.len() ==> (#[trigger] s2.scopes@[j]).enclosing
                == s1.scopes@[j].enclosing,
        forall|j: int|
            0 <= j < s1.scopes@.len() ==> ((#[trigger] s2.scope_lookup(j, name)) is Some
                <==> s1.scope_lookup(j, name) is Some),
    ensures
        s2.owner(e, name) == s1.owner(e, name),
    decreases e,
{
    if s1.scope_lookup(e, name) is None {
        match s1.scopes@[e].enclosing {
            Some(enc) => {
                lemma_owner_congruence(s1, s2, enc as int, name);
            },
            None => {},
        }
    }
}

/// Two stores with the same shape and the same per-scope lookups for a
/// name agree on every chain lookup of that name.
pub proof fn lemma_chain_congruence(s1: Environment, s2: Environment, e: int, m: Seq<char>)
    requires
        s1.wf(),
        s2.wf(),
        s1.scopes@.len() == s2.scopes@.len(),
        0 <= e < s1.scopes@.len(),
        forall|j: int|
            0 <= j < s1.scopes@.len() ==> (#[trigger] s2.scopes@[j]).enclosing
                == s1.scopes@[j].enclosing,
        forall|j: int|
            0 <= j < s1.scopes@.len() ==> #[trigger] s2.scope_lookup(j, m) == s1.scope_lookup(j, m),
    ensures
        s2.chain_lookup(e, m) == s1.chain_lookup(e, m),
    decreases e,
{
    match s1.scopes@[e].enclosing {
        Some(enc) => {
            lemma_chain_congruence(s1, s2, enc as int, m);
        },
        None => {},
    }
}

/// Once a distance is fixed, a distance-directed read cannot miss: a
/// binding at the scope exactly `d` links above `e` forces the
/// successful arm of `get_at`'s contract, with exactly that binding's
/// value.  No "undefined variable" outcome is possible for a reference
/// whose scope binds it.
pub proof fn lemma_resolved_get_at_succeeds(
    env: Environment,
    e: int,
    d: int,
    a: int,
    name: Seq<char>,
    r: Option<Object>,
)
    requires
        env.wf(),
        0 <= e < env.scopes@.len(),
        env.ancestor(e, d) == Some(a),
        env.scope_lookup(a, name) is Some,
        match r {
            Some(v) => (env.ancestor(e, d) matches Some(w) && env.scope_lookup(w, name) == Some(
                v,
            )),
            None => match env.ancestor(e, d) {
                Some(w) => env.scope_lookup(w, name) is None,
                None => true,
            },
        },
    ensures
        r == env.scope_lookup(a, name),
{
}

/// Distinct scopes are distinct slots: when two scopes each bind a
/// name, a chain lookup starting at either scope answers with that
/// scope's own binding, untouched by the other's.  Closures created in
/// different loop iterations capture different scopes, so each reads
/// its own value.
pub proof fn lemma_distinct_scopes_distinct_slots(
    env: Environment,
    a: int,
    b: int,
    name: Seq<char>,
    va: Object,
    vb: Object,
)
    requires
        env.wf(),
        0 <= a < env.scopes@.len(),
        0 <= b < env.scopes@.len(),
        a != b,
        env.scope_lookup(a, name) == Some(va),
        env.scope_lookup(b, name) == Some(vb),
    ensures
        env.chain_lookup(a, name) == Some(va),
        env.chain_lookup(b, name) == Some(vb),
{
}

/// Defining a name and reading it back through the same scope yields
/// the defined value, whatever was bound before.
pub proof fn lemma_define_get_roundtrip(
    pre: Environment,
    post: Environment,
    e: int,
    name: String,
    v: Object,
)
    requires
        pre.wf(),
        post.wf(),
        0 <= e < pre.scopes@.len(),
        post.scopes@.len() == pre.scopes@.len(),
        post.scopes@[e].bindings@ == pre.scopes@[e].bindings@.push((name, v)),
    ensures
        post.chain_lookup(e, name@) == Some(v),
{
    assert(post.scopes@[e].bindings@.last() == (name, v));
}

} // verus!
