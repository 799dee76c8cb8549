//! A parenthesized, prefix-notation view of expression trees, for
//! display and debugging.

use vstd::prelude::*;

verus! {

use crate::expr::Expr;
use crate::numbers::{i64_to_string, int_rep};
use crate::program::Program;
use crate::tokens::Object;

/// The display text of a literal value.
pub open spec fn literal_text(v: Object) -> Seq<char> {
    match v {
        Object::Num(x) => int_rep(x as int),
        Object::Str(s) => s@,
        Object::Bool(b) => if b {
            "true"@
        } else {
            "false"@
        },
        Object::Nil => "nil"@,
        _ => "?"@,
    }
}

/// The prefix-notation text of the expression tree under `eid`.
/// Kinds outside the printable core render as a placeholder.
pub open spec fn ast_text(p: Program, eid: int) -> Seq<char>
    decreases eid,
    when p.wf() && 0 <= eid < p.exprs@.len()
{
    match p.exprs@[eid] {
        Expr::Binary(b) => seq!['('] + b.operator.lexeme@ + seq![' '] + ast_text(
            p,
            b.left as int,
        ) + seq![' '] + ast_text(p, b.right as int) + seq![')'],
        Expr::Grouping(g) => "(group "@ + ast_text(p, g.expression as int) + seq![')'],
        Expr::Literal(l) => match l.value {
            Some(v) => literal_text(v),
            None => "nil"@,
        },
        Expr::Unary(u) => seq!['('] + u.operator.lexeme@ + seq![' '] + ast_text(
            p,
            u.right as int,
        ) + seq![')'],
        _ => "?"@,
    }
}

/// The rendered subexpressions of a parenthesized group, each behind
/// one space.
pub open spec fn joined_text(p: Program, ids: Seq<usize>) -> Seq<char>
    decreases ids.len(),
{
    if ids.len() == 0 {
        Seq::<char>::empty()
    } else {
        joined_text(p, ids.drop_last()) + seq![' '] + ast_text(p, ids.last() as int)
    }
}

pub struct AstPrinter;

impl AstPrinter {
    /// Renders the expression tree under `eid` in prefix notation.
    pub fn print(&self, p: &Program, eid: usize) -> (s: String)
        requires
            p.wf(),
            eid < p.exprs@.len(),
        ensures
            s@ == ast_text(*p, eid as int),
        decreases eid,
    {
        proof {
            reveal_strlit("(");
            reveal_strlit(" ");
            reveal_strlit(")");
            reveal_strlit("(group ");
            reveal_strlit("true");
            reveal_strlit("false");
            reveal_strlit("nil");
            reveal_strlit("?");
            assert(crate::expr::expr_wf(p.exprs@[eid as int], eid as int));
        }
        match &p.exprs[eid] {
            Expr::Binary(b) => {
                let mut s = "(".to_owned();
                s.append(b.operator.lexeme.as_str());
                s.append(" ");
                s.append(self.print(p, b.left).as_str());
                s.append(" ");
                s.append(self.print(p, b.right).as_str());
                s.append(")");
                proof {
                    assert(s@ =~= ast_text(*p, eid as int));
                }
                s
            },
            Expr::Grouping(g) => {
                let mut s = "(group ".to_owned();
                s.append(self.print(p, g.expression).as_str());
                s.append(")");
                proof {
                    assert(s@ =~= ast_text(*p, eid as int));
                }
                s
            },
            Expr::Literal(l) => match &l.value {
                Some(v) => match v {
                    Object::Num(x) => i64_to_string(*x),
                    Object::Str(text) => text.clone(),
                    Object::Bool(b) => if *b {
                        "true".to_owned()
                    } else {
                        "false".to_owned()
                    },
                    Object::Nil => "nil".to_owned(),
                    _ => "?".to_owned(),
                },
                None => "nil".to_owned(),
            },
            Expr::Unary(u) => {
                let mut s = "(".to_owned();
                s.append(u.operator.lexeme.as_str());
                s.append(" ");
                s.append(self.print(p, u.right).as_str());
                s.append(")");
                proof {
                    assert(s@ =~= ast_text(*p, eid as int));
                }
                s
            },
            _ => "?".to_owned(),
        }
    }

    /// Joins rendered subexpressions under a head word, parenthesized.
    pub fn parenthesize(&self, p: &Program, name: &str, exprs: &Vec<usize>) -> (s: String)
        requires
            p.wf(),
            forall|k: int| 0 <= k < exprs@.len() ==> exprs@[k] < p.exprs@.len(),
        ensures
            s@ == seq!['('] + name@ + joined_text(*p, exprs@) + seq![')'],
    {
        proof {
            reveal_strlit("(");
            reveal_strlit(" ");
            reveal_strlit(")");
        }
        let mut s = "(".to_owned();
        s.append(name);
        let n = exprs.len();
        let mut i: usize = 0;
        while i < n
            invariant
                p.wf(),
                n == exprs@.len(),
                forall|k: int| 0 <= k < exprs@.len() ==> exprs@[k] < p.exprs@.len(),
                i <= n,
                s@ == seq!['('] + name@ + joined_text(*p, exprs@.take(i as int)),
            decreases n - i,
        {
            proof {
                reveal_strlit(" ");
                assert(exprs@.take(i + 1).drop_last() =~= exprs@.take(i as int));
            }
            s.append(" ");
            s.append(self.print(p, exprs[i]).as_str());
            i = i + 1;
        }
        proof {
            assert(exprs@.take(n as int) =~= exprs@);
        }
        s.append(")");
        s
    }
}

} // verus!
