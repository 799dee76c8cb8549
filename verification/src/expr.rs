//! Expression nodes.
//!
//! Expressions live in an arena (see [`crate::program::Program`]); a
//! node refers to its children by index, and a well-formed node's
//! children all have smaller indices than the node itself.  The index
//! of a node is its stable identity: it keys the binding-distance
//! table, so that two syntactically identical references at different
//! positions resolve independently.

use vstd::prelude::*;

verus! {

use crate::tokens::{obj_is_primitive, Object, Token};

pub struct AssignExpr {
    pub name: Token,
    pub value: usize,
}

pub struct BinaryExpr {
    pub left: usize,
    pub operator: Token,
    pub right: usize,
}

pub struct CallExpr {
    pub callee: usize,
    pub paren: Token,
    pub arguments: Vec<usize>,
}

pub struct GetExpr {
    pub object: usize,
    pub name: Token,
}

pub struct GroupingExpr {
    pub expression: usize,
}

pub struct LiteralExpr {
    pub value: Option<Object>,
}

pub struct LogicalExpr {
    pub left: usize,
    pub operator: Token,
    pub right: usize,
}

pub struct SetExpr {
    pub object: usize,
    pub name: Token,
    pub value: usize,
}

pub struct SuperExpr {
    pub keyword: Token,
    pub method: Token,
}

pub struct ThisExpr {
    pub keyword: Token,
}

pub struct UnaryExpr {
    pub operator: Token,
    pub right: usize,
}

pub struct VariableExpr {
    pub name: Token,
}

/// An expression node; children are arena indices.
pub enum Expr {
    Assign(AssignExpr),
    Binary(BinaryExpr),
    Call(CallExpr),
    Get(GetExpr),
    Grouping(GroupingExpr),
    Literal(LiteralExpr),
    Logical(LogicalExpr),
    SetField(SetExpr),
    Super(SuperExpr),
    This(ThisExpr),
    Unary(UnaryExpr),
    Variable(VariableExpr),
}

/// Children of the node at index `i` come strictly before it in the
/// arena, and a literal carries only a primitive value.
pub open spec fn expr_wf(e: Expr, i: int) -> bool {
    match e {
        Expr::Assign(a) => a.value < i,
        Expr::Binary(b) => b.left < i && b.right < i,
        Expr::Call(c) => c.callee < i && forall|k: int|
            0 <= k < c.arguments@.len() ==> c.arguments@[k] < i,
        Expr::Get(g) => g.object < i,
        Expr::Grouping(g) => g.expression < i,
        Expr::Literal(l) => match l.value {
            Some(v) => obj_is_primitive(v),
            None => true,
        },
        Expr::Logical(l) => l.left < i && l.right < i,
        Expr::SetField(s) => s.object < i && s.value < i,
        Expr::Super(_) => true,
        Expr::This(_) => true,
        Expr::Unary(u) => u.right < i,
        Expr::Variable(_) => true,
    }
}

} // verus!
