use vstd::prelude::*;

use crate::token::Token;

verus! {

/// An expression tree. Each interior node carries the operator token it was
/// parsed from; each child has exactly one parent.
pub enum Expr {
    Binary(BinaryExpr),
    Grouping(GroupingExpr),
    Unary(UnaryExpr),
    BooleanLiteral(BooleanLiteral),
    NumberLiteral(NumberLiteral),
    StringLiteral(StringLiteral),
    NilLiteral(NilLiteral),
}

pub struct BinaryExpr {
    pub left: Box<Expr>,
    pub operator: Token,
    pub right: Box<Expr>,
}

pub struct GroupingExpr {
    pub expression: Box<Expr>,
}

pub struct UnaryExpr {
    pub operator: Token,
    pub right: Box<Expr>,
}

pub struct BooleanLiteral {
    pub value: bool,
}

/// A number literal, held as the numeral written in the source.
pub struct NumberLiteral {
    pub value: String,
}

pub struct StringLiteral {
    pub value: String,
}

pub struct NilLiteral {}

impl BinaryExpr {
    pub fn new(left_expr: Expr, operator: Token, right_expr: Expr) -> (r: BinaryExpr)
        ensures
            *r.left == left_expr,
            r.operator == operator,
            *r.right == right_expr,
    {
        BinaryExpr { left: Box::new(left_expr), operator, right: Box::new(right_expr) }
    }
}

impl GroupingExpr {
    pub fn new(expression: Expr) -> (r: GroupingExpr)
        ensures
            *r.expression == expression,
    {
        GroupingExpr { expression: Box::new(expression) }
    }
}

} // verus!
