//! Expression trees and runtime values.
//!
//! The expression variant set is closed: binary and unary operator
//! applications, literals, parenthesized groupings and variable
//! references.  Each node owns its children outright, so a tree has no
//! sharing and no cycles.  Runtime values are numbers (carried as the
//! bit pattern of an IEEE-754 double), byte strings, booleans and nil.
use vstd::prelude::*;

use crate::bytes::bytes_eq;
use crate::bytes::copy_bytes;
use crate::numbers::compare_numbers;
use crate::numbers::format_number;
use crate::numbers::num_cmp_code;
use crate::numbers::num_text;
use crate::token::Token;
use crate::token::TokenV;

verus! {

/// A runtime value: the result of evaluating an expression, and the
/// payload of a literal.
#[derive(Debug, PartialEq)]
pub enum LiteralValue {
    Str(Vec<u8>),
    Number(u64),
    Bool(bool),
    Nil,
}

/// Mathematical image of a [`LiteralValue`].
pub enum ValueV {
    Str(Seq<u8>),
    Number(u64),
    Bool(bool),
    Nil,
}

impl View for LiteralValue {
    type V = ValueV;

    open spec fn view(&self) -> ValueV {
        match self {
            LiteralValue::Str(s) => ValueV::Str(s@),
            LiteralValue::Number(b) => ValueV::Number(*b),
            LiteralValue::Bool(b) => ValueV::Bool(*b),
            LiteralValue::Nil => ValueV::Nil,
        }
    }
}

impl Clone for LiteralValue {
    /// Clones the value; the image is unchanged.
    fn clone(&self) -> (res: LiteralValue)
        ensures
            res@ == self@,
    {
        match self {
            LiteralValue::Str(s) => LiteralValue::Str(copy_bytes(s.as_slice())),
            LiteralValue::Number(b) => LiteralValue::Number(*b),
            LiteralValue::Bool(b) => LiteralValue::Bool(*b),
            LiteralValue::Nil => LiteralValue::Nil,
        }
    }
}

/// Truthiness: nil and false are falsy; every other value, including
/// zero and the empty string, is truthy.
pub open spec fn truthy(v: ValueV) -> bool {
    match v {
        ValueV::Nil => false,
        ValueV::Bool(b) => b,
        _ => true,
    }
}

/// Structural, non-coercive equality of runtime values.  Values of
/// different variants are never equal; numbers compare by IEEE-754
/// equality.
pub open spec fn values_equal(l: ValueV, r: ValueV) -> bool {
    match (l, r) {
        (ValueV::Number(a), ValueV::Number(b)) => num_cmp_code(a, b) == 1,
        (ValueV::Str(a), ValueV::Str(b)) => a == b,
        (ValueV::Bool(a), ValueV::Bool(b)) => a == b,
        (ValueV::Nil, ValueV::Nil) => true,
        _ => false,
    }
}

/// The textual form of a value, as one line of output prints it.
pub open spec fn value_text(v: ValueV) -> Seq<u8> {
    match v {
        ValueV::Number(b) => num_text(b),
        ValueV::Str(s) => s,
        ValueV::Bool(b) => if b {
            crate::text::txt_true()
        } else {
            crate::text::txt_false()
        },
        ValueV::Nil => crate::text::txt_nil(),
    }
}

impl LiteralValue {
    /// Decides [`values_equal`] on two values.
    pub fn equals(&self, other: &LiteralValue) -> (r: bool)
        ensures
            r == values_equal(self@, other@),
    {
        match (self, other) {
            (LiteralValue::Number(a), LiteralValue::Number(b)) => compare_numbers(*a, *b) == 1,
            (LiteralValue::Str(a), LiteralValue::Str(b)) => bytes_eq(a.as_slice(), b.as_slice()),
            (LiteralValue::Bool(a), LiteralValue::Bool(b)) => a == b,
            (LiteralValue::Nil, LiteralValue::Nil) => true,
            _ => false,
        }
    }

    /// Renders [`value_text`] for this value.
    pub fn to_text(&self) -> (r: Vec<u8>)
        ensures
            r@ == value_text(self@),
    {
        match self {
            LiteralValue::Number(b) => format_number(*b),
            LiteralValue::Str(s) => copy_bytes(s.as_slice()),
            LiteralValue::Bool(b) => if *b {
                crate::text::txt_true_vec()
            } else {
                crate::text::txt_false_vec()
            },
            LiteralValue::Nil => crate::text::txt_nil_vec(),
        }
    }
}

/// A binary operator application.
#[derive(Debug)]
pub struct BinaryExpr {
    pub left: Expr,
    pub operator: Token,
    pub right: Expr,
}

/// A unary operator application.
#[derive(Debug)]
pub struct UnaryExpr {
    pub operator: Token,
    pub right: Expr,
}

/// A literal.
#[derive(Debug)]
pub struct LiteralExpr {
    pub value: LiteralValue,
}

/// A parenthesized expression.
#[derive(Debug)]
pub struct GroupingExpr {
    pub expr: Expr,
}

/// A variable reference.
#[derive(Debug)]
pub struct VarExpr {
    pub name: Token,
}

/// An expression tree.
#[derive(Debug)]
pub enum Expr {
    Binary(Box<BinaryExpr>),
    Unary(Box<UnaryExpr>),
    Literal(Box<LiteralExpr>),
    Grouping(Box<GroupingExpr>),
    Variable(Box<VarExpr>),
}

/// Mathematical image of an [`Expr`].
pub enum ExprV {
    Binary { left: Box<ExprV>, op: TokenV, right: Box<ExprV> },
    Unary { op: TokenV, right: Box<ExprV> },
    Literal { value: ValueV },
    Grouping { inner: Box<ExprV> },
    Variable { name: TokenV },
}

/// The image of an expression tree.
pub open spec fn expr_view(e: Expr) -> ExprV
    decreases e,
{
    match e {
        Expr::Binary(b) => ExprV::Binary {
            left: Box::new(expr_view((*b).left)),
            op: (*b).operator@,
            right: Box::new(expr_view((*b).right)),
        },
        Expr::Unary(u) => ExprV::Unary { op: (*u).operator@, right: Box::new(expr_view((*u).right)) },
        Expr::Literal(l) => ExprV::Literal { value: (*l).value@ },
        Expr::Grouping(g) => ExprV::Grouping { inner: Box::new(expr_view((*g).expr)) },
        Expr::Variable(v) => ExprV::Variable { name: (*v).name@ },
    }
}

impl View for Expr {
    type V = ExprV;

    open spec fn view(&self) -> ExprV {
        expr_view(*self)
    }
}

/// The expression visitor: one method per variant.
pub trait ExprVisitor<R> {
    /// Visits a binary application.
    fn visit_binary_expr(&self, expr: &BinaryExpr) -> R;

    /// Visits a unary application.
    fn visit_unary_expr(&self, expr: &UnaryExpr) -> R;

    /// Visits a literal.
    fn visit_literal_expr(&self, expr: &LiteralExpr) -> R;

    /// Visits a grouping.
    fn visit_grouping_expr(&self, expr: &GroupingExpr) -> R;

    /// Visits a variable reference.
    fn visit_var_expr(&self, expr: &VarExpr) -> R;
}

/// Dispatch of an expression to a visitor.
pub trait Accept<R> {
    /// Hands this node to the visitor's method for its variant.
    fn accept<V: ExprVisitor<R>>(&self, visitor: &V) -> R;
}

impl<R> Accept<R> for Expr {
    fn accept<V: ExprVisitor<R>>(&self, visitor: &V) -> R {
        match self {
            Expr::Binary(e) => visitor.visit_binary_expr(e),
            Expr::Unary(e) => visitor.visit_unary_expr(e),
            Expr::Literal(e) => visitor.visit_literal_expr(e),
            Expr::Grouping(e) => visitor.visit_grouping_expr(e),
            Expr::Variable(e) => visitor.visit_var_expr(e),
        }
    }
}

} // verus!
