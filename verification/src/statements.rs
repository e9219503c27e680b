//! Statement forms.
//!
//! The statement variant set is closed: an expression evaluated for its
//! effect, a print statement, and a variable declaration with an
//! optional initializer.
use vstd::prelude::*;

use crate::expressions::Expr;
use crate::expressions::ExprV;
use crate::expressions::expr_view;
use crate::token::Token;
use crate::token::TokenV;

verus! {

/// A print statement.
#[derive(Debug)]
pub struct PrintStmt {
    pub expr: Expr,
}

/// An expression statement.
#[derive(Debug)]
pub struct ExprStmt {
    pub expr: Expr,
}

/// A variable declaration.
#[derive(Debug)]
pub struct VarStmt {
    pub name: Token,
    pub initializer: Option<Expr>,
}

/// A statement.
#[derive(Debug)]
pub enum Stmt {
    Print(Box<PrintStmt>),
    Expr(Box<ExprStmt>),
    Var(Box<VarStmt>),
}

/// Mathematical image of a [`Stmt`].
pub enum StmtV {
    Print { expr: ExprV },
    Expr { expr: ExprV },
    Var { name: TokenV, initializer: Option<ExprV> },
}

/// The image of a statement.
pub open spec fn stmt_view(s: Stmt) -> StmtV {
    match s {
        Stmt::Print(p) => StmtV::Print { expr: expr_view((*p).expr) },
        Stmt::Expr(e) => StmtV::Expr { expr: expr_view((*e).expr) },
        Stmt::Var(v) => StmtV::Var {
            name: (*v).name@,
            initializer: match (*v).initializer {
                Some(e) => Some(expr_view(e)),
                None => None,
            },
        },
    }
}

/// The images of a sequence of statements.
pub open spec fn stmt_views(s: Seq<Stmt>) -> Seq<StmtV> {
    s.map_values(|t: Stmt| t@)
}

impl View for Stmt {
    type V = StmtV;

    open spec fn view(&self) -> StmtV {
        stmt_view(*self)
    }
}

/// The statement visitor: one method per variant.
pub trait StmtVisitor<R> {
    /// Visits a print statement.
    fn visit_print_stmt(&mut self, stmt: &PrintStmt) -> R;

    /// Visits an expression statement.
    fn visit_expr_stmt(&mut self, stmt: &ExprStmt) -> R;

    /// Visits a variable declaration.
    fn visit_var_stmt(&mut self, stmt: &VarStmt) -> R;
}

/// Dispatch of a statement to a visitor.
pub trait Accept<R> {
    /// Hands this node to the visitor's method for its variant.
    fn accept<V: StmtVisitor<R>>(&self, visitor: &mut V) -> R;
}

impl<R> Accept<R> for Stmt {
    fn accept<V: StmtVisitor<R>>(&self, visitor: &mut V) -> R {
        match self {
            Stmt::Print(s) => visitor.visit_print_stmt(s),
            Stmt::Expr(s) => visitor.visit_expr_stmt(s),
            Stmt::Var(s) => visitor.visit_var_stmt(s),
        }
    }
}

} // verus!
