//! A debug rendering of expression trees: each operator application
//! becomes a parenthesized group, prefix style.
use vstd::prelude::*;

use crate::bytes::copy_bytes;
use crate::bytes::push_bytes;
use crate::expressions::BinaryExpr;
use crate::expressions::Expr;
use crate::expressions::ExprV;
use crate::expressions::ExprVisitor;
use crate::expressions::VarExpr;
use crate::expressions::GroupingExpr;
use crate::expressions::LiteralExpr;
use crate::expressions::UnaryExpr;
use crate::expressions::value_text;

verus! {

/// The images of rendered parts.
pub open spec fn part_views(s: Seq<Vec<u8>>) -> Seq<Seq<u8>> {
    s.map_values(|v: Vec<u8>| v@)
}

/// The parts, each preceded by one space.
pub open spec fn joined_parts(parts: Seq<Seq<u8>>) -> Seq<u8>
    decreases parts.len(),
{
    if parts.len() == 0 {
        Seq::empty()
    } else {
        seq![32u8] + parts[0] + joined_parts(parts.subrange(1, parts.len() as int))
    }
}

/// A name and its parts, parenthesized: `(name part…)`.
pub open spec fn paren_text(name: Seq<u8>, parts: Seq<Seq<u8>>) -> Seq<u8> {
    seq![40u8] + name + joined_parts(parts) + seq![41u8]
}

/// Appending a part appends one space and the part.
proof fn lemma_joined_push(parts: Seq<Seq<u8>>, x: Seq<u8>)
    ensures
        joined_parts(parts.push(x)) == joined_parts(parts) + seq![32u8] + x,
    decreases parts.len(),
{
    if parts.len() == 0 {
        assert(parts.push(x).subrange(1, parts.push(x).len() as int) =~= Seq::<Seq<u8>>::empty());
        assert(joined_parts(Seq::<Seq<u8>>::empty()) =~= Seq::<u8>::empty());
        assert(parts.push(x)[0] == x);
        assert(joined_parts(parts.push(x)) =~= joined_parts(parts) + seq![32u8] + x);
    } else {
        let tail = parts.subrange(1, parts.len() as int);
        assert(parts.push(x).subrange(1, parts.push(x).len() as int) =~= tail.push(x));
        lemma_joined_push(tail, x);
        assert(joined_parts(parts.push(x)) =~= joined_parts(parts) + seq![32u8] + x);
    }
}

/// The rendering of an expression tree: operators parenthesize their
/// operands, literals render as their textual form, groupings render as
/// `(group …)`, and a variable reference renders as its name.
pub open spec fn print_expr(e: ExprV) -> Seq<u8>
    decreases e,
{
    match e {
        ExprV::Binary { left, op, right } => paren_text(
            op.lexeme,
            seq![print_expr(*left), print_expr(*right)],
        ),
        ExprV::Unary { op, right } => paren_text(op.lexeme, seq![print_expr(*right)]),
        ExprV::Literal { value } => value_text(value),
        ExprV::Grouping { inner } => paren_text(crate::text::txt_group(), seq![print_expr(*inner)]),
        ExprV::Variable { name } => name.lexeme,
    }
}

/// The renderer.
pub struct AstPrinter;

impl AstPrinter {
    /// Wraps a name and rendered parts in parentheses, the parts each
    /// preceded by one space.
    pub fn parenthesize(&self, name: &[u8], parts: &Vec<Vec<u8>>) -> (r: Vec<u8>)
        ensures
            r@ == paren_text(name@, part_views(parts@)),
    {
        let mut result: Vec<u8> = Vec::new();
        result.push(40);
        push_bytes(&mut result, name);
        proof {
            assert(result@ =~= seq![40u8] + name@);
            assert(part_views(parts@).subrange(0, 0) =~= Seq::<Seq<u8>>::empty());
        }
        let n = parts.len();
        let mut i: usize = 0;
        while i < n
            invariant
                0 <= i <= n,
                n == parts@.len(),
                result@ == seq![40u8] + name@ + joined_parts(part_views(parts@).subrange(0, i as int)),
            decreases n - i,
        {
            let ghost done = part_views(parts@).subrange(0, i as int);
            result.push(32);
            push_bytes(&mut result, parts[i].as_slice());
            proof {
                lemma_joined_push(done, parts@[i as int]@);
                assert(part_views(parts@).subrange(0, i + 1) =~= done.push(parts@[i as int]@));
                assert(result@ =~= seq![40u8] + name@ + (joined_parts(done) + seq![32u8]
                    + parts@[i as int]@));
            }
            i = i + 1;
        }
        proof {
            assert(part_views(parts@).subrange(0, n as int) =~= part_views(parts@));
        }
        result.push(41);
        proof {
            assert(result@ =~= seq![40u8] + name@ + joined_parts(part_views(parts@)) + seq![41u8]);
        }
        result
    }

    /// Renders any expression tree: realizes [`print_expr`].
    pub fn print(&self, expr: &Expr) -> (r: Vec<u8>)
        ensures
            r@ == print_expr(expr@),
        decreases *expr,
    {
        match expr {
            Expr::Binary(b) => self.visit_binary_expr(b),
            Expr::Unary(u) => self.visit_unary_expr(u),
            Expr::Literal(l) => self.visit_literal_expr(l),
            Expr::Grouping(g) => self.visit_grouping_expr(g),
            Expr::Variable(v) => self.visit_var_expr(v),
        }
    }
}

impl ExprVisitor<Vec<u8>> for AstPrinter {
    /// Renders a binary application.
    fn visit_binary_expr(&self, expr: &BinaryExpr) -> (r: Vec<u8>)
        ensures
            r@ == print_expr(ExprV::Binary {
                left: Box::new(expr.left@),
                op: expr.operator@,
                right: Box::new(expr.right@),
            }),
        decreases *expr,
    {
        let left = self.print(&expr.left);
        let right = self.print(&expr.right);
        let ghost lv = left@;
        let ghost rv = right@;
        let parts: Vec<Vec<u8>> = vec![left, right];
        proof {
            assert(part_views(parts@) =~= seq![lv, rv]);
        }
        self.parenthesize(expr.operator.lexeme.as_slice(), &parts)
    }

    /// Renders a unary application.
    fn visit_unary_expr(&self, expr: &UnaryExpr) -> (r: Vec<u8>)
        ensures
            r@ == print_expr(ExprV::Unary { op: expr.operator@, right: Box::new(expr.right@) }),
        decreases *expr,
    {
        let right = self.print(&expr.right);
        let ghost rv = right@;
        let parts: Vec<Vec<u8>> = vec![right];
        proof {
            assert(part_views(parts@) =~= seq![rv]);
        }
        self.parenthesize(expr.operator.lexeme.as_slice(), &parts)
    }

    /// Renders a literal as its textual form.
    fn visit_literal_expr(&self, expr: &LiteralExpr) -> (r: Vec<u8>)
        ensures
            r@ == print_expr(ExprV::Literal { value: expr.value@ }),
    {
        expr.value.to_text()
    }

    /// Renders a grouping as `(group …)`.
    fn visit_grouping_expr(&self, expr: &GroupingExpr) -> (r: Vec<u8>)
        ensures
            r@ == print_expr(ExprV::Grouping { inner: Box::new(expr.expr@) }),
        decreases *expr,
    {
        let inner = self.print(&expr.expr);
        let ghost iv = inner@;
        let parts: Vec<Vec<u8>> = vec![inner];
        proof {
            assert(part_views(parts@) =~= seq![iv]);
        }
        let name = crate::text::txt_group_vec();
        self.parenthesize(name.as_slice(), &parts)
    }

    /// Renders a variable reference as its name.
    fn visit_var_expr(&self, expr: &VarExpr) -> (r: Vec<u8>)
        ensures
            r@ == print_expr(ExprV::Variable { name: expr.name@ }),
    {
        copy_bytes(expr.name.lexeme.as_slice())
    }
}

} // verus!
