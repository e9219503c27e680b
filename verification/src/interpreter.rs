//! The evaluator: tree-walking execution of statements against one
//! flat environment.
//!
//! Expression evaluation is eager, strict, and left-to-right for binary
//! operands; the semantics of every operator is fixed by [`apply_unary`]
//! and [`apply_binary`].  Statements execute strictly in order; the
//! first runtime error abandons the remainder of the run, while output
//! already produced stands.  The executable interpreter is proved to
//! realize [`run_stmts`].
use vstd::prelude::*;

use crate::bytes::copy_bytes;
use crate::bytes::push_bytes;
use crate::environment::Environment;
use crate::environment::undefined_var_msg;
use crate::expressions::BinaryExpr;
use crate::expressions::Expr;
use crate::expressions::ExprVisitor;
use crate::expressions::GroupingExpr;
use crate::expressions::LiteralExpr;
use crate::expressions::UnaryExpr;
use crate::expressions::VarExpr;
use crate::expressions::expr_view;
use crate::expressions::ExprV;
use crate::expressions::LiteralValue;
use crate::expressions::ValueV;
use crate::expressions::truthy;
use crate::expressions::value_text;
use crate::expressions::values_equal;
use crate::numbers::add_numbers;
use crate::numbers::compare_numbers;
use crate::numbers::div_numbers;
use crate::numbers::mul_numbers;
use crate::numbers::neg_number;
use crate::numbers::num_add;
use crate::numbers::num_cmp_code;
use crate::numbers::num_div;
use crate::numbers::num_mul;
use crate::numbers::num_neg;
use crate::numbers::num_sub;
use crate::numbers::sub_numbers;
use crate::reporter::RtErrV;
use crate::reporter::RuntimeError;
use crate::statements::ExprStmt;
use crate::statements::PrintStmt;
use crate::statements::Stmt;
use crate::statements::StmtVisitor;
use crate::statements::VarStmt;
use crate::statements::StmtV;
use crate::statements::stmt_views;
use crate::token::KindV;
use crate::token::Token;
use crate::token::TokenType;
use crate::token::TokenV;

verus! {

/// What a unary operator yields on an evaluated operand.
pub open spec fn apply_unary(op: TokenV, v: ValueV) -> Result<ValueV, RtErrV> {
    match op.kind {
        KindV::Minus => match v {
            ValueV::Number(b) => Ok(ValueV::Number(num_neg(b))),
            _ => Err(RtErrV { line: op.line, message: crate::text::msg_neg_operand() }),
        },
        KindV::Bang => Ok(ValueV::Bool(!truthy(v))),
        _ => Err(RtErrV { line: op.line, message: crate::text::msg_bad_unary() }),
    }
}

/// What a binary operator yields on evaluated operands.  Arithmetic and
/// ordering demand numbers; `+` also concatenates two strings; the two
/// equality operators accept any operands and never fail.
pub open spec fn apply_binary(op: TokenV, l: ValueV, r: ValueV) -> Result<ValueV, RtErrV> {
    match op.kind {
        KindV::Minus => match (l, r) {
            (ValueV::Number(a), ValueV::Number(b)) => Ok(ValueV::Number(num_sub(a, b))),
            _ => Err(RtErrV { line: op.line, message: crate::text::msg_num_operands() }),
        },
        KindV::Slash => match (l, r) {
            (ValueV::Number(a), ValueV::Number(b)) => Ok(ValueV::Number(num_div(a, b))),
            _ => Err(RtErrV { line: op.line, message: crate::text::msg_num_operands() }),
        },
        KindV::Star => match (l, r) {
            (ValueV::Number(a), ValueV::Number(b)) => Ok(ValueV::Number(num_mul(a, b))),
            _ => Err(RtErrV { line: op.line, message: crate::text::msg_num_operands() }),
        },
        KindV::Less => match (l, r) {
            (ValueV::Number(a), ValueV::Number(b)) => Ok(ValueV::Bool(num_cmp_code(a, b) == 0)),
            _ => Err(RtErrV { line: op.line, message: crate::text::msg_num_operands() }),
        },
        KindV::Greater => match (l, r) {
            (ValueV::Number(a), ValueV::Number(b)) => Ok(ValueV::Bool(num_cmp_code(a, b) == 2)),
            _ => Err(RtErrV { line: op.line, message: crate::text::msg_num_operands() }),
        },
        KindV::LessEqual => match (l, r) {
            (ValueV::Number(a), ValueV::Number(b)) => Ok(
                ValueV::Bool(num_cmp_code(a, b) == 0 || num_cmp_code(a, b) == 1),
            ),
            _ => Err(RtErrV { line: op.line, message: crate::text::msg_num_operands() }),
        },
        KindV::GreaterEqual => match (l, r) {
            (ValueV::Number(a), ValueV::Number(b)) => Ok(
                ValueV::Bool(num_cmp_code(a, b) == 1 || num_cmp_code(a, b) == 2),
            ),
            _ => Err(RtErrV { line: op.line, message: crate::text::msg_num_operands() }),
        },
        KindV::BangEqual => Ok(ValueV::Bool(!values_equal(l, r))),
        KindV::EqualEqual => Ok(ValueV::Bool(values_equal(l, r))),
        KindV::Plus => match (l, r) {
            (ValueV::Number(a), ValueV::Number(b)) => Ok(ValueV::Number(num_add(a, b))),
            (ValueV::Str(a), ValueV::Str(b)) => Ok(ValueV::Str(a + b)),
            _ => Err(RtErrV { line: op.line, message: crate::text::msg_add_operands() }),
        },
        _ => Err(RtErrV { line: op.line, message: crate::text::msg_bad_binary() }),
    }
}

/// What evaluating an expression yields against an environment: eager,
/// strict, left operand before right.
pub open spec fn eval_expr(env: Map<Seq<u8>, ValueV>, e: ExprV) -> Result<ValueV, RtErrV>
    decreases e,
{
    match e {
        ExprV::Literal { value } => Ok(value),
        ExprV::Grouping { inner } => eval_expr(env, *inner),
        ExprV::Variable { name } => if env.contains_key(name.lexeme) {
            Ok(env[name.lexeme])
        } else {
            Err(RtErrV { line: name.line, message: undefined_var_msg(name.lexeme) })
        },
        ExprV::Unary { op, right } => match eval_expr(env, *right) {
            Ok(v) => apply_unary(op, v),
            Err(e) => Err(e),
        },
        ExprV::Binary { left, op, right } => match eval_expr(env, *left) {
            Ok(l) => match eval_expr(env, *right) {
                Ok(r) => apply_binary(op, l, r),
                Err(e) => Err(e),
            },
            Err(e) => Err(e),
        },
    }
}

/// What one run leaves behind: the environment, the output lines it
/// emitted, and the error that stopped it, when one did.
pub struct RunV {
    pub env: Map<Seq<u8>, ValueV>,
    pub out: Seq<Seq<u8>>,
    pub error: Option<RtErrV>,
}

/// What executing one statement yields.  An expression statement
/// discards its value; a print statement emits the value's textual form
/// as one line; a declaration evaluates its initializer (nil when
/// absent) and defines the name, overwriting silently.
pub open spec fn run_stmt(env: Map<Seq<u8>, ValueV>, st: StmtV) -> RunV {
    match st {
        StmtV::Expr { expr } => match eval_expr(env, expr) {
            Ok(_) => RunV { env, out: Seq::empty(), error: None },
            Err(e) => RunV { env, out: Seq::empty(), error: Some(e) },
        },
        StmtV::Print { expr } => match eval_expr(env, expr) {
            Ok(v) => RunV { env, out: seq![value_text(v)], error: None },
            Err(e) => RunV { env, out: Seq::empty(), error: Some(e) },
        },
        StmtV::Var { name, initializer } => {
            let value = match initializer {
                Some(e) => eval_expr(env, e),
                None => Ok(ValueV::Nil),
            };
            match value {
                Ok(v) => RunV { env: env.insert(name.lexeme, v), out: Seq::empty(), error: None },
                Err(e) => RunV { env, out: Seq::empty(), error: Some(e) },
            }
        },
    }
}

/// What executing statements in order yields: the first error abandons
/// the rest; output already emitted stands.
pub open spec fn run_stmts(env: Map<Seq<u8>, ValueV>, stmts: Seq<StmtV>) -> RunV
    decreases stmts.len(),
{
    if stmts.len() == 0 {
        RunV { env, out: Seq::empty(), error: None }
    } else {
        let first = run_stmt(env, stmts[0]);
        match first.error {
            Some(_) => first,
            None => {
                let rest = run_stmts(first.env, stmts.subrange(1, stmts.len() as int));
                RunV { env: rest.env, out: first.out + rest.out, error: rest.error }
            },
        }
    }
}

/// The images of a sequence of output lines.
pub open spec fn out_views(s: Seq<Vec<u8>>) -> Seq<Seq<u8>> {
    s.map_values(|l: Vec<u8>| l@)
}

/// The tree-walking evaluator: one environment, and the output lines
/// collected for the caller to hand to its sink.
pub struct Interpreter {
    environment: Environment,
    output: Vec<Vec<u8>>,
}

impl Interpreter {
    /// The evaluator's environment, as a map.
    pub closed spec fn env_view(&self) -> Map<Seq<u8>, ValueV> {
        self.environment@
    }

    /// The output lines collected and not yet taken.
    pub closed spec fn out_view(&self) -> Seq<Seq<u8>> {
        out_views(self.output@)
    }

    /// A fresh evaluator: empty environment, no output.
    pub fn new() -> (r: Interpreter)
        ensures
            r.env_view() == Map::<Seq<u8>, ValueV>::empty(),
            r.out_view() == Seq::<Seq<u8>>::empty(),
    {
        let r = Interpreter { environment: Environment::default(), output: Vec::new() };
        proof {
            assert(r.out_view() =~= Seq::<Seq<u8>>::empty());
        }
        r
    }

    /// Hands the collected output lines out, leaving none behind.
    pub fn take_output(&mut self) -> (r: Vec<Vec<u8>>)
        ensures
            out_views(r@) == old(self).out_view(),
            final(self).out_view() == Seq::<Seq<u8>>::empty(),
            final(self).env_view() == old(self).env_view(),
    {
        let mut taken: Vec<Vec<u8>> = Vec::new();
        core::mem::swap(&mut taken, &mut self.output);
        proof {
            assert(self.out_view() =~= Seq::<Seq<u8>>::empty());
        }
        taken
    }

    /// Decides [`truthy`]: nil and false are falsy, all else truthy.
    fn is_truthy(expr: &LiteralValue) -> (r: bool)
        ensures
            r == truthy(expr@),
    {
        match expr {
            LiteralValue::Nil => false,
            LiteralValue::Bool(value) => *value,
            _ => true,
        }
    }

    /// Evaluates an expression against the current environment:
    /// realizes [`eval_expr`].
    pub fn evaluate(&self, expr: &Expr) -> (r: Result<LiteralValue, RuntimeError>)
        ensures
            match r {
                Ok(v) => eval_expr(self.env_view(), expr@) == Ok::<ValueV, RtErrV>(v@),
                Err(e) => eval_expr(self.env_view(), expr@) == Err::<ValueV, RtErrV>(e@),
            },
        decreases *expr,
    {
        match expr {
            Expr::Binary(e) => self.visit_binary_expr(e),
            Expr::Unary(e) => self.visit_unary_expr(e),
            Expr::Literal(e) => self.visit_literal_expr(e),
            Expr::Grouping(e) => self.visit_grouping_expr(e),
            Expr::Variable(e) => self.visit_var_expr(e),
        }
    }

    /// Applies a binary operator to evaluated operands: realizes
    /// [`apply_binary`].
    fn apply_binary_op(&self, operator: &Token, left: LiteralValue, right: LiteralValue) -> (r:
        Result<LiteralValue, RuntimeError>)
        ensures
            match r {
                Ok(v) => apply_binary(operator@, left@, right@) == Ok::<ValueV, RtErrV>(v@),
                Err(e) => apply_binary(operator@, left@, right@) == Err::<ValueV, RtErrV>(e@),
            },
    {
        match &operator.token_type {
            TokenType::Minus => match (&left, &right) {
                (LiteralValue::Number(a), LiteralValue::Number(b)) => Ok(
                    LiteralValue::Number(sub_numbers(*a, *b)),
                ),
                _ => Err(
                    RuntimeError {
                        line: operator.line,
                        message: crate::text::msg_num_operands_vec(),
                    },
                ),
            },
            TokenType::Slash => match (&left, &right) {
                (LiteralValue::Number(a), LiteralValue::Number(b)) => Ok(
                    LiteralValue::Number(div_numbers(*a, *b)),
                ),
                _ => Err(
                    RuntimeError {
                        line: operator.line,
                        message: crate::text::msg_num_operands_vec(),
                    },
                ),
            },
            TokenType::Star => match (&left, &right) {
                (LiteralValue::Number(a), LiteralValue::Number(b)) => Ok(
                    LiteralValue::Number(mul_numbers(*a, *b)),
                ),
                _ => Err(
                    RuntimeError {
                        line: operator.line,
                        message: crate::text::msg_num_operands_vec(),
                    },
                ),
            },
            TokenType::Less => match (&left, &right) {
                (LiteralValue::Number(a), LiteralValue::Number(b)) => Ok(
                    LiteralValue::Bool(compare_numbers(*a, *b) == 0),
                ),
                _ => Err(
                    RuntimeError {
                        line: operator.line,
                        message: crate::text::msg_num_operands_vec(),
                    },
                ),
            },
            TokenType::Greater => match (&left, &right) {
                (LiteralValue::Number(a), LiteralValue::Number(b)) => Ok(
                    LiteralValue::Bool(compare_numbers(*a, *b) == 2),
                ),
                _ => Err(
                    RuntimeError {
                        line: operator.line,
                        message: crate::text::msg_num_operands_vec(),
                    },
                ),
            },
            TokenType::LessEqual => match (&left, &right) {
                (LiteralValue::Number(a), LiteralValue::Number(b)) => {
                    let c = compare_numbers(*a, *b);
                    Ok(LiteralValue::Bool(c == 0 || c == 1))
                },
                _ => Err(
                    RuntimeError {
                        line: operator.line,
                        message: crate::text::msg_num_operands_vec(),
                    },
                ),
            },
            TokenType::GreaterEqual => match (&left, &right) {
                (LiteralValue::Number(a), LiteralValue::Number(b)) => {
                    let c = compare_numbers(*a, *b);
                    Ok(LiteralValue::Bool(c == 1 || c == 2))
                },
                _ => Err(
                    RuntimeError {
                        line: operator.line,
                        message: crate::text::msg_num_operands_vec(),
                    },
                ),
            },
            TokenType::BangEqual => Ok(LiteralValue::Bool(!left.equals(&right))),
            TokenType::EqualEqual => Ok(LiteralValue::Bool(left.equals(&right))),
            TokenType::Plus => match (left, right) {
                (LiteralValue::Number(a), LiteralValue::Number(b)) => Ok(
                    LiteralValue::Number(add_numbers(a, b)),
                ),
                (LiteralValue::Str(a), LiteralValue::Str(b)) => {
                    let mut joined = a;
                    push_bytes(&mut joined, b.as_slice());
                    Ok(LiteralValue::Str(joined))
                },
                _ => Err(
                    RuntimeError {
                        line: operator.line,
                        message: crate::text::msg_add_operands_vec(),
                    },
                ),
            },
            _ => Err(
                RuntimeError { line: operator.line, message: crate::text::msg_bad_binary_vec() },
            ),
        }
    }

    /// Executes one statement: realizes [`run_stmt`].
    pub fn execute(&mut self, stmt: &Stmt) -> (r: Result<(), RuntimeError>)
        ensures
            ({
                let step = run_stmt(old(self).env_view(), stmt@);
                &&& final(self).env_view() == step.env
                &&& final(self).out_view() == old(self).out_view() + step.out
                &&& match r {
                    Ok(()) => step.error is None,
                    Err(e) => step.error == Some(e@),
                }
            }),
    {
        match stmt {
            Stmt::Print(p) => self.visit_print_stmt(p),
            Stmt::Expr(e) => self.visit_expr_stmt(e),
            Stmt::Var(v) => self.visit_var_stmt(v),
        }
    }

    /// Executes statements strictly in order: realizes [`run_stmts`].
    /// The first error abandons the rest; prior output stands.
    pub fn interpret(&mut self, statements: &Vec<Stmt>) -> (r: Result<(), RuntimeError>)
        ensures
            ({
                let outcome = run_stmts(old(self).env_view(), stmt_views(statements@));
                &&& final(self).env_view() == outcome.env
                &&& final(self).out_view() == old(self).out_view() + outcome.out
                &&& match r {
                    Ok(()) => outcome.error is None,
                    Err(e) => outcome.error == Some(e@),
                }
            }),
    {
        let ghost views = stmt_views(statements@);
        let ghost full = run_stmts(old(self).env_view(), views);
        let n = statements.len();
        let mut i: usize = 0;
        proof {
            assert(views.subrange(0, views.len() as int) =~= views);
            assert(self.out_view() + Seq::<Seq<u8>>::empty() =~= self.out_view());
        }
        while i < n
            invariant
                0 <= i <= n,
                n == statements@.len(),
                views == stmt_views(statements@),
                full == run_stmts(old(self).env_view(), views),
                ({
                    let rest = run_stmts(self.env_view(), views.subrange(i as int, n as int));
                    &&& full.env == rest.env
                    &&& full.error == rest.error
                    &&& old(self).out_view() + full.out == self.out_view() + rest.out
                }),
            decreases n - i,
        {
            let ghost pre_env = self.env_view();
            let ghost pre_out = self.out_view();
            let ghost rem = views.subrange(i as int, n as int);
            let stmt = &statements[i];
            proof {
                assert(rem[0] == views[i as int]);
                assert(stmt@ == views[i as int]);
            }
            match self.execute(stmt) {
                Ok(()) => {},
                Err(e) => {
                    proof {
                        let step = run_stmt(pre_env, rem[0]);
                        assert(run_stmts(pre_env, rem) == step);
                        assert(self.out_view() =~= pre_out + step.out);
                        assert(self.out_view() + Seq::<Seq<u8>>::empty() =~= self.out_view());
                    }
                    return Err(e);
                },
            }
            i = i + 1;
            proof {
                let step = run_stmt(pre_env, rem[0]);
                let tail = views.subrange(i as int, n as int);
                assert(rem.subrange(1, rem.len() as int) =~= tail);
                let rest2 = run_stmts(step.env, tail);
                assert(run_stmts(pre_env, rem) == RunV {
                    env: rest2.env,
                    out: step.out + rest2.out,
                    error: rest2.error,
                });
                assert((pre_out + step.out) + rest2.out =~= pre_out + (step.out + rest2.out));
            }
        }
        proof {
            assert(views.subrange(n as int, n as int) =~= Seq::<StmtV>::empty());
            assert(self.out_view() + Seq::<Seq<u8>>::empty() =~= self.out_view());
        }
        Ok(())
    }
}

impl ExprVisitor<Result<LiteralValue, RuntimeError>> for Interpreter {
    /// Left operand first, then the right, then the operator's rule.
    fn visit_binary_expr(&self, expr: &BinaryExpr) -> (r: Result<LiteralValue, RuntimeError>)
        ensures
            ({
                let ev = eval_expr(
                    self.env_view(),
                    crate::expressions::ExprV::Binary {
                        left: Box::new(expr.left@),
                        op: expr.operator@,
                        right: Box::new(expr.right@),
                    },
                );
                match r {
                    Ok(v) => ev == Ok::<ValueV, RtErrV>(v@),
                    Err(e) => ev == Err::<ValueV, RtErrV>(e@),
                }
            }),
        decreases *expr,
    {
        let left = match self.evaluate(&expr.left) {
            Ok(v) => v,
            Err(e) => {
                return Err(e);
            },
        };
        let right = match self.evaluate(&expr.right) {
            Ok(v) => v,
            Err(e) => {
                return Err(e);
            },
        };
        self.apply_binary_op(&expr.operator, left, right)
    }

    /// The operand first, then the operator's rule.
    fn visit_unary_expr(&self, expr: &UnaryExpr) -> (r: Result<LiteralValue, RuntimeError>)
        ensures
            ({
                let ev = eval_expr(
                    self.env_view(),
                    crate::expressions::ExprV::Unary {
                        op: expr.operator@,
                        right: Box::new(expr.right@),
                    },
                );
                match r {
                    Ok(v) => ev == Ok::<ValueV, RtErrV>(v@),
                    Err(e) => ev == Err::<ValueV, RtErrV>(e@),
                }
            }),
        decreases *expr,
    {
        let right = match self.evaluate(&expr.right) {
            Ok(v) => v,
            Err(e) => {
                return Err(e);
            },
        };
        match &expr.operator.token_type {
            TokenType::Minus => match right {
                LiteralValue::Number(n) => Ok(LiteralValue::Number(neg_number(n))),
                _ => Err(
                    RuntimeError {
                        line: expr.operator.line,
                        message: crate::text::msg_neg_operand_vec(),
                    },
                ),
            },
            TokenType::Bang => Ok(LiteralValue::Bool(!Self::is_truthy(&right))),
            _ => Err(
                RuntimeError {
                    line: expr.operator.line,
                    message: crate::text::msg_bad_unary_vec(),
                },
            ),
        }
    }

    /// A literal is its payload.
    fn visit_literal_expr(&self, expr: &LiteralExpr) -> (r: Result<LiteralValue, RuntimeError>)
        ensures
            ({
                let ev = eval_expr(
                    self.env_view(),
                    crate::expressions::ExprV::Literal { value: expr.value@ },
                );
                match r {
                    Ok(v) => ev == Ok::<ValueV, RtErrV>(v@),
                    Err(e) => ev == Err::<ValueV, RtErrV>(e@),
                }
            }),
    {
        Ok(expr.value.clone())
    }

    /// A grouping is its inner expression.
    fn visit_grouping_expr(&self, expr: &GroupingExpr) -> (r: Result<LiteralValue, RuntimeError>)
        ensures
            ({
                let ev = eval_expr(
                    self.env_view(),
                    crate::expressions::ExprV::Grouping { inner: Box::new(expr.expr@) },
                );
                match r {
                    Ok(v) => ev == Ok::<ValueV, RtErrV>(v@),
                    Err(e) => ev == Err::<ValueV, RtErrV>(e@),
                }
            }),
        decreases *expr,
    {
        self.evaluate(&expr.expr)
    }

    /// A variable reference reads the environment.
    fn visit_var_expr(&self, expr: &VarExpr) -> (r: Result<LiteralValue, RuntimeError>)
        ensures
            ({
                let ev = eval_expr(
                    self.env_view(),
                    crate::expressions::ExprV::Variable { name: expr.name@ },
                );
                match r {
                    Ok(v) => ev == Ok::<ValueV, RtErrV>(v@),
                    Err(e) => ev == Err::<ValueV, RtErrV>(e@),
                }
            }),
    {
        self.environment.get(&expr.name)
    }
}

impl StmtVisitor<Result<(), RuntimeError>> for Interpreter {
    /// Evaluates the expression and emits its textual form as one line.
    fn visit_print_stmt(&mut self, stmt: &PrintStmt) -> (r: Result<(), RuntimeError>)
        ensures
            ({
                let step = run_stmt(
                    old(self).env_view(),
                    StmtV::Print { expr: expr_view(stmt.expr) },
                );
                &&& final(self).env_view() == step.env
                &&& final(self).out_view() == old(self).out_view() + step.out
                &&& match r {
                    Ok(()) => step.error is None,
                    Err(e) => step.error == Some(e@),
                }
            }),
    {
        let ghost out0 = self.out_view();
        match self.evaluate(&stmt.expr) {
            Ok(v) => {
                let line = v.to_text();
                let ghost lv = line@;
                self.output.push(line);
                proof {
                    assert(self.out_view() =~= out0.push(lv));
                    assert(out0.push(lv) =~= out0 + seq![lv]);
                }
                Ok(())
            },
            Err(er) => {
                proof {
                    assert(self.out_view() =~= out0 + Seq::<Seq<u8>>::empty());
                }
                Err(er)
            },
        }
    }

    /// Evaluates the expression and discards its value.
    fn visit_expr_stmt(&mut self, stmt: &ExprStmt) -> (r: Result<(), RuntimeError>)
        ensures
            ({
                let step = run_stmt(
                    old(self).env_view(),
                    StmtV::Expr { expr: expr_view(stmt.expr) },
                );
                &&& final(self).env_view() == step.env
                &&& final(self).out_view() == old(self).out_view() + step.out
                &&& match r {
                    Ok(()) => step.error is None,
                    Err(e) => step.error == Some(e@),
                }
            }),
    {
        let ghost out0 = self.out_view();
        match self.evaluate(&stmt.expr) {
            Ok(_) => {
                proof {
                    assert(self.out_view() =~= out0 + Seq::<Seq<u8>>::empty());
                }
                Ok(())
            },
            Err(er) => {
                proof {
                    assert(self.out_view() =~= out0 + Seq::<Seq<u8>>::empty());
                }
                Err(er)
            },
        }
    }

    /// Evaluates the initializer, nil when absent, and defines the
    /// name, overwriting silently.
    fn visit_var_stmt(&mut self, stmt: &VarStmt) -> (r: Result<(), RuntimeError>)
        ensures
            ({
                let step = run_stmt(
                    old(self).env_view(),
                    StmtV::Var {
                        name: stmt.name@,
                        initializer: match stmt.initializer {
                            Some(e) => Some(expr_view(e)),
                            None => None,
                        },
                    },
                );
                &&& final(self).env_view() == step.env
                &&& final(self).out_view() == old(self).out_view() + step.out
                &&& match r {
                    Ok(()) => step.error is None,
                    Err(e) => step.error == Some(e@),
                }
            }),
    {
        let ghost out0 = self.out_view();
        let value = match &stmt.initializer {
            Some(e) => match self.evaluate(e) {
                Ok(val) => val,
                Err(er) => {
                    proof {
                        assert(self.out_view() =~= out0 + Seq::<Seq<u8>>::empty());
                    }
                    return Err(er);
                },
            },
            None => LiteralValue::Nil,
        };
        let name = copy_bytes(stmt.name.lexeme.as_slice());
        self.environment.define(name, value);
        proof {
            assert(self.out_view() =~= out0 + Seq::<Seq<u8>>::empty());
        }
        Ok(())
    }
}

/// Logical negation follows truthiness, for every operand: `!` of any
/// value yields the boolean negation of its truthiness, and only nil
/// and false are falsy — numbers (zero included) and strings (empty
/// included) are truthy.
pub proof fn lemma_bang_negates_truthiness(op: TokenV, v: ValueV)
    requires
        op.kind is Bang,
    ensures
        apply_unary(op, v) == Ok::<ValueV, RtErrV>(ValueV::Bool(!truthy(v))),
        !truthy(ValueV::Nil),
        !truthy(ValueV::Bool(false)),
        truthy(ValueV::Bool(true)),
        forall|b: u64| truthy(ValueV::Number(b)),
        forall|s: Seq<u8>| truthy(ValueV::Str(s)),
{
}

/// Equality is total and non-coercive: `==` and `!=` never fail,
/// whatever the operands, and values of different variants are never
/// equal.
pub proof fn lemma_equality_non_coercive(op: TokenV, l: ValueV, r: ValueV)
    ensures
        op.kind is EqualEqual ==> apply_binary(op, l, r) == Ok::<ValueV, RtErrV>(
            ValueV::Bool(values_equal(l, r)),
        ),
        op.kind is BangEqual ==> apply_binary(op, l, r) == Ok::<ValueV, RtErrV>(
            ValueV::Bool(!values_equal(l, r)),
        ),
        values_equal(l, r) ==> ((l is Number && r is Number) || (l is Str && r is Str) || (l
            is Bool && r is Bool) || (l is Nil && r is Nil)),
{
}

/// The meaning of `+`, for every pair of operands: two numbers add,
/// two strings concatenate, and any other pairing is a type error.
pub proof fn lemma_plus_semantics(op: TokenV, l: ValueV, r: ValueV)
    requires
        op.kind is Plus,
    ensures
        forall|a: u64, b: u64|
            l == ValueV::Number(a) && r == ValueV::Number(b) ==> apply_binary(op, l, r) == Ok::<
                ValueV,
                RtErrV,
            >(ValueV::Number(num_add(a, b))),
        forall|a: Seq<u8>, b: Seq<u8>|
            l == ValueV::Str(a) && r == ValueV::Str(b) ==> apply_binary(op, l, r) == Ok::<
                ValueV,
                RtErrV,
            >(ValueV::Str(a + b)),
        !((l is Number && r is Number) || (l is Str && r is Str)) ==> apply_binary(op, l, r)
            == Err::<ValueV, RtErrV>(
            RtErrV { line: op.line, message: crate::text::msg_add_operands() },
        ),
{
}

} // verus!
