//! The parser: recursive descent with precedence climbing, from tokens
//! to statements, with statement-level error recovery.
//!
//! The grammar, lowest precedence first:
//!
//! ```text
//! program        := declaration* END
//! declaration    := "var" IDENT ("=" expression)? ";"
//!                  | statement
//! statement      := "print" expression ";"
//!                  | expression ";"
//! expression     := equality
//! equality       := comparison (("!="|"==") comparison)*
//! comparison     := term ((">"|">="|"<"|"<=") term)*
//! term           := factor (("-"|"+") factor)*
//! factor         := unary (("/"|"*") unary)*
//! unary          := ("!"|"-") unary | primary
//! primary        := NUMBER | STRING | "true" | "false" | "nil"
//!                  | "(" expression ")" | IDENT
//! ```
//!
//! Each binary tier is left-associative and builds a left-deep tree.
//! The whole parse is specified by the `sp_` functions below, which walk
//! the token images; the executable parser is proved to realize them.
//! When a declaration or statement fails, the parser records the error,
//! discards tokens to the next statement boundary, emits a nil
//! expression statement in its place, and goes on.
use vstd::prelude::*;

use crate::expressions::BinaryExpr;
use crate::expressions::Expr;
use crate::expressions::ExprV;
use crate::expressions::GroupingExpr;
use crate::expressions::LiteralExpr;
use crate::expressions::LiteralValue;
use crate::expressions::UnaryExpr;
use crate::expressions::ValueV;
use crate::expressions::VarExpr;
use crate::statements::ExprStmt;
use crate::statements::PrintStmt;
use crate::statements::Stmt;
use crate::statements::StmtV;
use crate::statements::VarStmt;
use crate::statements::stmt_views;
use crate::token::KindV;
use crate::token::Token;
use crate::token::TokenType;
use crate::token::TokenV;
use crate::token::token_views;
use crate::token::wf_token_stream;

verus! {

/// A syntax error: the offending token and a message.
#[derive(Debug)]
pub struct ParseError {
    pub token: Token,
    pub message: Vec<u8>,
}

/// Mathematical image of a [`ParseError`].
pub struct PErrV {
    pub token: TokenV,
    pub message: Seq<u8>,
}

impl View for ParseError {
    type V = PErrV;

    open spec fn view(&self) -> PErrV {
        PErrV { token: self.token@, message: self.message@ }
    }
}

impl ParseError {
    /// Packs the offending token with a message.
    pub fn new(token: Token, message: Vec<u8>) -> (r: ParseError)
        ensures
            r@.token == token@,
            r@.message == message@,
    {
        ParseError { token, message }
    }
}

/// The images of a sequence of syntax errors.
pub open spec fn perr_views(s: Seq<ParseError>) -> Seq<PErrV> {
    s.map_values(|e: ParseError| e@)
}

/// What parsing one production yields: the parsed image and the next
/// position, or an error and the position it was noticed at.
pub type SpExpr = Result<(ExprV, int), (PErrV, int)>;

/// What parsing one whole statement yields.
pub type SpStmt = Result<(StmtV, int), (PErrV, int)>;

/// Never less than `i`, and within the text when `i` is.
pub open spec fn chain_pos(i: int, j: int, n: int) -> int {
    let lo = if j >= i {
        j
    } else {
        i
    };
    let hi = if n >= i {
        n
    } else {
        i
    };
    if lo <= hi {
        lo
    } else {
        hi
    }
}

/// Strictly past `j` and at most `n`.
pub open spec fn step_pos(j: int, k: int, n: int) -> int {
    let k1 = if k > j {
        k
    } else {
        j + 1
    };
    if k1 <= n {
        k1
    } else {
        n
    }
}

/// A primary expression at `i`: a literal, a grouping or a variable
/// reference; any other token is an error naming it.
pub open spec fn sp_primary(toks: Seq<TokenV>, i: int) -> SpExpr
    decreases toks.len() - i, 1int,
{
    if !(0 <= i < toks.len()) {
        Err((PErrV { token: toks.last(), message: crate::text::msg_expect_expression() }, i))
    } else {
        match toks[i].kind {
            KindV::False => Ok(
                (ExprV::Literal { value: ValueV::Bool(false) }, i + 1),
            ),
            KindV::True => Ok((ExprV::Literal { value: ValueV::Bool(true) }, i + 1)),
            KindV::Nil => Ok((ExprV::Literal { value: ValueV::Nil }, i + 1)),
            KindV::Number(b) => Ok((ExprV::Literal { value: ValueV::Number(b) }, i + 1)),
            KindV::Str(s) => Ok((ExprV::Literal { value: ValueV::Str(s) }, i + 1)),
            KindV::LeftParen => match sp_expression(toks, i + 1) {
                Ok((e, j)) => if 0 <= j < toks.len() && toks[j].kind is RightParen {
                    Ok((ExprV::Grouping { inner: Box::new(e) }, j + 1))
                } else {
                    Err(
                        (
                            PErrV {
                                token: if 0 <= j < toks.len() {
                                    toks[j]
                                } else {
                                    toks.last()
                                },
                                message: crate::text::msg_expect_rparen(),
                            },
                            j,
                        ),
                    )
                },
                Err(e) => Err(e),
            },
            KindV::Identifier => Ok((ExprV::Variable { name: toks[i] }, i + 1)),
            _ => Err(
                (PErrV { token: toks[i], message: crate::text::msg_expect_expression() }, i),
            ),
        }
    }
}

/// A unary expression at `i`: stacked `!` or `-` prefixes over a
/// primary.
pub open spec fn sp_unary(toks: Seq<TokenV>, i: int) -> SpExpr
    decreases toks.len() - i, 2int,
{
    if 0 <= i < toks.len() && (toks[i].kind is Bang || toks[i].kind is Minus) {
        match sp_unary(toks, i + 1) {
            Ok((r, j)) => Ok((ExprV::Unary { op: toks[i], right: Box::new(r) }, j)),
            Err(e) => Err(e),
        }
    } else {
        sp_primary(toks, i)
    }
}

/// True when `k` may extend a factor chain.
pub open spec fn is_factor_op(k: KindV) -> bool {
    k is Slash || k is Star
}

/// The rest of a factor chain: operands already parsed stand in `acc`.
pub open spec fn sp_factor_rest(toks: Seq<TokenV>, j: int, acc: ExprV) -> SpExpr
    decreases toks.len() - j, 3int,
{
    if 0 <= j < toks.len() && is_factor_op(toks[j].kind) {
        match sp_unary(toks, j + 1) {
            Ok((r, k0)) => {
                let k = step_pos(j, k0, toks.len() as int);
                sp_factor_rest(
                    toks,
                    k,
                    ExprV::Binary { left: Box::new(acc), op: toks[j], right: Box::new(r) },
                )
            },
            Err(e) => Err(e),
        }
    } else {
        Ok((acc, j))
    }
}

/// A factor at `i`: unaries joined by `*` or `/`, left-associative.
pub open spec fn sp_factor(toks: Seq<TokenV>, i: int) -> SpExpr
    decreases toks.len() - i, 4int,
{
    match sp_unary(toks, i) {
        Ok((e, j)) => sp_factor_rest(toks, chain_pos(i, j, toks.len() as int), e),
        Err(e) => Err(e),
    }
}

/// True when `k` may extend a term chain.
pub open spec fn is_term_op(k: KindV) -> bool {
    k is Minus || k is Plus
}

/// The rest of a term chain.
pub open spec fn sp_term_rest(toks: Seq<TokenV>, j: int, acc: ExprV) -> SpExpr
    decreases toks.len() - j, 5int,
{
    if 0 <= j < toks.len() && is_term_op(toks[j].kind) {
        match sp_factor(toks, j + 1) {
            Ok((r, k0)) => {
                let k = step_pos(j, k0, toks.len() as int);
                sp_term_rest(
                    toks,
                    k,
                    ExprV::Binary { left: Box::new(acc), op: toks[j], right: Box::new(r) },
                )
            },
            Err(e) => Err(e),
        }
    } else {
        Ok((acc, j))
    }
}

/// A term at `i`: factors joined by `+` or `-`, left-associative.
pub open spec fn sp_term(toks: Seq<TokenV>, i: int) -> SpExpr
    decreases toks.len() - i, 6int,
{
    match sp_factor(toks, i) {
        Ok((e, j)) => sp_term_rest(toks, chain_pos(i, j, toks.len() as int), e),
        Err(e) => Err(e),
    }
}

/// True when `k` may extend a comparison chain.
pub open spec fn is_comparison_op(k: KindV) -> bool {
    k is Greater || k is GreaterEqual || k is Less || k is LessEqual
}

/// The rest of a comparison chain.
pub open spec fn sp_comparison_rest(toks: Seq<TokenV>, j: int, acc: ExprV) -> SpExpr
    decreases toks.len() - j, 7int,
{
    if 0 <= j < toks.len() && is_comparison_op(toks[j].kind) {
        match sp_term(toks, j + 1) {
            Ok((r, k0)) => {
                let k = step_pos(j, k0, toks.len() as int);
                sp_comparison_rest(
                    toks,
                    k,
                    ExprV::Binary { left: Box::new(acc), op: toks[j], right: Box::new(r) },
                )
            },
            Err(e) => Err(e),
        }
    } else {
        Ok((acc, j))
    }
}

/// A comparison at `i`: terms joined by ordering operators,
/// left-associative.
pub open spec fn sp_comparison(toks: Seq<TokenV>, i: int) -> SpExpr
    decreases toks.len() - i, 8int,
{
    match sp_term(toks, i) {
        Ok((e, j)) => sp_comparison_rest(toks, chain_pos(i, j, toks.len() as int), e),
        Err(e) => Err(e),
    }
}

/// True when `k` may extend an equality chain.
pub open spec fn is_equality_op(k: KindV) -> bool {
    k is BangEqual || k is EqualEqual
}

/// The rest of an equality chain.
pub open spec fn sp_equality_rest(toks: Seq<TokenV>, j: int, acc: ExprV) -> SpExpr
    decreases toks.len() - j, 9int,
{
    if 0 <= j < toks.len() && is_equality_op(toks[j].kind) {
        match sp_comparison(toks, j + 1) {
            Ok((r, k0)) => {
                let k = step_pos(j, k0, toks.len() as int);
                sp_equality_rest(
                    toks,
                    k,
                    ExprV::Binary { left: Box::new(acc), op: toks[j], right: Box::new(r) },
                )
            },
            Err(e) => Err(e),
        }
    } else {
        Ok((acc, j))
    }
}

/// An equality at `i`: comparisons joined by `==` or `!=`,
/// left-associative.
pub open spec fn sp_equality(toks: Seq<TokenV>, i: int) -> SpExpr
    decreases toks.len() - i, 10int,
{
    match sp_comparison(toks, i) {
        Ok((e, j)) => sp_equality_rest(toks, chain_pos(i, j, toks.len() as int), e),
        Err(e) => Err(e),
    }
}

/// An expression at `i`: the lowest tier is equality.
pub open spec fn sp_expression(toks: Seq<TokenV>, i: int) -> SpExpr
    decreases toks.len() - i, 11int,
{
    sp_equality(toks, i)
}

/// A print statement, after its keyword: an expression and a
/// semicolon.
pub open spec fn sp_print_statement(toks: Seq<TokenV>, i: int) -> SpStmt {
    match sp_expression(toks, i) {
        Ok((e, j)) => if 0 <= j < toks.len() && toks[j].kind is Semicolon {
            Ok((StmtV::Print { expr: e }, j + 1))
        } else {
            Err(
                (
                    PErrV {
                        token: if 0 <= j < toks.len() {
                            toks[j]
                        } else {
                            toks.last()
                        },
                        message: crate::text::msg_expect_semi_value(),
                    },
                    j,
                ),
            )
        },
        Err(e) => Err(e),
    }
}

/// An expression statement: an expression and a semicolon.
pub open spec fn sp_expression_statement(toks: Seq<TokenV>, i: int) -> SpStmt {
    match sp_expression(toks, i) {
        Ok((e, j)) => if 0 <= j < toks.len() && toks[j].kind is Semicolon {
            Ok((StmtV::Expr { expr: e }, j + 1))
        } else {
            Err(
                (
                    PErrV {
                        token: if 0 <= j < toks.len() {
                            toks[j]
                        } else {
                            toks.last()
                        },
                        message: crate::text::msg_expect_semi_value(),
                    },
                    j,
                ),
            )
        },
        Err(e) => Err(e),
    }
}

/// A statement at `i`: a print statement after `print`, else an
/// expression statement.
pub open spec fn sp_statement(toks: Seq<TokenV>, i: int) -> SpStmt {
    if 0 <= i < toks.len() && toks[i].kind is Print {
        sp_print_statement(toks, i + 1)
    } else {
        sp_expression_statement(toks, i)
    }
}

/// A variable declaration, after its keyword: a name, an optional
/// `=` initializer, and a semicolon.
pub open spec fn sp_var_declaration(toks: Seq<TokenV>, i: int) -> SpStmt {
    if !(0 <= i < toks.len() && toks[i].kind is Identifier) {
        Err(
            (
                PErrV {
                    token: if 0 <= i < toks.len() {
                        toks[i]
                    } else {
                        toks.last()
                    },
                    message: crate::text::msg_expect_var_name(),
                },
                i,
            ),
        )
    } else {
        let name = toks[i];
        let j = i + 1;
        if 0 <= j < toks.len() && toks[j].kind is Equal {
            match sp_expression(toks, j + 1) {
                Ok((e, k)) => if 0 <= k < toks.len() && toks[k].kind is Semicolon {
                    Ok((StmtV::Var { name, initializer: Some(e) }, k + 1))
                } else {
                    Err(
                        (
                            PErrV {
                                token: if 0 <= k < toks.len() {
                                    toks[k]
                                } else {
                                    toks.last()
                                },
                                message: crate::text::msg_expect_semi_decl(),
                            },
                            k,
                        ),
                    )
                },
                Err(e) => Err(e),
            }
        } else {
            if 0 <= j < toks.len() && toks[j].kind is Semicolon {
                Ok((StmtV::Var { name, initializer: None }, j + 1))
            } else {
                Err(
                    (
                        PErrV {
                            token: if 0 <= j < toks.len() {
                                toks[j]
                            } else {
                                toks.last()
                            },
                            message: crate::text::msg_expect_semi_decl(),
                        },
                        j,
                    ),
                )
            }
        }
    }
}

/// True of the kinds that begin a statement: the recovery points.
pub open spec fn is_sync_kind(k: KindV) -> bool {
    ||| k is Class
    ||| k is Fun
    ||| k is Var
    ||| k is For
    ||| k is If
    ||| k is While
    ||| k is Print
    ||| k is Return
}

/// The recovery walk: discards positions until just past a semicolon,
/// at a statement keyword, or at the end.
pub open spec fn sp_sync_loop(toks: Seq<TokenV>, j: int) -> int
    decreases toks.len() - j,
{
    if !(0 <= j < toks.len()) || toks[j].kind is Eof {
        j
    } else if 1 <= j && toks[j - 1].kind is Semicolon {
        j
    } else if is_sync_kind(toks[j].kind) {
        j
    } else {
        sp_sync_loop(toks, j + 1)
    }
}

/// Where resynchronization from `i` lands: one step forward, then the
/// recovery walk.
pub open spec fn sp_synchronize(toks: Seq<TokenV>, i: int) -> int {
    if !(0 <= i < toks.len()) || toks[i].kind is Eof {
        i
    } else {
        sp_sync_loop(toks, i + 1)
    }
}

/// The statement a failed declaration leaves in place: a nil
/// expression statement.
pub open spec fn stub_stmt() -> StmtV {
    StmtV::Expr { expr: ExprV::Literal { value: ValueV::Nil } }
}

/// What one declaration yields: a statement, the next position, and
/// the error recovered from, when one was.
pub struct SpDecl {
    pub stmt: StmtV,
    pub next: int,
    pub error: Option<PErrV>,
}

/// A declaration at `i`: a variable declaration after `var`, else a
/// statement; on failure the error is recorded, tokens are discarded to
/// the next boundary and a nil statement stands in.
pub open spec fn sp_declaration(toks: Seq<TokenV>, i: int) -> SpDecl {
    if 0 <= i < toks.len() && toks[i].kind is Var {
        match sp_var_declaration(toks, i + 1) {
            Ok((st, j)) => SpDecl { stmt: st, next: j, error: None },
            Err((e, j)) => SpDecl { stmt: stub_stmt(), next: sp_synchronize(toks, j), error: Some(e) },
        }
    } else {
        match sp_statement(toks, i) {
            Ok((st, j)) => SpDecl { stmt: st, next: j, error: None },
            Err((e, j)) => SpDecl { stmt: stub_stmt(), next: sp_synchronize(toks, j), error: Some(e) },
        }
    }
}

/// What a whole parse yields: the statements, in order, and the
/// recovered errors, in order.
pub struct SpProg {
    pub stmts: Seq<StmtV>,
    pub errors: Seq<PErrV>,
}

/// The program from position `i`: declarations until the end-of-input
/// token.
pub open spec fn sp_program(toks: Seq<TokenV>, i: int) -> SpProg
    decreases toks.len() - i,
{
    if !(0 <= i < toks.len()) || toks[i].kind is Eof {
        SpProg { stmts: Seq::empty(), errors: Seq::empty() }
    } else {
        let d = sp_declaration(toks, i);
        let nx = step_pos(i, d.next, toks.len() as int);
        let rest = sp_program(toks, nx);
        SpProg {
            stmts: seq![d.stmt] + rest.stmts,
            errors: crate::scanner::opt_seq(d.error) + rest.errors,
        }
    }
}

/// Structural equality of token kinds, payloads included.
pub open spec fn kind_matches(a: KindV, b: KindV) -> bool {
    match (a, b) {
        (KindV::LeftParen, KindV::LeftParen) => true,
        (KindV::RightParen, KindV::RightParen) => true,
        (KindV::LeftBrace, KindV::LeftBrace) => true,
        (KindV::RightBrace, KindV::RightBrace) => true,
        (KindV::Comma, KindV::Comma) => true,
        (KindV::Dot, KindV::Dot) => true,
        (KindV::Minus, KindV::Minus) => true,
        (KindV::Plus, KindV::Plus) => true,
        (KindV::Semicolon, KindV::Semicolon) => true,
        (KindV::Slash, KindV::Slash) => true,
        (KindV::Star, KindV::Star) => true,
        (KindV::Bang, KindV::Bang) => true,
        (KindV::BangEqual, KindV::BangEqual) => true,
        (KindV::Equal, KindV::Equal) => true,
        (KindV::EqualEqual, KindV::EqualEqual) => true,
        (KindV::Greater, KindV::Greater) => true,
        (KindV::GreaterEqual, KindV::GreaterEqual) => true,
        (KindV::Less, KindV::Less) => true,
        (KindV::LessEqual, KindV::LessEqual) => true,
        (KindV::Identifier, KindV::Identifier) => true,
        (KindV::Str(x), KindV::Str(y)) => x == y,
        (KindV::Number(x), KindV::Number(y)) => x == y,
        (KindV::And, KindV::And) => true,
        (KindV::Class, KindV::Class) => true,
        (KindV::Else, KindV::Else) => true,
        (KindV::False, KindV::False) => true,
        (KindV::Fun, KindV::Fun) => true,
        (KindV::For, KindV::For) => true,
        (KindV::If, KindV::If) => true,
        (KindV::Nil, KindV::Nil) => true,
        (KindV::Or, KindV::Or) => true,
        (KindV::Print, KindV::Print) => true,
        (KindV::Return, KindV::Return) => true,
        (KindV::Super, KindV::Super) => true,
        (KindV::This, KindV::This) => true,
        (KindV::True, KindV::True) => true,
        (KindV::Var, KindV::Var) => true,
        (KindV::While, KindV::While) => true,
        (KindV::Eof, KindV::Eof) => true,
        _ => false,
    }
}

/// Decides [`kind_matches`] on two token kinds.
pub fn token_type_matches(a: &TokenType, b: &TokenType) -> (r: bool)
    ensures
        r == kind_matches(a@, b@),
{
    match (a, b) {
        (TokenType::LeftParen, TokenType::LeftParen) => true,
        (TokenType::RightParen, TokenType::RightParen) => true,
        (TokenType::LeftBrace, TokenType::LeftBrace) => true,
        (TokenType::RightBrace, TokenType::RightBrace) => true,
        (TokenType::Comma, TokenType::Comma) => true,
        (TokenType::Dot, TokenType::Dot) => true,
        (TokenType::Minus, TokenType::Minus) => true,
        (TokenType::Plus, TokenType::Plus) => true,
        (TokenType::Semicolon, TokenType::Semicolon) => true,
        (TokenType::Slash, TokenType::Slash) => true,
        (TokenType::Star, TokenType::Star) => true,
        (TokenType::Bang, TokenType::Bang) => true,
        (TokenType::BangEqual, TokenType::BangEqual) => true,
        (TokenType::Equal, TokenType::Equal) => true,
        (TokenType::EqualEqual, TokenType::EqualEqual) => true,
        (TokenType::Greater, TokenType::Greater) => true,
        (TokenType::GreaterEqual, TokenType::GreaterEqual) => true,
        (TokenType::Less, TokenType::Less) => true,
        (TokenType::LessEqual, TokenType::LessEqual) => true,
        (TokenType::Identifier, TokenType::Identifier) => true,
        (TokenType::Str(x), TokenType::Str(y)) => crate::bytes::bytes_eq(
            x.as_slice(),
            y.as_slice(),
        ),
        (TokenType::Number(x), TokenType::Number(y)) => x == y,
        (TokenType::And, TokenType::And) => true,
        (TokenType::Class, TokenType::Class) => true,
        (TokenType::Else, TokenType::Else) => true,
        (TokenType::False, TokenType::False) => true,
        (TokenType::Fun, TokenType::Fun) => true,
        (TokenType::For, TokenType::For) => true,
        (TokenType::If, TokenType::If) => true,
        (TokenType::Nil, TokenType::Nil) => true,
        (TokenType::Or, TokenType::Or) => true,
        (TokenType::Print, TokenType::Print) => true,
        (TokenType::Return, TokenType::Return) => true,
        (TokenType::Super, TokenType::Super) => true,
        (TokenType::This, TokenType::This) => true,
        (TokenType::True, TokenType::True) => true,
        (TokenType::Var, TokenType::Var) => true,
        (TokenType::While, TokenType::While) => true,
        (TokenType::Eof, TokenType::Eof) => true,
        _ => false,
    }
}

/// True when a token may open a match against one of `kinds`.
pub open spec fn matches_any(t: TokenV, kinds: Seq<TokenType>) -> bool {
    !(t.kind is Eof) && exists|k: int| 0 <= k < kinds.len() && kind_matches(t.kind, kinds[k]@)
}

/// The token consumer.  `current` indexes the next unconsumed token;
/// recovered syntax errors are collected in order.
pub struct Parser {
    pub tokens: Vec<Token>,
    pub current: usize,
    pub errors: Vec<ParseError>,
}

impl Parser {
    /// The images of the parser's tokens.
    pub open spec fn toks(&self) -> Seq<TokenV> {
        token_views(self.tokens@)
    }

    /// The parser's standing: a well-formed stream with the cursor on a
    /// token.
    pub open spec fn pos_ok(&self) -> bool {
        wf_token_stream(self.toks()) && self.current < self.toks().len()
    }

    /// A fresh parser at the front of a well-formed token stream.
    pub fn new(tokens: Vec<Token>) -> (r: Parser)
        requires
            wf_token_stream(token_views(tokens@)),
        ensures
            r.tokens == tokens,
            r.current == 0,
            r.errors@ =~= Seq::<ParseError>::empty(),
            r.pos_ok(),
    {
        Parser { tokens, current: 0, errors: Vec::new() }
    }

    /// The token at the cursor.
    fn peek(&self) -> (r: &Token)
        requires
            self.pos_ok(),
        ensures
            r@ == self.toks()[self.current as int],
    {
        proof {
            assert(self.toks().len() == self.tokens@.len());
        }
        &self.tokens[self.current]
    }

    /// The token just consumed.
    fn previous(&self) -> (r: &Token)
        requires
            self.pos_ok(),
            self.current >= 1,
        ensures
            r@ == self.toks()[self.current - 1],
    {
        proof {
            assert(self.toks().len() == self.tokens@.len());
        }
        &self.tokens[self.current - 1]
    }

    /// True when the cursor sits on the end-of-input token.
    fn is_at_end(&self) -> (r: bool)
        requires
            self.pos_ok(),
        ensures
            r == (self.toks()[self.current as int].kind is Eof),
    {
        matches!(self.peek().token_type, TokenType::Eof)
    }

    /// Moves the cursor one token forward, except at the end.
    fn advance(&mut self)
        requires
            old(self).pos_ok(),
        ensures
            final(self).pos_ok(),
            final(self).tokens == old(self).tokens,
            final(self).errors == old(self).errors,
            final(self).current == if old(self).toks()[old(self).current as int].kind is Eof {
                old(self).current as int
            } else {
                old(self).current + 1
            },
    {
        if !self.is_at_end() {
            proof {
                assert(self.tokens.len() == self.tokens@.len());
                assert(self.current != self.toks().len() - 1);
            }
            self.current = self.current + 1;
        }
    }

    /// True when the cursor's token is `token_type`; never true at the
    /// end.
    fn check(&self, token_type: &TokenType) -> (r: bool)
        requires
            self.pos_ok(),
        ensures
            r == (!(self.toks()[self.current as int].kind is Eof) && kind_matches(
                self.toks()[self.current as int].kind,
                token_type@,
            )),
    {
        !self.is_at_end() && token_type_matches(&self.peek().token_type, token_type)
    }

    /// Consumes the cursor's token when it is one of `token_types`.
    fn match_token_types(&mut self, token_types: &[TokenType]) -> (matched: bool)
        requires
            old(self).pos_ok(),
        ensures
            final(self).pos_ok(),
            final(self).tokens == old(self).tokens,
            final(self).errors == old(self).errors,
            matched == matches_any(old(self).toks()[old(self).current as int], token_types@),
            final(self).current == old(self).current + if matched {
                1int
            } else {
                0int
            },
    {
        let n = token_types.len();
        let mut k: usize = 0;
        let mut found = false;
        while k < n && !found
            invariant
                self == old(self),
                self.pos_ok(),
                n == token_types@.len(),
                0 <= k <= n,
                !found ==> forall|j: int|
                    0 <= j < k ==> !(!(self.toks()[self.current as int].kind is Eof)
                        && kind_matches(self.toks()[self.current as int].kind, token_types@[j]@)),
                found ==> !(self.toks()[self.current as int].kind is Eof) && exists|j: int|
                    0 <= j < k && kind_matches(self.toks()[self.current as int].kind, token_types@[j]@),
            decreases n - k,
        {
            if self.check(&token_types[k]) {
                found = true;
            }
            k = k + 1;
        }
        if found {
            self.advance();
        }
        found
    }

    /// Consumes the cursor's token when it is `token_type`; otherwise
    /// reports it as offending, with `message`.
    fn consume(&mut self, token_type: TokenType, message: &[u8]) -> (r: Result<Token, ParseError>)
        requires
            old(self).pos_ok(),
        ensures
            final(self).pos_ok(),
            final(self).tokens == old(self).tokens,
            final(self).errors == old(self).errors,
            ({
                let t = old(self).toks()[old(self).current as int];
                match r {
                    Ok(tok) => !(t.kind is Eof) && kind_matches(t.kind, token_type@) && tok@ == t
                        && final(self).current == old(self).current + 1,
                    Err(e) => !(!(t.kind is Eof) && kind_matches(t.kind, token_type@)) && e@.token
                        == t && e@.message == message@ && final(self).current == old(self).current,
                }
            }),
    {
        if self.check(&token_type) {
            let tok = self.peek().clone();
            self.advance();
            Ok(tok)
        } else {
            let token = self.peek().clone();
            Err(ParseError::new(token, crate::bytes::copy_bytes(message)))
        }
    }

    /// Discards tokens until the start of the next statement: just past
    /// a semicolon, at a statement keyword, or at the end.
    fn synchronize(&mut self)
        requires
            old(self).pos_ok(),
        ensures
            final(self).pos_ok(),
            final(self).tokens == old(self).tokens,
            final(self).errors == old(self).errors,
            final(self).current == sp_synchronize(old(self).toks(), old(self).current as int),
            final(self).current >= old(self).current,
            !(old(self).toks()[old(self).current as int].kind is Eof) ==> final(self).current > old(
                self,
            ).current,
    {
        let ghost t = self.toks();
        let ghost i0 = self.current as int;
        if self.is_at_end() {
            return ;
        }
        self.advance();
        while !self.is_at_end()
            invariant
                self.pos_ok(),
                self.tokens == old(self).tokens,
                self.errors == old(self).errors,
                t == self.toks(),
                i0 == old(self).current as int,
                0 <= i0 < t.len(),
                !(t[i0].kind is Eof),
                i0 + 1 <= self.current,
                sp_sync_loop(t, self.current as int) == sp_sync_loop(t, i0 + 1),
            decreases t.len() - self.current,
        {
            if matches!(self.previous().token_type, TokenType::Semicolon) {
                proof {
                    assert(sp_sync_loop(t, self.current as int) == self.current);
                }
                return ;
            }
            if matches!(
                self.peek().token_type,
                TokenType::Class | TokenType::Fun | TokenType::Var | TokenType::For | TokenType::If
                    | TokenType::While | TokenType::Print | TokenType::Return
            ) {
                proof {
                    assert(is_sync_kind(t[self.current as int].kind));
                    assert(sp_sync_loop(t, self.current as int) == self.current);
                }
                return ;
            }
            proof {
                assert(!(t[self.current as int].kind is Eof));
                assert(!is_sync_kind(t[self.current as int].kind));
                assert(sp_sync_loop(t, self.current as int) == sp_sync_loop(
                    t,
                    self.current + 1,
                ));
            }
            self.advance();
        }
        proof {
            assert(sp_sync_loop(t, self.current as int) == self.current);
        }
    }

    /// An expression: the equality tier.
    fn expression(&mut self) -> (r: Result<Expr, ParseError>)
        requires
            old(self).pos_ok(),
        ensures
            final(self).pos_ok(),
            final(self).tokens == old(self).tokens,
            final(self).errors == old(self).errors,
            old(self).current <= final(self).current,
            match r {
                Ok(e) => sp_expression(old(self).toks(), old(self).current as int) == Ok::<
                    (ExprV, int),
                    (PErrV, int),
                >((e@, final(self).current as int)) && old(self).current < final(self).current,
                Err(pe) => sp_expression(old(self).toks(), old(self).current as int) == Err::<
                    (ExprV, int),
                    (PErrV, int),
                >((pe@, final(self).current as int)),
            },
        decreases old(self).toks().len() - old(self).current, 11int,
    {
        self.equality()
    }

    /// An equality: comparisons joined by `==` or `!=`.
    #[verifier::rlimit(100)]
    fn equality(&mut self) -> (r: Result<Expr, ParseError>)
        requires
            old(self).pos_ok(),
        ensures
            final(self).pos_ok(),
            final(self).tokens == old(self).tokens,
            final(self).errors == old(self).errors,
            old(self).current <= final(self).current,
            match r {
                Ok(e) => sp_equality(old(self).toks(), old(self).current as int) == Ok::<
                    (ExprV, int),
                    (PErrV, int),
                >((e@, final(self).current as int)) && old(self).current < final(self).current,
                Err(pe) => sp_equality(old(self).toks(), old(self).current as int) == Err::<
                    (ExprV, int),
                    (PErrV, int),
                >((pe@, final(self).current as int)),
            },
        decreases old(self).toks().len() - old(self).current, 10int,
    {
        let ghost t = self.toks();
        let ghost i = self.current as int;
        let mut expr = match self.comparison() {
            Ok(e) => e,
            Err(e) => {
                return Err(e);
            },
        };
        proof {
            assert(chain_pos(i, self.current as int, t.len() as int) == self.current as int);
        }
        let ops: Vec<TokenType> = vec![TokenType::BangEqual, TokenType::EqualEqual];
        loop
            invariant
                self.pos_ok(),
                self.tokens == old(self).tokens,
                self.errors == old(self).errors,
                t == self.toks(),
                i == old(self).current as int,
                0 <= i < self.current <= t.len() - 1,
                ops@ =~= seq![TokenType::BangEqual, TokenType::EqualEqual],
                sp_equality(t, i) == sp_equality_rest(t, self.current as int, expr@),
            ensures
                self.pos_ok(),
                self.tokens == old(self).tokens,
                self.errors == old(self).errors,
                t == self.toks(),
                i == old(self).current as int,
                0 <= i < self.current <= t.len() - 1,
                sp_equality(t, i) == Ok::<(ExprV, int), (PErrV, int)>(
                    (expr@, self.current as int),
                ),
            decreases t.len() - self.current,
        {
            let ghost j = self.current as int;
            proof {
                lemma_two_kinds(t[j], TokenType::BangEqual, TokenType::EqualEqual, ops@);
            }
            if !self.match_token_types(ops.as_slice()) {
                proof {
                    assert(!is_equality_op(t[j].kind));
                    assert(sp_equality_rest(t, j, expr@) == Ok::<(ExprV, int), (PErrV, int)>(
                        (expr@, j),
                    ));
                }
                break ;
            }
            proof {
                assert(is_equality_op(t[j].kind));
            }
            let operator = self.previous().clone();
            let right = match self.comparison() {
                Ok(e) => e,
                Err(e) => {
                    proof {
                        assert(sp_equality_rest(t, j, expr@) == Err::<(ExprV, int), (PErrV, int)>(
                            (e@, self.current as int),
                        ));
                    }
                    return Err(e);
                },
            };
            let ghost acc = expr@;
            expr = Expr::Binary(Box::new(BinaryExpr { left: expr, operator, right }));
            proof {
                assert(step_pos(j, self.current as int, t.len() as int) == self.current as int);
                assert(expr@ == ExprV::Binary {
                    left: Box::new(acc),
                    op: t[j],
                    right: Box::new(right@),
                });
            }
        }
        Ok(expr)
    }

    /// A comparison: terms joined by ordering operators.
    #[verifier::rlimit(100)]
    fn comparison(&mut self) -> (r: Result<Expr, ParseError>)
        requires
            old(self).pos_ok(),
        ensures
            final(self).pos_ok(),
            final(self).tokens == old(self).tokens,
            final(self).errors == old(self).errors,
            old(self).current <= final(self).current,
            match r {
                Ok(e) => sp_comparison(old(self).toks(), old(self).current as int) == Ok::<
                    (ExprV, int),
                    (PErrV, int),
                >((e@, final(self).current as int)) && old(self).current < final(self).current,
                Err(pe) => sp_comparison(old(self).toks(), old(self).current as int) == Err::<
                    (ExprV, int),
                    (PErrV, int),
                >((pe@, final(self).current as int)),
            },
        decreases old(self).toks().len() - old(self).current, 8int,
    {
        let ghost t = self.toks();
        let ghost i = self.current as int;
        let mut expr = match self.term() {
            Ok(e) => e,
            Err(e) => {
                return Err(e);
            },
        };
        proof {
            assert(chain_pos(i, self.current as int, t.len() as int) == self.current as int);
        }
        let ops: Vec<TokenType> = vec![
            TokenType::Greater,
            TokenType::GreaterEqual,
            TokenType::Less,
            TokenType::LessEqual,
        ];
        loop
            invariant
                self.pos_ok(),
                self.tokens == old(self).tokens,
                self.errors == old(self).errors,
                t == self.toks(),
                i == old(self).current as int,
                0 <= i < self.current <= t.len() - 1,
                ops@ =~= seq![
                    TokenType::Greater,
                    TokenType::GreaterEqual,
                    TokenType::Less,
                    TokenType::LessEqual,
                ],
                sp_comparison(t, i) == sp_comparison_rest(t, self.current as int, expr@),
            ensures
                self.pos_ok(),
                self.tokens == old(self).tokens,
                self.errors == old(self).errors,
                t == self.toks(),
                i == old(self).current as int,
                0 <= i < self.current <= t.len() - 1,
                sp_comparison(t, i) == Ok::<(ExprV, int), (PErrV, int)>(
                    (expr@, self.current as int),
                ),
            decreases t.len() - self.current,
        {
            let ghost j = self.current as int;
            proof {
                lemma_four_kinds(
                    t[j],
                    TokenType::Greater,
                    TokenType::GreaterEqual,
                    TokenType::Less,
                    TokenType::LessEqual,
                    ops@,
                );
            }
            if !self.match_token_types(ops.as_slice()) {
                proof {
                    assert(!is_comparison_op(t[j].kind));
                    assert(sp_comparison_rest(t, j, expr@) == Ok::<(ExprV, int), (PErrV, int)>(
                        (expr@, j),
                    ));
                }
                break ;
            }
            proof {
                assert(is_comparison_op(t[j].kind));
            }
            let operator = self.previous().clone();
            let right = match self.term() {
                Ok(e) => e,
                Err(e) => {
                    proof {
                        assert(sp_comparison_rest(t, j, expr@) == Err::<(ExprV, int), (PErrV, int)>(
                            (e@, self.current as int),
                        ));
                    }
                    return Err(e);
                },
            };
            let ghost acc = expr@;
            expr = Expr::Binary(Box::new(BinaryExpr { left: expr, operator, right }));
            proof {
                assert(step_pos(j, self.current as int, t.len() as int) == self.current as int);
                assert(expr@ == ExprV::Binary {
                    left: Box::new(acc),
                    op: t[j],
                    right: Box::new(right@),
                });
            }
        }
        Ok(expr)
    }

    /// A term: factors joined by `+` or `-`.
    #[verifier::rlimit(100)]
    fn term(&mut self) -> (r: Result<Expr, ParseError>)
        requires
            old(self).pos_ok(),
        ensures
            final(self).pos_ok(),
            final(self).tokens == old(self).tokens,
            final(self).errors == old(self).errors,
            old(self).current <= final(self).current,
            match r {
                Ok(e) => sp_term(old(self).toks(), old(self).current as int) == Ok::<
                    (ExprV, int),
                    (PErrV, int),
                >((e@, final(self).current as int)) && old(self).current < final(self).current,
                Err(pe) => sp_term(old(self).toks(), old(self).current as int) == Err::<
                    (ExprV, int),
                    (PErrV, int),
                >((pe@, final(self).current as int)),
            },
        decreases old(self).toks().len() - old(self).current, 6int,
    {
        let ghost t = self.toks();
        let ghost i = self.current as int;
        let mut expr = match self.factor() {
            Ok(e) => e,
            Err(e) => {
                return Err(e);
            },
        };
        proof {
            assert(chain_pos(i, self.current as int, t.len() as int) == self.current as int);
        }
        let ops: Vec<TokenType> = vec![TokenType::Minus, TokenType::Plus];
        loop
            invariant
                self.pos_ok(),
                self.tokens == old(self).tokens,
                self.errors == old(self).errors,
                t == self.toks(),
                i == old(self).current as int,
                0 <= i < self.current <= t.len() - 1,
                ops@ =~= seq![TokenType::Minus, TokenType::Plus],
                sp_term(t, i) == sp_term_rest(t, self.current as int, expr@),
            ensures
                self.pos_ok(),
                self.tokens == old(self).tokens,
                self.errors == old(self).errors,
                t == self.toks(),
                i == old(self).current as int,
                0 <= i < self.current <= t.len() - 1,
                sp_term(t, i) == Ok::<(ExprV, int), (PErrV, int)>((expr@, self.current as int)),
            decreases t.len() - self.current,
        {
            let ghost j = self.current as int;
            proof {
                lemma_two_kinds(t[j], TokenType::Minus, TokenType::Plus, ops@);
            }
            if !self.match_token_types(ops.as_slice()) {
                proof {
                    assert(!is_term_op(t[j].kind));
                    assert(sp_term_rest(t, j, expr@) == Ok::<(ExprV, int), (PErrV, int)>(
                        (expr@, j),
                    ));
                }
                break ;
            }
            proof {
                assert(is_term_op(t[j].kind));
            }
            let operator = self.previous().clone();
            let right = match self.factor() {
                Ok(e) => e,
                Err(e) => {
                    proof {
                        assert(sp_term_rest(t, j, expr@) == Err::<(ExprV, int), (PErrV, int)>(
                            (e@, self.current as int),
                        ));
                    }
                    return Err(e);
                },
            };
            let ghost acc = expr@;
            expr = Expr::Binary(Box::new(BinaryExpr { left: expr, operator, right }));
            proof {
                assert(step_pos(j, self.current as int, t.len() as int) == self.current as int);
                assert(expr@ == ExprV::Binary {
                    left: Box::new(acc),
                    op: t[j],
                    right: Box::new(right@),
                });
            }
        }
        Ok(expr)
    }

    /// A factor: unaries joined by `*` or `/`.
    #[verifier::rlimit(100)]
    fn factor(&mut self) -> (r: Result<Expr, ParseError>)
        requires
            old(self).pos_ok(),
        ensures
            final(self).pos_ok(),
            final(self).tokens == old(self).tokens,
            final(self).errors == old(self).errors,
            old(self).current <= final(self).current,
            match r {
                Ok(e) => sp_factor(old(self).toks(), old(self).current as int) == Ok::<
                    (ExprV, int),
                    (PErrV, int),
                >((e@, final(self).current as int)) && old(self).current < final(self).current,
                Err(pe) => sp_factor(old(self).toks(), old(self).current as int) == Err::<
                    (ExprV, int),
                    (PErrV, int),
                >((pe@, final(self).current as int)),
            },
        decreases old(self).toks().len() - old(self).current, 4int,
    {
        let ghost t = self.toks();
        let ghost i = self.current as int;
        let mut expr = match self.unary() {
            Ok(e) => e,
            Err(e) => {
                return Err(e);
            },
        };
        proof {
            assert(chain_pos(i, self.current as int, t.len() as int) == self.current as int);
        }
        let ops: Vec<TokenType> = vec![TokenType::Slash, TokenType::Star];
        loop
            invariant
                self.pos_ok(),
                self.tokens == old(self).tokens,
                self.errors == old(self).errors,
                t == self.toks(),
                i == old(self).current as int,
                0 <= i < self.current <= t.len() - 1,
                ops@ =~= seq![TokenType::Slash, TokenType::Star],
                sp_factor(t, i) == sp_factor_rest(t, self.current as int, expr@),
            ensures
                self.pos_ok(),
                self.tokens == old(self).tokens,
                self.errors == old(self).errors,
                t == self.toks(),
                i == old(self).current as int,
                0 <= i < self.current <= t.len() - 1,
                sp_factor(t, i) == Ok::<(ExprV, int), (PErrV, int)>((expr@, self.current as int)),
            decreases t.len() - self.current,
        {
            let ghost j = self.current as int;
            proof {
                lemma_two_kinds(t[j], TokenType::Slash, TokenType::Star, ops@);
            }
            if !self.match_token_types(ops.as_slice()) {
                proof {
                    assert(!is_factor_op(t[j].kind));
                    assert(sp_factor_rest(t, j, expr@) == Ok::<(ExprV, int), (PErrV, int)>(
                        (expr@, j),
                    ));
                }
                break ;
            }
            proof {
                assert(is_factor_op(t[j].kind));
            }
            let operator = self.previous().clone();
            let right = match self.unary() {
                Ok(e) => e,
                Err(e) => {
                    proof {
                        assert(sp_factor_rest(t, j, expr@) == Err::<(ExprV, int), (PErrV, int)>(
                            (e@, self.current as int),
                        ));
                    }
                    return Err(e);
                },
            };
            let ghost acc = expr@;
            expr = Expr::Binary(Box::new(BinaryExpr { left: expr, operator, right }));
            proof {
                assert(step_pos(j, self.current as int, t.len() as int) == self.current as int);
                assert(expr@ == ExprV::Binary {
                    left: Box::new(acc),
                    op: t[j],
                    right: Box::new(right@),
                });
            }
        }
        Ok(expr)
    }

    /// A unary expression: `!` or `-` over a unary, else a primary.
    fn unary(&mut self) -> (r: Result<Expr, ParseError>)
        requires
            old(self).pos_ok(),
        ensures
            final(self).pos_ok(),
            final(self).tokens == old(self).tokens,
            final(self).errors == old(self).errors,
            old(self).current <= final(self).current,
            match r {
                Ok(e) => sp_unary(old(self).toks(), old(self).current as int) == Ok::<
                    (ExprV, int),
                    (PErrV, int),
                >((e@, final(self).current as int)) && old(self).current < final(self).current,
                Err(pe) => sp_unary(old(self).toks(), old(self).current as int) == Err::<
                    (ExprV, int),
                    (PErrV, int),
                >((pe@, final(self).current as int)),
            },
        decreases old(self).toks().len() - old(self).current, 2int,
    {
        let ghost t = self.toks();
        let ghost i = self.current as int;
        let ops: Vec<TokenType> = vec![TokenType::Bang, TokenType::Minus];
        proof {
            lemma_two_kinds(t[i], TokenType::Bang, TokenType::Minus, ops@);
        }
        if self.match_token_types(ops.as_slice()) {
            proof {
                assert(t[i].kind is Bang || t[i].kind is Minus);
            }
            let operator = self.previous().clone();
            match self.unary() {
                Ok(right) => {
                    let e = Expr::Unary(Box::new(UnaryExpr { operator, right }));
                    proof {
                        assert(e@ == ExprV::Unary { op: t[i], right: Box::new(right@) });
                    }
                    Ok(e)
                },
                Err(e) => Err(e),
            }
        } else {
            proof {
                assert(!(t[i].kind is Bang || t[i].kind is Minus));
            }
            self.primary()
        }
    }

    /// A primary expression: a literal, a grouping or a variable
    /// reference.
    fn primary(&mut self) -> (r: Result<Expr, ParseError>)
        requires
            old(self).pos_ok(),
        ensures
            final(self).pos_ok(),
            final(self).tokens == old(self).tokens,
            final(self).errors == old(self).errors,
            old(self).current <= final(self).current,
            match r {
                Ok(e) => sp_primary(old(self).toks(), old(self).current as int) == Ok::<
                    (ExprV, int),
                    (PErrV, int),
                >((e@, final(self).current as int)) && old(self).current < final(self).current,
                Err(pe) => sp_primary(old(self).toks(), old(self).current as int) == Err::<
                    (ExprV, int),
                    (PErrV, int),
                >((pe@, final(self).current as int)),
            },
        decreases old(self).toks().len() - old(self).current, 1int,
    {
        let ghost t = self.toks();
        let ghost i = self.current as int;
        let tt = self.peek().token_type.clone();
        match tt {
            TokenType::False => {
                self.advance();
                Ok(Expr::Literal(Box::new(LiteralExpr { value: LiteralValue::Bool(false) })))
            },
            TokenType::True => {
                self.advance();
                Ok(Expr::Literal(Box::new(LiteralExpr { value: LiteralValue::Bool(true) })))
            },
            TokenType::Nil => {
                self.advance();
                Ok(Expr::Literal(Box::new(LiteralExpr { value: LiteralValue::Nil })))
            },
            TokenType::Number(b) => {
                self.advance();
                Ok(Expr::Literal(Box::new(LiteralExpr { value: LiteralValue::Number(b) })))
            },
            TokenType::Str(sv) => {
                self.advance();
                Ok(Expr::Literal(Box::new(LiteralExpr { value: LiteralValue::Str(sv) })))
            },
            TokenType::LeftParen => {
                self.advance();
                match self.expression() {
                    Ok(inner) => {
                        if self.check(&TokenType::RightParen) {
                            self.advance();
                            Ok(Expr::Grouping(Box::new(GroupingExpr { expr: inner })))
                        } else {
                            let token = self.peek().clone();
                            Err(ParseError::new(token, crate::text::msg_expect_rparen_vec()))
                        }
                    },
                    Err(e) => Err(e),
                }
            },
            TokenType::Identifier => {
                self.advance();
                let name = self.previous().clone();
                Ok(Expr::Variable(Box::new(VarExpr { name })))
            },
            _ => {
                let token = self.peek().clone();
                Err(ParseError::new(token, crate::text::msg_expect_expression_vec()))
            },
        }
    }

    /// A print statement, after its keyword.
    fn print_statement(&mut self) -> (r: Result<Stmt, ParseError>)
        requires
            old(self).pos_ok(),
        ensures
            final(self).pos_ok(),
            final(self).tokens == old(self).tokens,
            final(self).errors == old(self).errors,
            old(self).current <= final(self).current,
            match r {
                Ok(st) => sp_print_statement(old(self).toks(), old(self).current as int) == Ok::<
                    (StmtV, int),
                    (PErrV, int),
                >((st@, final(self).current as int)) && old(self).current < final(self).current,
                Err(pe) => sp_print_statement(old(self).toks(), old(self).current as int) == Err::<
                    (StmtV, int),
                    (PErrV, int),
                >((pe@, final(self).current as int)),
            },
    {
        let value = match self.expression() {
            Ok(e) => e,
            Err(e) => {
                return Err(e);
            },
        };
        let semi = crate::text::msg_expect_semi_value_vec();
        match self.consume(TokenType::Semicolon, semi.as_slice()) {
            Ok(_) => Ok(Stmt::Print(Box::new(PrintStmt { expr: value }))),
            Err(e) => Err(e),
        }
    }

    /// An expression statement.
    fn expression_statement(&mut self) -> (r: Result<Stmt, ParseError>)
        requires
            old(self).pos_ok(),
        ensures
            final(self).pos_ok(),
            final(self).tokens == old(self).tokens,
            final(self).errors == old(self).errors,
            old(self).current <= final(self).current,
            match r {
                Ok(st) => sp_expression_statement(old(self).toks(), old(self).current as int)
                    == Ok::<(StmtV, int), (PErrV, int)>((st@, final(self).current as int)) && old(
                    self,
                ).current < final(self).current,
                Err(pe) => sp_expression_statement(old(self).toks(), old(self).current as int)
                    == Err::<(StmtV, int), (PErrV, int)>((pe@, final(self).current as int)),
            },
    {
        let expr = match self.expression() {
            Ok(e) => e,
            Err(e) => {
                return Err(e);
            },
        };
        let semi = crate::text::msg_expect_semi_value_vec();
        match self.consume(TokenType::Semicolon, semi.as_slice()) {
            Ok(_) => Ok(Stmt::Expr(Box::new(ExprStmt { expr }))),
            Err(e) => Err(e),
        }
    }

    /// A statement: a print statement after `print`, else an expression
    /// statement.
    fn statement(&mut self) -> (r: Result<Stmt, ParseError>)
        requires
            old(self).pos_ok(),
        ensures
            final(self).pos_ok(),
            final(self).tokens == old(self).tokens,
            final(self).errors == old(self).errors,
            old(self).current <= final(self).current,
            match r {
                Ok(st) => sp_statement(old(self).toks(), old(self).current as int) == Ok::<
                    (StmtV, int),
                    (PErrV, int),
                >((st@, final(self).current as int)) && old(self).current < final(self).current,
                Err(pe) => sp_statement(old(self).toks(), old(self).current as int) == Err::<
                    (StmtV, int),
                    (PErrV, int),
                >((pe@, final(self).current as int)),
            },
    {
        let ghost t = self.toks();
        let ghost i = self.current as int;
        let ops: Vec<TokenType> = vec![TokenType::Print];
        proof {
            lemma_one_kind(t[i], TokenType::Print, ops@);
        }
        if self.match_token_types(ops.as_slice()) {
            proof {
                assert(t[i].kind is Print);
            }
            self.print_statement()
        } else {
            proof {
                assert(!(t[i].kind is Print));
            }
            self.expression_statement()
        }
    }

    /// A variable declaration, after its keyword: a name, an optional
    /// initializer, and a semicolon.
    fn var_declaration(&mut self) -> (r: Result<Stmt, ParseError>)
        requires
            old(self).pos_ok(),
        ensures
            final(self).pos_ok(),
            final(self).tokens == old(self).tokens,
            final(self).errors == old(self).errors,
            old(self).current <= final(self).current,
            match r {
                Ok(st) => sp_var_declaration(old(self).toks(), old(self).current as int) == Ok::<
                    (StmtV, int),
                    (PErrV, int),
                >((st@, final(self).current as int)) && old(self).current < final(self).current,
                Err(pe) => sp_var_declaration(old(self).toks(), old(self).current as int) == Err::<
                    (StmtV, int),
                    (PErrV, int),
                >((pe@, final(self).current as int)),
            },
    {
        let ghost t = self.toks();
        let ghost i = self.current as int;
        let want_name = crate::text::msg_expect_var_name_vec();
        let name = match self.consume(TokenType::Identifier, want_name.as_slice()) {
            Ok(tok) => tok,
            Err(e) => {
                return Err(e);
            },
        };
        let ops: Vec<TokenType> = vec![TokenType::Equal];
        proof {
            lemma_one_kind(t[i + 1], TokenType::Equal, ops@);
        }
        let initializer = if self.match_token_types(ops.as_slice()) {
            match self.expression() {
                Ok(e) => Some(e),
                Err(e) => {
                    return Err(e);
                },
            }
        } else {
            None
        };
        let semi = crate::text::msg_expect_semi_decl_vec();
        match self.consume(TokenType::Semicolon, semi.as_slice()) {
            Ok(_) => Ok(Stmt::Var(Box::new(VarStmt { name, initializer }))),
            Err(e) => Err(e),
        }
    }

    /// One declaration: a variable declaration after `var`, else a
    /// statement.  On failure the error is recorded, tokens are
    /// discarded to the next statement boundary, and a nil expression
    /// statement stands in so that the rest still parses.
    #[verifier::rlimit(100)]
    #[verifier::spinoff_prover]
    fn declaration(&mut self) -> (r: Stmt)
        requires
            old(self).pos_ok(),
            !(old(self).toks()[old(self).current as int].kind is Eof),
        ensures
            final(self).pos_ok(),
            final(self).tokens == old(self).tokens,
            ({
                let d = sp_declaration(old(self).toks(), old(self).current as int);
                &&& r@ == d.stmt
                &&& final(self).current == d.next
                &&& perr_views(final(self).errors@) == perr_views(old(self).errors@) + crate::scanner::opt_seq(d.error)
            }),
            old(self).current < final(self).current,
    {
        let ghost t = self.toks();
        let ghost i = self.current as int;
        let ghost errs0 = perr_views(self.errors@);
        let ops: Vec<TokenType> = vec![TokenType::Var];
        proof {
            lemma_one_kind(t[i], TokenType::Var, ops@);
        }
        let is_var = self.match_token_types(ops.as_slice());
        let attempt = if is_var {
            proof {
                assert(t[i].kind is Var);
            }
            self.var_declaration()
        } else {
            proof {
                assert(!(t[i].kind is Var));
            }
            self.statement()
        };
        match attempt {
            Ok(stmt) => {
                proof {
                    assert(self.current > i);
                    assert(errs0 + crate::scanner::opt_seq(Option::<PErrV>::None) =~= errs0);
                }
                stmt
            },
            Err(error) => {
                let ghost ev = error@;
                self.synchronize();
                self.errors.push(error);
                proof {
                    assert(perr_views(self.errors@) =~= errs0.push(ev));
                    assert(errs0 + crate::scanner::opt_seq(Some(ev)) =~= errs0.push(ev));
                }
                Stmt::Expr(
                    Box::new(
                        ExprStmt {
                            expr: Expr::Literal(Box::new(LiteralExpr { value: LiteralValue::Nil })),
                        },
                    ),
                )
            },
        }
    }

    /// Parses the whole stream: the declarations until the end-of-input
    /// token, with the recovered errors appended in order.
    pub fn parse(&mut self) -> (r: Vec<Stmt>)
        requires
            old(self).pos_ok(),
        ensures
            final(self).pos_ok(),
            final(self).tokens == old(self).tokens,
            stmt_views(r@) == sp_program(old(self).toks(), old(self).current as int).stmts,
            perr_views(final(self).errors@) == perr_views(old(self).errors@) + sp_program(
                old(self).toks(),
                old(self).current as int,
            ).errors,
    {
        let ghost t = self.toks();
        let ghost i0 = self.current as int;
        let ghost full = sp_program(t, i0);
        let mut statements: Vec<Stmt> = Vec::new();
        proof {
            assert(stmt_views(statements@) =~= Seq::<StmtV>::empty());
            assert(Seq::<StmtV>::empty() + full.stmts =~= full.stmts);
        }
        while !self.is_at_end()
            invariant
                self.pos_ok(),
                self.tokens == old(self).tokens,
                t == self.toks(),
                i0 == old(self).current as int,
                full == sp_program(t, i0),
                stmt_views(statements@) + sp_program(t, self.current as int).stmts == full.stmts,
                perr_views(self.errors@) + sp_program(t, self.current as int).errors == perr_views(
                    old(self).errors@,
                ) + full.errors,
            decreases t.len() - self.current,
        {
            let ghost pre = self.current as int;
            let ghost stmts_pre = stmt_views(statements@);
            let ghost errs_pre = perr_views(self.errors@);
            let stmt = self.declaration();
            let ghost sv = stmt@;
            statements.push(stmt);
            proof {
                let d = sp_declaration(t, pre);
                assert(step_pos(pre, d.next, t.len() as int) == d.next);
                let rest = sp_program(t, d.next);
                assert(sp_program(t, pre).stmts =~= seq![d.stmt] + rest.stmts);
                assert(sp_program(t, pre).errors =~= crate::scanner::opt_seq(d.error)
                    + rest.errors);
                assert(stmt_views(statements@) =~= stmts_pre.push(sv));
                assert(stmts_pre.push(sv) + rest.stmts =~= stmts_pre + (seq![d.stmt]
                    + rest.stmts));
                assert((errs_pre + crate::scanner::opt_seq(d.error)) + rest.errors =~= errs_pre + (
                crate::scanner::opt_seq(d.error) + rest.errors));
            }
        }
        proof {
            assert(sp_program(t, self.current as int).stmts =~= Seq::<StmtV>::empty());
            assert(sp_program(t, self.current as int).errors =~= Seq::<PErrV>::empty());
            assert(stmt_views(statements@) + Seq::<StmtV>::empty() =~= stmt_views(statements@));
            assert(perr_views(self.errors@) + Seq::<PErrV>::empty() =~= perr_views(self.errors@));
        }
        statements
    }
}

/// Recovery bounds error reports: when the first declaration is
/// malformed and the program parses cleanly from the recovery point,
/// exactly one error is reported, a nil statement stands in for the
/// malformed one, and every following statement still parses.
pub proof fn lemma_recovery_bounds_errors(toks: Seq<TokenV>)
    requires
        toks.len() >= 1,
        !(toks[0].kind is Eof),
        sp_declaration(toks, 0).error is Some,
        sp_program(toks, step_pos(0, sp_declaration(toks, 0).next, toks.len() as int)).errors
            == Seq::<PErrV>::empty(),
    ensures
        sp_program(toks, 0).errors.len() == 1,
        sp_program(toks, 0).stmts == seq![stub_stmt()] + sp_program(
            toks,
            step_pos(0, sp_declaration(toks, 0).next, toks.len() as int),
        ).stmts,
{
    let d = sp_declaration(toks, 0);
    let nx = step_pos(0, d.next, toks.len() as int);
    let rest = sp_program(toks, nx);
    assert(d.stmt == stub_stmt());
    assert(sp_program(toks, 0).errors =~= crate::scanner::opt_seq(d.error) + rest.errors);
    assert(crate::scanner::opt_seq(d.error).len() == 1);
    assert(sp_program(toks, 0).stmts =~= seq![d.stmt] + rest.stmts);
}

/// Matching one payload-free kind is just that kind.
proof fn lemma_one_kind(tk: TokenV, a: TokenType, ks: Seq<TokenType>)
    requires
        ks.len() == 1,
        ks[0] == a,
    ensures
        matches_any(tk, ks) == (!(tk.kind is Eof) && kind_matches(tk.kind, a@)),
{
    if !(tk.kind is Eof) && kind_matches(tk.kind, a@) {
        assert(0 <= 0 < ks.len() && kind_matches(tk.kind, ks[0]@));
        assert(matches_any(tk, ks));
    }
    if matches_any(tk, ks) {
        let k = choose|k: int| 0 <= k < ks.len() && kind_matches(tk.kind, ks[k]@);
        assert(k == 0);
    }
}

/// Matching one of two payload-free kinds is matching either.
proof fn lemma_two_kinds(tk: TokenV, a: TokenType, b: TokenType, ks: Seq<TokenType>)
    requires
        ks.len() == 2,
        ks[0] == a,
        ks[1] == b,
    ensures
        matches_any(tk, ks) == (!(tk.kind is Eof) && (kind_matches(tk.kind, a@) || kind_matches(
            tk.kind,
            b@,
        ))),
{
    if !(tk.kind is Eof) && (kind_matches(tk.kind, a@) || kind_matches(tk.kind, b@)) {
        if kind_matches(tk.kind, a@) {
            assert(0 <= 0 < ks.len() && kind_matches(tk.kind, ks[0]@));
        } else {
            assert(0 <= 1 < ks.len() && kind_matches(tk.kind, ks[1]@));
        }
        assert(matches_any(tk, ks));
    }
    if matches_any(tk, ks) {
        let k = choose|k: int| 0 <= k < ks.len() && kind_matches(tk.kind, ks[k]@);
        assert(k == 0 || k == 1);
    }
}

/// Matching one of four payload-free kinds is matching any of them.
proof fn lemma_four_kinds(
    tk: TokenV,
    a: TokenType,
    b: TokenType,
    c: TokenType,
    d: TokenType,
    ks: Seq<TokenType>,
)
    requires
        ks.len() == 4,
        ks[0] == a,
        ks[1] == b,
        ks[2] == c,
        ks[3] == d,
    ensures
        matches_any(tk, ks) == (!(tk.kind is Eof) && (kind_matches(tk.kind, a@) || kind_matches(
            tk.kind,
            b@,
        ) || kind_matches(tk.kind, c@) || kind_matches(tk.kind, d@))),
{
    if !(tk.kind is Eof) && (kind_matches(tk.kind, a@) || kind_matches(tk.kind, b@) || kind_matches(
        tk.kind,
        c@,
    ) || kind_matches(tk.kind, d@)) {
        if kind_matches(tk.kind, a@) {
            assert(0 <= 0 < ks.len() && kind_matches(tk.kind, ks[0]@));
        } else if kind_matches(tk.kind, b@) {
            assert(0 <= 1 < ks.len() && kind_matches(tk.kind, ks[1]@));
        } else if kind_matches(tk.kind, c@) {
            assert(0 <= 2 < ks.len() && kind_matches(tk.kind, ks[2]@));
        } else {
            assert(0 <= 3 < ks.len() && kind_matches(tk.kind, ks[3]@));
        }
        assert(matches_any(tk, ks));
    }
    if matches_any(tk, ks) {
        let k = choose|k: int| 0 <= k < ks.len() && kind_matches(tk.kind, ks[k]@);
        assert(k == 0 || k == 1 || k == 2 || k == 3);
    }
}

} // verus!
