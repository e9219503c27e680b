//! The front half and evaluator of a small dynamically-typed scripting
//! language: a lexer, a recursive-descent parser and a tree-walking
//! evaluator over an abstract syntax tree, together with the flat
//! variable environment the evaluator mutates.
//!
//! [`run`] drives one source text through the whole pipeline against a
//! caller-owned [`interpreter::Interpreter`], which persists across
//! runs in interactive use.  Each stage's behaviour is specified
//! mathematically — [`scanner::scan_from`], [`parser::sp_program`],
//! [`interpreter::run_stmts`] — and the executable code is proved to
//! realize those specifications.
use vstd::prelude::*;

pub mod ast_printer;
pub mod bytes;
pub mod environment;
pub mod expressions;
pub mod interpreter;
pub mod numbers;
pub mod parser;
pub mod reporter;
pub mod scanner;
pub mod statements;
pub mod text;
pub mod token;

use crate::interpreter::Interpreter;
use crate::interpreter::out_views;
use crate::interpreter::run_stmts;
use crate::parser::ParseError;
use crate::parser::Parser;
use crate::parser::perr_views;
use crate::parser::sp_program;
use crate::reporter::LexError;
use crate::reporter::RuntimeError;
use crate::reporter::lex_err_views;
use crate::expressions::ExprV;
use crate::expressions::ValueV;
use crate::interpreter::eval_expr;
use crate::numbers::is_digit;
use crate::numbers::is_number_lexeme;
use crate::numbers::all_digits;
use crate::numbers::num_add;
use crate::numbers::num_mul;
use crate::numbers::num_of_decimal;
use crate::numbers::num_sub;
use crate::parser::PErrV;
use crate::parser::sp_expression;
use crate::reporter::RtErrV;
use crate::scanner::Scanner;
use crate::scanner::digits_end;
use crate::scanner::lemma_digits_end;
use crate::scanner::lemma_string_end;
use crate::scanner::scan_from;
use crate::scanner::string_end;
use crate::statements::StmtV;
use crate::token::KindV;
use crate::token::TokenV;

verus! {

/// Everything one run of the pipeline produces: the errors of each
/// stage, in order, and the lines printed.
pub struct RunOutcome {
    pub lex_errors: Vec<LexError>,
    pub parse_errors: Vec<ParseError>,
    pub runtime_error: Option<RuntimeError>,
    pub output: Vec<Vec<u8>>,
}

/// Runs one source text through lexer, parser and interpreter.  The
/// interpreter's environment persists into the next run; the outcome
/// carries this run's diagnostics and output for the caller's sink.
pub fn run(source: Vec<u8>, interpreter: &mut Interpreter) -> (r: RunOutcome)
    requires
        old(interpreter).out_view() == Seq::<Seq<u8>>::empty(),
    ensures
        ({
            let scanned = scan_from(source@, 0, 0);
            let parsed = sp_program(scanned.tokens, 0);
            let ran = run_stmts(old(interpreter).env_view(), parsed.stmts);
            &&& lex_err_views(r.lex_errors@) == scanned.errors
            &&& perr_views(r.parse_errors@) == parsed.errors
            &&& final(interpreter).env_view() == ran.env
            &&& out_views(r.output@) == ran.out
            &&& match r.runtime_error {
                None => ran.error is None,
                Some(e) => ran.error == Some(e@),
            }
            &&& final(interpreter).out_view() == Seq::<Seq<u8>>::empty()
        }),
{
    let mut scanner = Scanner::new(source);
    scanner.scan_tokens();
    let Scanner { tokens, errors: lex_errors, .. } = scanner;
    let mut parser = Parser::new(tokens);
    let statements = parser.parse();
    let Parser { errors: parse_errors, .. } = parser;
    proof {
        assert(perr_views(Seq::<ParseError>::empty()) =~= Seq::<crate::parser::PErrV>::empty());
        assert(Seq::<crate::parser::PErrV>::empty() + sp_program(
            scan_from(source@, 0, 0).tokens,
            0,
        ).errors =~= sp_program(scan_from(source@, 0, 0).tokens, 0).errors);
    }
    let runtime_error = match interpreter.interpret(&statements) {
        Ok(()) => None,
        Err(e) => Some(e),
    };
    let output = interpreter.take_output();
    RunOutcome { lex_errors, parse_errors, runtime_error, output }
}

/// Multiplication binds tighter than addition: over any environment,
/// a number, `+`, a number, `*` and a number parse as the sum of the
/// first and the product of the other two, and evaluate accordingly.
pub proof fn lemma_precedence(toks: Seq<TokenV>, a: u64, b: u64, c: u64, env: Map<Seq<u8>, ValueV>)
    requires
        toks.len() == 6,
        toks[0].kind == KindV::Number(a),
        toks[1].kind is Plus,
        toks[2].kind == KindV::Number(b),
        toks[3].kind is Star,
        toks[4].kind == KindV::Number(c),
        toks[5].kind is Eof,
    ensures
        ({
            let mul_tree = ExprV::Binary {
                left: Box::new(ExprV::Literal { value: ValueV::Number(b) }),
                op: toks[3],
                right: Box::new(ExprV::Literal { value: ValueV::Number(c) }),
            };
            let add_tree = ExprV::Binary {
                left: Box::new(ExprV::Literal { value: ValueV::Number(a) }),
                op: toks[1],
                right: Box::new(mul_tree),
            };
            &&& sp_expression(toks, 0) == Ok::<(ExprV, int), (PErrV, int)>((add_tree, 5))
            &&& eval_expr(env, add_tree) == Ok::<ValueV, RtErrV>(
                ValueV::Number(num_add(a, num_mul(b, c))),
            )
        }),
{
    let lit_a = ExprV::Literal { value: ValueV::Number(a) };
    let lit_b = ExprV::Literal { value: ValueV::Number(b) };
    let lit_c = ExprV::Literal { value: ValueV::Number(c) };
    let mul_tree = ExprV::Binary { left: Box::new(lit_b), op: toks[3], right: Box::new(lit_c) };
    let add_tree = ExprV::Binary { left: Box::new(lit_a), op: toks[1], right: Box::new(mul_tree) };
    assert(crate::parser::sp_primary(toks, 0) == Ok::<(ExprV, int), (PErrV, int)>((lit_a, 1)));
    assert(crate::parser::sp_unary(toks, 0) == Ok::<(ExprV, int), (PErrV, int)>((lit_a, 1)));
    assert(crate::parser::sp_factor_rest(toks, 1, lit_a) == Ok::<(ExprV, int), (PErrV, int)>(
        (lit_a, 1),
    ));
    assert(crate::parser::sp_factor(toks, 0) == Ok::<(ExprV, int), (PErrV, int)>((lit_a, 1)));
    assert(crate::parser::sp_primary(toks, 2) == Ok::<(ExprV, int), (PErrV, int)>((lit_b, 3)));
    assert(crate::parser::sp_unary(toks, 2) == Ok::<(ExprV, int), (PErrV, int)>((lit_b, 3)));
    assert(crate::parser::sp_primary(toks, 4) == Ok::<(ExprV, int), (PErrV, int)>((lit_c, 5)));
    assert(crate::parser::sp_unary(toks, 4) == Ok::<(ExprV, int), (PErrV, int)>((lit_c, 5)));
    assert(crate::parser::sp_factor_rest(toks, 5, mul_tree) == Ok::<(ExprV, int), (PErrV, int)>(
        (mul_tree, 5),
    ));
    assert(crate::parser::sp_factor_rest(toks, 3, lit_b) == Ok::<(ExprV, int), (PErrV, int)>(
        (mul_tree, 5),
    ));
    assert(crate::parser::sp_factor(toks, 2) == Ok::<(ExprV, int), (PErrV, int)>((mul_tree, 5)));
    assert(crate::parser::sp_term_rest(toks, 5, add_tree) == Ok::<(ExprV, int), (PErrV, int)>(
        (add_tree, 5),
    ));
    assert(crate::parser::sp_term_rest(toks, 1, lit_a) == Ok::<(ExprV, int), (PErrV, int)>(
        (add_tree, 5),
    ));
    assert(crate::parser::sp_term(toks, 0) == Ok::<(ExprV, int), (PErrV, int)>((add_tree, 5)));
    assert(crate::parser::sp_comparison_rest(toks, 5, add_tree) == Ok::<
        (ExprV, int),
        (PErrV, int),
    >((add_tree, 5)));
    assert(crate::parser::sp_comparison(toks, 0) == Ok::<(ExprV, int), (PErrV, int)>(
        (add_tree, 5),
    ));
    assert(crate::parser::sp_equality_rest(toks, 5, add_tree) == Ok::<(ExprV, int), (PErrV, int)>(
        (add_tree, 5),
    ));
    assert(crate::parser::sp_equality(toks, 0) == Ok::<(ExprV, int), (PErrV, int)>((add_tree, 5)));
    assert(eval_expr(env, lit_a) == Ok::<ValueV, RtErrV>(ValueV::Number(a)));
    assert(eval_expr(env, lit_b) == Ok::<ValueV, RtErrV>(ValueV::Number(b)));
    assert(eval_expr(env, lit_c) == Ok::<ValueV, RtErrV>(ValueV::Number(c)));
    assert(eval_expr(env, mul_tree) == Ok::<ValueV, RtErrV>(ValueV::Number(num_mul(b, c))));
    assert(eval_expr(env, add_tree) == Ok::<ValueV, RtErrV>(
        ValueV::Number(num_add(a, num_mul(b, c))),
    ));
}

/// Subtraction is left-associative: over any environment, a number,
/// `-`, a number, `-` and a number parse as a left-deep tree and
/// evaluate as the first difference subtracted again.
pub proof fn lemma_left_associativity(
    toks: Seq<TokenV>,
    a: u64,
    b: u64,
    c: u64,
    env: Map<Seq<u8>, ValueV>,
)
    requires
        toks.len() == 6,
        toks[0].kind == KindV::Number(a),
        toks[1].kind is Minus,
        toks[2].kind == KindV::Number(b),
        toks[3].kind is Minus,
        toks[4].kind == KindV::Number(c),
        toks[5].kind is Eof,
    ensures
        ({
            let sub1 = ExprV::Binary {
                left: Box::new(ExprV::Literal { value: ValueV::Number(a) }),
                op: toks[1],
                right: Box::new(ExprV::Literal { value: ValueV::Number(b) }),
            };
            let sub2 = ExprV::Binary {
                left: Box::new(sub1),
                op: toks[3],
                right: Box::new(ExprV::Literal { value: ValueV::Number(c) }),
            };
            &&& sp_expression(toks, 0) == Ok::<(ExprV, int), (PErrV, int)>((sub2, 5))
            &&& eval_expr(env, sub2) == Ok::<ValueV, RtErrV>(
                ValueV::Number(num_sub(num_sub(a, b), c)),
            )
        }),
{
    let lit_a = ExprV::Literal { value: ValueV::Number(a) };
    let lit_b = ExprV::Literal { value: ValueV::Number(b) };
    let lit_c = ExprV::Literal { value: ValueV::Number(c) };
    let sub1 = ExprV::Binary { left: Box::new(lit_a), op: toks[1], right: Box::new(lit_b) };
    let sub2 = ExprV::Binary { left: Box::new(sub1), op: toks[3], right: Box::new(lit_c) };
    assert(crate::parser::sp_primary(toks, 0) == Ok::<(ExprV, int), (PErrV, int)>((lit_a, 1)));
    assert(crate::parser::sp_unary(toks, 0) == Ok::<(ExprV, int), (PErrV, int)>((lit_a, 1)));
    assert(crate::parser::sp_factor_rest(toks, 1, lit_a) == Ok::<(ExprV, int), (PErrV, int)>(
        (lit_a, 1),
    ));
    assert(crate::parser::sp_factor(toks, 0) == Ok::<(ExprV, int), (PErrV, int)>((lit_a, 1)));
    assert(crate::parser::sp_primary(toks, 2) == Ok::<(ExprV, int), (PErrV, int)>((lit_b, 3)));
    assert(crate::parser::sp_unary(toks, 2) == Ok::<(ExprV, int), (PErrV, int)>((lit_b, 3)));
    assert(crate::parser::sp_factor_rest(toks, 3, lit_b) == Ok::<(ExprV, int), (PErrV, int)>(
        (lit_b, 3),
    ));
    assert(crate::parser::sp_factor(toks, 2) == Ok::<(ExprV, int), (PErrV, int)>((lit_b, 3)));
    assert(crate::parser::sp_primary(toks, 4) == Ok::<(ExprV, int), (PErrV, int)>((lit_c, 5)));
    assert(crate::parser::sp_unary(toks, 4) == Ok::<(ExprV, int), (PErrV, int)>((lit_c, 5)));
    assert(crate::parser::sp_factor_rest(toks, 5, lit_c) == Ok::<(ExprV, int), (PErrV, int)>(
        (lit_c, 5),
    ));
    assert(crate::parser::sp_factor(toks, 4) == Ok::<(ExprV, int), (PErrV, int)>((lit_c, 5)));
    assert(crate::parser::sp_term_rest(toks, 5, sub2) == Ok::<(ExprV, int), (PErrV, int)>(
        (sub2, 5),
    ));
    assert(crate::parser::sp_term_rest(toks, 3, sub1) == Ok::<(ExprV, int), (PErrV, int)>(
        (sub2, 5),
    ));
    assert(crate::parser::sp_term_rest(toks, 1, lit_a) == Ok::<(ExprV, int), (PErrV, int)>(
        (sub2, 5),
    ));
    assert(crate::parser::sp_term(toks, 0) == Ok::<(ExprV, int), (PErrV, int)>((sub2, 5)));
    assert(crate::parser::sp_comparison_rest(toks, 5, sub2) == Ok::<(ExprV, int), (PErrV, int)>(
        (sub2, 5),
    ));
    assert(crate::parser::sp_comparison(toks, 0) == Ok::<(ExprV, int), (PErrV, int)>((sub2, 5)));
    assert(crate::parser::sp_equality_rest(toks, 5, sub2) == Ok::<(ExprV, int), (PErrV, int)>(
        (sub2, 5),
    ));
    assert(crate::parser::sp_equality(toks, 0) == Ok::<(ExprV, int), (PErrV, int)>((sub2, 5)));
    assert(eval_expr(env, lit_a) == Ok::<ValueV, RtErrV>(ValueV::Number(a)));
    assert(eval_expr(env, lit_b) == Ok::<ValueV, RtErrV>(ValueV::Number(b)));
    assert(eval_expr(env, lit_c) == Ok::<ValueV, RtErrV>(ValueV::Number(c)));
    assert(eval_expr(env, sub1) == Ok::<ValueV, RtErrV>(ValueV::Number(num_sub(a, b))));
    assert(eval_expr(env, sub2) == Ok::<ValueV, RtErrV>(
        ValueV::Number(num_sub(num_sub(a, b), c)),
    ));
}

/// A literal token followed by a semicolon parses to exactly one bare
/// literal expression statement, with no error, and evaluating that
/// literal gives back the token payload unchanged, over any
/// environment.
pub proof fn lemma_literal_parse_eval(toks: Seq<TokenV>, v: ValueV, env: Map<Seq<u8>, ValueV>)
    requires
        toks.len() == 3,
        toks[0].kind matches KindV::Number(b) ==> v == ValueV::Number(b),
        toks[0].kind matches KindV::Str(s) ==> v == ValueV::Str(s),
        toks[0].kind is Number || toks[0].kind is Str,
        toks[1].kind is Semicolon,
        toks[2].kind is Eof,
    ensures
        crate::parser::sp_program(toks, 0).stmts == seq![
            StmtV::Expr { expr: ExprV::Literal { value: v } },
        ],
        crate::parser::sp_program(toks, 0).errors == Seq::<PErrV>::empty(),
        eval_expr(env, ExprV::Literal { value: v }) == Ok::<ValueV, RtErrV>(v),
{
    let lit = ExprV::Literal { value: v };
    assert(crate::parser::sp_primary(toks, 0) == Ok::<(ExprV, int), (PErrV, int)>((lit, 1)));
    assert(crate::parser::sp_unary(toks, 0) == Ok::<(ExprV, int), (PErrV, int)>((lit, 1)));
    assert(crate::parser::sp_factor_rest(toks, 1, lit) == Ok::<(ExprV, int), (PErrV, int)>(
        (lit, 1),
    ));
    assert(crate::parser::sp_factor(toks, 0) == Ok::<(ExprV, int), (PErrV, int)>((lit, 1)));
    assert(crate::parser::sp_term_rest(toks, 1, lit) == Ok::<(ExprV, int), (PErrV, int)>(
        (lit, 1),
    ));
    assert(crate::parser::sp_term(toks, 0) == Ok::<(ExprV, int), (PErrV, int)>((lit, 1)));
    assert(crate::parser::sp_comparison_rest(toks, 1, lit) == Ok::<(ExprV, int), (PErrV, int)>(
        (lit, 1),
    ));
    assert(crate::parser::sp_comparison(toks, 0) == Ok::<(ExprV, int), (PErrV, int)>((lit, 1)));
    assert(crate::parser::sp_equality_rest(toks, 1, lit) == Ok::<(ExprV, int), (PErrV, int)>(
        (lit, 1),
    ));
    assert(crate::parser::sp_equality(toks, 0) == Ok::<(ExprV, int), (PErrV, int)>((lit, 1)));
    let stmt = StmtV::Expr { expr: lit };
    assert(crate::parser::sp_expression_statement(toks, 0) == Ok::<(StmtV, int), (PErrV, int)>(
        (stmt, 2),
    ));
    assert(crate::parser::sp_statement(toks, 0) == Ok::<(StmtV, int), (PErrV, int)>((stmt, 2)));
    let d = crate::parser::sp_declaration(toks, 0);
    assert(d.stmt == stmt && d.next == 2 && d.error.is_none());
    assert(crate::parser::step_pos(0, 2, 3) == 2);
    assert(crate::parser::sp_program(toks, 2).stmts =~= Seq::<StmtV>::empty());
    assert(crate::parser::sp_program(toks, 0).stmts =~= seq![stmt]);
    assert(crate::parser::sp_program(toks, 0).errors =~= Seq::<PErrV>::empty());
}

/// A run of digits ending at a known non-digit ends exactly there.
proof fn lemma_digits_end_exact(src: Seq<u8>, i: int, j: int)
    requires
        0 <= i <= j < src.len(),
        all_digits(src, i, j),
        !is_digit(src[j]),
    ensures
        digits_end(src, i) == j,
{
    lemma_digits_end(src, i);
    let d = digits_end(src, i);
    if d < j {
        assert(is_digit(src[d]));
    } else if d > j {
        assert(is_digit(src[j]));
    }
}

/// The first quote at or after a position known to be quote-free up to
/// a quote is exactly that quote.
proof fn lemma_string_end_exact(src: Seq<u8>, i: int, j: int)
    requires
        0 <= i <= j < src.len(),
        forall|k: int| i <= k < j ==> src[k] != 34,
        src[j] == 34,
    ensures
        string_end(src, i) == j,
{
    lemma_string_end(src, i);
    let d = string_end(src, i);
    if d < j {
        assert(src[d] == 34);
    } else if d > j {
        assert(src[j] != 34);
    }
}

/// Round trip for a number literal: lexing a syntactically valid
/// number literal followed by a semicolon, then parsing, yields one
/// bare literal expression statement whose evaluation returns the
/// number the literal denotes.
pub proof fn lemma_number_literal_round_trip(src: Seq<u8>, env: Map<Seq<u8>, ValueV>)
    requires
        src.len() >= 2,
        is_number_lexeme(src.subrange(0, src.len() - 1)),
        src[src.len() - 1] == 59,
    ensures
        ({
            let lex = src.subrange(0, src.len() - 1);
            let toks = scan_from(src, 0, 0).tokens;
            let v = ValueV::Number(num_of_decimal(lex));
            &&& scan_from(src, 0, 0).errors == Seq::<crate::reporter::LexErrV>::empty()
            &&& crate::parser::sp_program(toks, 0).stmts == seq![
                StmtV::Expr { expr: ExprV::Literal { value: v } },
            ]
            &&& crate::parser::sp_program(toks, 0).errors == Seq::<PErrV>::empty()
            &&& eval_expr(env, ExprV::Literal { value: v }) == Ok::<ValueV, RtErrV>(v)
        }),
{
    let n = src.len() as int;
    let lex = src.subrange(0, n - 1);
    assert(!is_digit(src[n - 1]));
    if all_digits(lex, 0, lex.len() as int) {
        assert(is_digit(src[0])) by {
            assert(lex[0] == src[0]);
        }
        assert(all_digits(src, 1, n - 1)) by {
            assert(forall|k: int| 1 <= k < n - 1 ==> src[k] == lex[k]);
        }
        lemma_digits_end_exact(src, 1, n - 1);
        assert(src[n - 1] != 46);
    } else {
        let p = choose|p: int|
            1 <= p <= lex.len() - 2 && lex[p] == 46u8 && all_digits(lex, 0, p) && all_digits(
                lex,
                p + 1,
                lex.len() as int,
            );
        assert(is_digit(src[0])) by {
            assert(lex[0] == src[0]);
        }
        assert(all_digits(src, 1, p)) by {
            assert(forall|k: int| 1 <= k < p ==> src[k] == lex[k]);
        }
        assert(src[p] == 46 && !is_digit(src[p])) by {
            assert(lex[p] == src[p]);
        }
        lemma_digits_end_exact(src, 1, p);
        assert(is_digit(src[p + 1])) by {
            assert(lex[p + 1] == src[p + 1]);
        }
        assert(all_digits(src, p + 1, n - 1)) by {
            assert(forall|k: int| p + 1 <= k < n - 1 ==> src[k] == lex[k]);
        }
        lemma_digits_end_exact(src, p + 1, n - 1);
    }
    let st0 = crate::scanner::scan_step(src, 0, 0);
    assert(st0.next_pos == n - 1 && st0.next_line == 0);
    assert(st0.token == Some(
        crate::token::TokenV {
            kind: KindV::Number(num_of_decimal(lex)),
            lexeme: lex,
            line: 0,
        },
    ));
    let st1 = crate::scanner::scan_step(src, n - 1, 0);
    assert(st1.next_pos == n && (st1.token matches Some(t) && t.kind is Semicolon));
    assert(st0.error is None);
    assert(st1.error is None);
    let sc = scan_from(src, 0, 0);
    assert(scan_from(src, n, 0).tokens =~= seq![crate::scanner::eof_token(0)]);
    assert(scan_from(src, n, 0).errors =~= Seq::<crate::reporter::LexErrV>::empty());
    assert(scan_from(src, n - 1, 0).tokens =~= crate::scanner::opt_seq(st1.token) + seq![
        crate::scanner::eof_token(0),
    ]);
    assert(scan_from(src, n - 1, 0).errors =~= Seq::<crate::reporter::LexErrV>::empty());
    assert(sc.tokens =~= crate::scanner::opt_seq(st0.token) + (crate::scanner::opt_seq(st1.token)
        + seq![crate::scanner::eof_token(0)]));
    assert(sc.tokens.len() == 3);
    assert(sc.tokens[0].kind == KindV::Number(num_of_decimal(lex)));
    assert(sc.tokens[1].kind is Semicolon);
    assert(sc.tokens[2].kind is Eof);
    assert(sc.errors =~= Seq::<crate::reporter::LexErrV>::empty());
    lemma_literal_parse_eval(sc.tokens, ValueV::Number(num_of_decimal(lex)), env);
}

/// Round trip for a string literal: lexing a quote-delimited literal
/// followed by a semicolon, then parsing, yields one bare literal
/// expression statement whose evaluation returns the literal's
/// contents unchanged.
pub proof fn lemma_string_literal_round_trip(src: Seq<u8>, env: Map<Seq<u8>, ValueV>)
    requires
        src.len() >= 3,
        src[0] == 34,
        src[src.len() - 2] == 34,
        src[src.len() - 1] == 59,
        forall|k: int| 1 <= k < src.len() - 2 ==> src[k] != 34,
    ensures
        ({
            let content = src.subrange(1, src.len() - 2);
            let toks = scan_from(src, 0, 0).tokens;
            let v = ValueV::Str(content);
            &&& scan_from(src, 0, 0).errors == Seq::<crate::reporter::LexErrV>::empty()
            &&& crate::parser::sp_program(toks, 0).stmts == seq![
                StmtV::Expr { expr: ExprV::Literal { value: v } },
            ]
            &&& crate::parser::sp_program(toks, 0).errors == Seq::<PErrV>::empty()
            &&& eval_expr(env, ExprV::Literal { value: v }) == Ok::<ValueV, RtErrV>(v)
        }),
{
    let n = src.len() as int;
    let content = src.subrange(1, n - 2);
    lemma_string_end_exact(src, 1, n - 2);
    let st0 = crate::scanner::scan_step(src, 0, 0);
    let nl = crate::scanner::count_nl(src, 1, n - 2);
    assert(st0.next_pos == n - 1 && st0.next_line == nl);
    assert(st0.token == Some(
        crate::token::TokenV {
            kind: KindV::Str(content),
            lexeme: src.subrange(0, n - 1),
            line: nl,
        },
    ));
    let st1 = crate::scanner::scan_step(src, n - 1, nl);
    assert(st1.next_pos == n && (st1.token matches Some(t) && t.kind is Semicolon));
    assert(st0.error is None);
    assert(st1.error is None);
    let sc = scan_from(src, 0, 0);
    assert(scan_from(src, n, nl).tokens =~= seq![crate::scanner::eof_token(nl)]);
    assert(scan_from(src, n, nl).errors =~= Seq::<crate::reporter::LexErrV>::empty());
    assert(scan_from(src, n - 1, nl).tokens =~= crate::scanner::opt_seq(st1.token) + seq![
        crate::scanner::eof_token(nl),
    ]);
    assert(scan_from(src, n - 1, nl).errors =~= Seq::<crate::reporter::LexErrV>::empty());
    assert(sc.tokens =~= crate::scanner::opt_seq(st0.token) + (crate::scanner::opt_seq(st1.token)
        + seq![crate::scanner::eof_token(nl)]));
    assert(sc.tokens.len() == 3);
    assert(sc.tokens[0].kind == KindV::Str(content));
    assert(sc.tokens[1].kind is Semicolon);
    assert(sc.tokens[2].kind is Eof);
    assert(sc.errors =~= Seq::<crate::reporter::LexErrV>::empty());
    lemma_literal_parse_eval(sc.tokens, ValueV::Str(content), env);
}

} // verus!
