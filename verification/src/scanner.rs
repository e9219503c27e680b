//! The lexer: one left-to-right pass from source bytes to tokens.
//!
//! The scan is specified by [`scan_step`], which says for every position
//! what single token, error and cursor movement the next step produces,
//! and [`scan_from`], which folds steps into the full token and error
//! sequences.  The executable scanner is proved to realize exactly that
//! specification.
//!
//! Maximal munch: each two-character operator is tried before its
//! one-character prefix.  Strings run verbatim to the closing quote;
//! an unterminated string reports an error and still yields the partial
//! contents as a best-effort token.  Numbers are digits, optionally a
//! dot and digits.  Identifiers are looked up in the keyword table.
//! Comments and whitespace yield nothing; newlines advance the line
//! counter, which starts at zero.  An unexpected character reports an
//! error naming it and is skipped.
use vstd::prelude::*;

use crate::numbers::all_digits;
use crate::numbers::is_digit;
use crate::numbers::is_number_lexeme;
use crate::numbers::num_of_decimal;
use crate::numbers::parse_number;
use crate::reporter::LexErrV;
use crate::reporter::LexError;
use crate::reporter::lex_err_views;
use crate::token::KindV;
use crate::token::Token;
use crate::token::TokenType;
use crate::token::TokenV;
use crate::token::token_views;
use crate::token::wf_token_stream;

verus! {

/// True of an ASCII letter.
pub open spec fn is_alpha(b: u8) -> bool {
    (65 <= b <= 90) || (97 <= b <= 122)
}

/// True of a byte that may start an identifier.
pub open spec fn is_ident_start(b: u8) -> bool {
    is_alpha(b) || b == 95
}

/// True of a byte that may continue an identifier.
pub open spec fn is_ident_char(b: u8) -> bool {
    is_ident_start(b) || is_digit(b)
}

/// The end of the run of digits starting at `i`.
pub open spec fn digits_end(s: Seq<u8>, i: int) -> int
    decreases s.len() - i,
{
    if i < s.len() && is_digit(s[i]) {
        digits_end(s, i + 1)
    } else {
        i
    }
}

/// The end of the run of identifier bytes starting at `i`.
pub open spec fn ident_end(s: Seq<u8>, i: int) -> int
    decreases s.len() - i,
{
    if i < s.len() && is_ident_char(s[i]) {
        ident_end(s, i + 1)
    } else {
        i
    }
}

/// The position of the first quote at or after `i`, or the length.
pub open spec fn string_end(s: Seq<u8>, i: int) -> int
    decreases s.len() - i,
{
    if i < s.len() {
        if s[i] == 34 {
            i
        } else {
            string_end(s, i + 1)
        }
    } else {
        s.len() as int
    }
}

/// The position of the first newline at or after `i`, or the length.
pub open spec fn line_comment_end(s: Seq<u8>, i: int) -> int
    decreases s.len() - i,
{
    if i < s.len() {
        if s[i] == 10 {
            i
        } else {
            line_comment_end(s, i + 1)
        }
    } else {
        s.len() as int
    }
}

/// How many newlines `s` holds in `[i, j)`.
pub open spec fn count_nl(s: Seq<u8>, i: int, j: int) -> nat
    decreases j - i,
{
    if j <= i {
        0
    } else {
        count_nl(s, i, j - 1) + if s[j - 1] == 10 {
            1nat
        } else {
            0nat
        }
    }
}

/// The kind an identifier lexeme resolves to: a keyword, or a plain
/// identifier when it matches none.
pub open spec fn keyword_kind(lex: Seq<u8>) -> KindV {
    if lex == crate::text::txt_and() {
        KindV::And
    } else if lex == crate::text::txt_class() {
        KindV::Class
    } else if lex == crate::text::txt_else() {
        KindV::Else
    } else if lex == crate::text::txt_false() {
        KindV::False
    } else if lex == crate::text::txt_for() {
        KindV::For
    } else if lex == crate::text::txt_fun() {
        KindV::Fun
    } else if lex == crate::text::txt_if() {
        KindV::If
    } else if lex == crate::text::txt_nil() {
        KindV::Nil
    } else if lex == crate::text::txt_or() {
        KindV::Or
    } else if lex == crate::text::txt_print() {
        KindV::Print
    } else if lex == crate::text::txt_return() {
        KindV::Return
    } else if lex == crate::text::txt_super() {
        KindV::Super
    } else if lex == crate::text::txt_this() {
        KindV::This
    } else if lex == crate::text::txt_true() {
        KindV::True
    } else if lex == crate::text::txt_var() {
        KindV::Var
    } else if lex == crate::text::txt_while() {
        KindV::While
    } else {
        KindV::Identifier
    }
}

/// What one scanning step produces: the new cursor, the new line
/// counter, and at most one token and one error.
pub struct StepV {
    pub next_pos: int,
    pub next_line: nat,
    pub token: Option<TokenV>,
    pub error: Option<LexErrV>,
}

/// A step that yields the single token `kind` of width one.
pub open spec fn step_tok1(s: Seq<u8>, i: int, line: nat, kind: KindV) -> StepV {
    StepV {
        next_pos: i + 1,
        next_line: line,
        token: Some(TokenV { kind, lexeme: s.subrange(i, i + 1), line }),
        error: None,
    }
}

/// A step for an operator that is two characters when an equals sign
/// follows and one otherwise.
pub open spec fn step_op2(s: Seq<u8>, i: int, line: nat, two: KindV, one: KindV) -> StepV {
    if i + 1 < s.len() && s[i + 1] == 61 {
        StepV {
            next_pos: i + 2,
            next_line: line,
            token: Some(TokenV { kind: two, lexeme: s.subrange(i, i + 2), line }),
            error: None,
        }
    } else {
        step_tok1(s, i, line, one)
    }
}

/// A step that yields nothing and moves to `j`.
pub open spec fn step_skip(j: int, line: nat) -> StepV {
    StepV { next_pos: j, next_line: line, token: None, error: None }
}

/// One step of the scan at position `i`, on line `line`.
pub open spec fn scan_step(s: Seq<u8>, i: int, line: nat) -> StepV
    recommends
        0 <= i < s.len(),
{
    let c = s[i];
    if c == 40 {
        step_tok1(s, i, line, KindV::LeftParen)
    } else if c == 41 {
        step_tok1(s, i, line, KindV::RightParen)
    } else if c == 123 {
        step_tok1(s, i, line, KindV::LeftBrace)
    } else if c == 125 {
        step_tok1(s, i, line, KindV::RightBrace)
    } else if c == 44 {
        step_tok1(s, i, line, KindV::Comma)
    } else if c == 46 {
        step_tok1(s, i, line, KindV::Dot)
    } else if c == 45 {
        step_tok1(s, i, line, KindV::Minus)
    } else if c == 43 {
        step_tok1(s, i, line, KindV::Plus)
    } else if c == 59 {
        step_tok1(s, i, line, KindV::Semicolon)
    } else if c == 42 {
        step_tok1(s, i, line, KindV::Star)
    } else if c == 33 {
        step_op2(s, i, line, KindV::BangEqual, KindV::Bang)
    } else if c == 61 {
        step_op2(s, i, line, KindV::EqualEqual, KindV::Equal)
    } else if c == 60 {
        step_op2(s, i, line, KindV::LessEqual, KindV::Less)
    } else if c == 62 {
        step_op2(s, i, line, KindV::GreaterEqual, KindV::Greater)
    } else if c == 47 {
        if i + 1 < s.len() && s[i + 1] == 47 {
            step_skip(line_comment_end(s, i + 2), line)
        } else {
            step_tok1(s, i, line, KindV::Slash)
        }
    } else if c == 34 {
        let e = string_end(s, i + 1);
        let nl = count_nl(s, i + 1, e);
        if e < s.len() {
            StepV {
                next_pos: e + 1,
                next_line: (line + nl) as nat,
                token: Some(
                    TokenV {
                        kind: KindV::Str(s.subrange(i + 1, e)),
                        lexeme: s.subrange(i, e + 1),
                        line: (line + nl) as nat,
                    },
                ),
                error: None,
            }
        } else {
            StepV {
                next_pos: s.len() as int,
                next_line: (line + nl) as nat,
                token: Some(
                    TokenV {
                        kind: KindV::Str(s.subrange(i + 1, s.len() as int)),
                        lexeme: s.subrange(i, s.len() as int),
                        line: (line + nl) as nat,
                    },
                ),
                error: Some(
                    LexErrV {
                        line: (line + nl) as nat,
                        message: crate::text::msg_string_not_closed(),
                    },
                ),
            }
        }
    } else if c == 32 || c == 9 || c == 13 {
        step_skip(i + 1, line)
    } else if c == 10 {
        step_skip(i + 1, (line + 1) as nat)
    } else if is_digit(c) {
        let e1 = digits_end(s, i + 1);
        let end = if e1 < s.len() && s[e1] == 46 && e1 + 1 < s.len() && is_digit(s[e1 + 1]) {
            digits_end(s, e1 + 1)
        } else {
            e1
        };
        StepV {
            next_pos: end,
            next_line: line,
            token: Some(
                TokenV {
                    kind: KindV::Number(num_of_decimal(s.subrange(i, end))),
                    lexeme: s.subrange(i, end),
                    line,
                },
            ),
            error: None,
        }
    } else if is_ident_start(c) {
        let end = ident_end(s, i + 1);
        StepV {
            next_pos: end,
            next_line: line,
            token: Some(
                TokenV { kind: keyword_kind(s.subrange(i, end)), lexeme: s.subrange(i, end), line },
            ),
            error: None,
        }
    } else {
        StepV {
            next_pos: i + 1,
            next_line: line,
            token: None,
            error: Some(
                LexErrV { line, message: crate::text::msg_unexpected_char().push(c) },
            ),
        }
    }
}

/// The end-of-input token.
pub open spec fn eof_token(line: nat) -> TokenV {
    TokenV { kind: KindV::Eof, lexeme: Seq::empty(), line }
}

/// The outcome of a whole scan: every token, in order, and every
/// error, in order.
pub struct ScanV {
    pub tokens: Seq<TokenV>,
    pub errors: Seq<LexErrV>,
}

/// The sequence an optional item contributes.
pub open spec fn opt_seq<T>(o: Option<T>) -> Seq<T> {
    match o {
        Some(t) => seq![t],
        None => Seq::empty(),
    }
}

/// The full scan from position `i` on line `line`: steps fold left to
/// right, and one end-of-input token closes the sequence.
pub open spec fn scan_from(s: Seq<u8>, i: int, line: nat) -> ScanV
    decreases s.len() - i,
{
    if !(0 <= i < s.len()) {
        ScanV { tokens: seq![eof_token(line)], errors: Seq::empty() }
    } else {
        let st = scan_step(s, i, line);
        let np0 = if st.next_pos > i {
            st.next_pos
        } else {
            i + 1
        };
        let np = if np0 <= s.len() {
            np0
        } else {
            s.len() as int
        };
        let rest = scan_from(s, np, st.next_line);
        ScanV {
            tokens: opt_seq(st.token) + rest.tokens,
            errors: opt_seq(st.error) + rest.errors,
        }
    }
}

/// Every position's run of digits ends within the text, after only
/// digits, at a non-digit.
pub proof fn lemma_digits_end(s: Seq<u8>, i: int)
    requires
        0 <= i <= s.len(),
    ensures
        i <= digits_end(s, i) <= s.len(),
        all_digits(s, i, digits_end(s, i)),
        digits_end(s, i) < s.len() ==> !is_digit(s[digits_end(s, i)]),
    decreases s.len() - i,
{
    if i < s.len() && is_digit(s[i]) {
        lemma_digits_end(s, i + 1);
    }
}

/// Every position's run of identifier bytes ends within the text, after
/// only identifier bytes, at a byte that cannot continue one.
pub proof fn lemma_ident_end(s: Seq<u8>, i: int)
    requires
        0 <= i <= s.len(),
    ensures
        i <= ident_end(s, i) <= s.len(),
        forall|k: int| i <= k < ident_end(s, i) ==> is_ident_char(s[k]),
        ident_end(s, i) < s.len() ==> !is_ident_char(s[ident_end(s, i)]),
    decreases s.len() - i,
{
    if i < s.len() && is_ident_char(s[i]) {
        lemma_ident_end(s, i + 1);
    }
}

/// The first quote at or after `i` lies within the text or is the
/// length; no quote comes before it.
pub proof fn lemma_string_end(s: Seq<u8>, i: int)
    requires
        0 <= i <= s.len(),
    ensures
        i <= string_end(s, i) <= s.len(),
        forall|k: int| i <= k < string_end(s, i) ==> s[k] != 34,
        string_end(s, i) < s.len() ==> s[string_end(s, i)] == 34,
    decreases s.len() - i,
{
    if i < s.len() && s[i] != 34 {
        lemma_string_end(s, i + 1);
    }
}

/// The first newline at or after `i` lies within the text or is the
/// length; no newline comes before it.
pub proof fn lemma_line_comment_end(s: Seq<u8>, i: int)
    requires
        0 <= i <= s.len(),
    ensures
        i <= line_comment_end(s, i) <= s.len(),
        forall|k: int| i <= k < line_comment_end(s, i) ==> s[k] != 10,
        line_comment_end(s, i) < s.len() ==> s[line_comment_end(s, i)] == 10,
    decreases s.len() - i,
{
    if i < s.len() && s[i] != 10 {
        lemma_line_comment_end(s, i + 1);
    }
}

/// A span holds no more newlines than bytes.
pub proof fn lemma_count_nl_bound(s: Seq<u8>, i: int, j: int)
    requires
        i <= j,
    ensures
        count_nl(s, i, j) <= j - i,
    decreases j - i,
{
    if i < j {
        lemma_count_nl_bound(s, i, j - 1);
    }
}

/// Every step moves the cursor forward, keeps it within the text, and
/// advances the line counter by at most the bytes it consumed.
pub proof fn lemma_scan_step_bounds(s: Seq<u8>, i: int, line: nat)
    requires
        0 <= i < s.len(),
    ensures
        i < scan_step(s, i, line).next_pos <= s.len(),
        scan_step(s, i, line).next_line - line <= scan_step(s, i, line).next_pos - i,
{
    let c = s[i];
    if c == 47 && i + 1 < s.len() && s[i + 1] == 47 {
        lemma_line_comment_end(s, i + 2);
    } else if c == 34 {
        lemma_string_end(s, i + 1);
        lemma_count_nl_bound(s, i + 1, string_end(s, i + 1));
    } else if !(c == 40 || c == 41 || c == 123 || c == 125 || c == 44 || c == 46 || c == 45 || c
        == 43 || c == 59 || c == 42 || c == 33 || c == 61 || c == 60 || c == 62 || c == 47 || c
        == 32 || c == 9 || c == 13 || c == 10) {
        if is_digit(c) {
            lemma_digits_end(s, i + 1);
            let e1 = digits_end(s, i + 1);
            if e1 < s.len() && s[e1] == 46 && e1 + 1 < s.len() && is_digit(s[e1 + 1]) {
                lemma_digits_end(s, e1 + 1);
            }
        } else if is_ident_start(c) {
            lemma_ident_end(s, i + 1);
        }
    }
}

/// No step yields an end-of-input token.
pub proof fn lemma_scan_step_no_eof(s: Seq<u8>, i: int, line: nat)
    requires
        0 <= i < s.len(),
    ensures
        match scan_step(s, i, line).token {
            Some(t) => !(t.kind is Eof),
            None => true,
        },
{
}

/// A full scan yields at least the end-of-input token, exactly one,
/// and it comes last.
pub proof fn lemma_scan_from_wf(s: Seq<u8>, i: int, line: nat)
    ensures
        scan_from(s, i, line).tokens.len() >= 1,
        scan_from(s, i, line).tokens.last().kind is Eof,
        forall|k: int|
            0 <= k < scan_from(s, i, line).tokens.len() - 1 ==> !(#[trigger] scan_from(
                s,
                i,
                line,
            ).tokens[k].kind is Eof),
    decreases s.len() - i,
{
    if 0 <= i < s.len() {
        let st = scan_step(s, i, line);
        let np0 = if st.next_pos > i {
            st.next_pos
        } else {
            i + 1
        };
        let np = if np0 <= s.len() {
            np0
        } else {
            s.len() as int
        };
        lemma_scan_from_wf(s, np, st.next_line);
        lemma_scan_step_no_eof(s, i, line);
    }
}

/// The lexer.  One pass; `start` and `current` are the cursor pair and
/// `line` counts newlines seen so far.
pub struct Scanner {
    pub source: Vec<u8>,
    pub tokens: Vec<Token>,
    pub start: usize,
    pub current: usize,
    pub line: usize,
    pub errors: Vec<LexError>,
}

impl Scanner {
    /// A fresh scanner over `source`, at the start, on line zero.
    pub fn new(source: Vec<u8>) -> (r: Scanner)
        ensures
            r.source == source,
            r.tokens@ =~= Seq::<Token>::empty(),
            r.errors@ =~= Seq::<LexError>::empty(),
            r.start == 0,
            r.current == 0,
            r.line == 0,
    {
        Scanner {
            source,
            tokens: Vec::new(),
            start: 0,
            current: 0,
            line: 0,
            errors: Vec::new(),
        }
    }

    /// True when the cursor has passed the last byte.
    fn is_at_end(&self) -> (r: bool)
        ensures
            r == (self.current >= self.source@.len()),
    {
        self.current >= self.source.len()
    }

    /// Consumes and returns the byte at the cursor.
    fn advance(&mut self) -> (c: u8)
        requires
            old(self).current < old(self).source@.len(),
        ensures
            c == old(self).source@[old(self).current as int],
            final(self).current == old(self).current + 1,
            final(self).source == old(self).source,
            final(self).tokens == old(self).tokens,
            final(self).errors == old(self).errors,
            final(self).start == old(self).start,
            final(self).line == old(self).line,
    {
        proof {
            assert(self.source.len() == self.source@.len());
        }
        let c = self.source[self.current];
        self.current = self.current + 1;
        c
    }

    /// Consumes the byte at the cursor when it equals `c`.
    fn match_char(&mut self, c: u8) -> (matched: bool)
        requires
            old(self).current <= old(self).source@.len(),
        ensures
            matched == (old(self).current < old(self).source@.len() && old(self).source@[old(
                self,
            ).current as int] == c),
            final(self).current == if matched {
                old(self).current + 1
            } else {
                old(self).current as int
            },
            final(self).source == old(self).source,
            final(self).tokens == old(self).tokens,
            final(self).errors == old(self).errors,
            final(self).start == old(self).start,
            final(self).line == old(self).line,
    {
        let matched = self.current < self.source.len() && self.source[self.current] == c;
        if matched {
            self.current = self.current + 1;
        }
        matched
    }

    /// The byte at the cursor, when any is left.
    fn peek(&self) -> (r: Option<u8>)
        ensures
            r == if self.current < self.source@.len() {
                Some(self.source@[self.current as int])
            } else {
                None::<u8>
            },
    {
        if self.current < self.source.len() {
            Some(self.source[self.current])
        } else {
            None
        }
    }

    /// The byte after the cursor, when any is left.
    fn peek_next(&self) -> (r: Option<u8>)
        ensures
            r == if self.current + 1 < self.source@.len() {
                Some(self.source@[self.current + 1])
            } else {
                None::<u8>
            },
    {
        let n = self.source.len();
        if self.current < n && self.current + 1 < n {
            Some(self.source[self.current + 1])
        } else {
            None
        }
    }

    /// Pushes a token of kind `token_type` whose lexeme is the span from
    /// `start` to the cursor, on the current line.
    fn add_token(&mut self, token_type: TokenType)
        requires
            old(self).start <= old(self).current <= old(self).source@.len(),
        ensures
            token_views(final(self).tokens@) == token_views(old(self).tokens@).push(
                TokenV {
                    kind: token_type@,
                    lexeme: old(self).source@.subrange(
                        old(self).start as int,
                        old(self).current as int,
                    ),
                    line: old(self).line as nat,
                },
            ),
            final(self).source == old(self).source,
            final(self).errors == old(self).errors,
            final(self).start == old(self).start,
            final(self).current == old(self).current,
            final(self).line == old(self).line,
    {
        let lexeme = crate::bytes::copy_range(&self.source, self.start, self.current);
        let ghost before = self.tokens@;
        let t = Token { token_type, lexeme, line: self.line };
        let ghost tv = t@;
        self.tokens.push(t);
        proof {
            assert(token_views(self.tokens@) =~= token_views(before).push(tv));
        }
    }

    /// Scans the rest of a string literal; the opening quote is behind
    /// the cursor.  Reaching the end of input first reports an error and
    /// still emits the partial contents scanned so far.
    fn string(&mut self)
        requires
            old(self).start + 1 == old(self).current,
            old(self).start < old(self).source@.len(),
            old(self).source@[old(self).start as int] == 34,
            old(self).line <= old(self).start,
        ensures
            final(self).source == old(self).source,
            final(self).start == old(self).start,
            ({
                let s = old(self).source@;
                let i = old(self).start as int;
                let e = string_end(s, i + 1);
                let nl = count_nl(s, i + 1, e);
                let tline = (old(self).line + nl) as nat;
                &&& final(self).line == old(self).line + nl
                &&& final(self).line <= final(self).current
                &&& if e < s.len() {
                    &&& final(self).current == e + 1
                    &&& token_views(final(self).tokens@) == token_views(old(self).tokens@).push(
                        TokenV {
                            kind: KindV::Str(s.subrange(i + 1, e)),
                            lexeme: s.subrange(i, e + 1),
                            line: tline,
                        },
                    )
                    &&& final(self).errors == old(self).errors
                } else {
                    &&& final(self).current == s.len()
                    &&& token_views(final(self).tokens@) == token_views(old(self).tokens@).push(
                        TokenV {
                            kind: KindV::Str(s.subrange(i + 1, s.len() as int)),
                            lexeme: s.subrange(i, s.len() as int),
                            line: tline,
                        },
                    )
                    &&& lex_err_views(final(self).errors@) == lex_err_views(
                        old(self).errors@,
                    ).push(LexErrV { line: tline, message: crate::text::msg_string_not_closed() })
                }
            }),
    {
        let ghost s = self.source@;
        let ghost cur0 = self.current as int;
        let n = self.source.len();
        proof {
            lemma_string_end(s, cur0);
        }
        while self.current < n && self.source[self.current] != 34
            invariant
                self.source == old(self).source,
                self.tokens == old(self).tokens,
                self.errors == old(self).errors,
                self.start == old(self).start,
                s == self.source@,
                n == s.len(),
                cur0 <= self.current <= n,
                string_end(s, cur0) == string_end(s, self.current as int),
                self.line == old(self).line + count_nl(s, cur0, self.current as int),
                self.line <= self.current,
            decreases n - self.current,
        {
            if self.source[self.current] == 10 {
                self.line = self.line + 1;
            }
            let ghost p = self.current as int;
            self.current = self.current + 1;
            proof {
                assert(string_end(s, p) == string_end(s, p + 1));
                assert(count_nl(s, cur0, p + 1) == count_nl(s, cur0, p) + if s[p] == 10 {
                    1nat
                } else {
                    0nat
                });
            }
        }
        proof {
            if self.current < n {
                assert(string_end(s, self.current as int) == self.current);
            } else {
                assert(string_end(s, self.current as int) == n);
            }
            assert(self.current == string_end(s, cur0));
        }
        if self.is_at_end() {
            let message = crate::text::msg_string_not_closed_vec();
            let ghost errs0 = self.errors@;
            let err = LexError { line: self.line, message };
            let ghost ev = err@;
            self.errors.push(err);
            proof {
                assert(lex_err_views(self.errors@) =~= lex_err_views(errs0).push(ev));
            }
            let content = crate::bytes::copy_range(&self.source, self.start + 1, self.current);
            self.add_token(TokenType::Str(content));
        } else {
            self.advance();
            let content = crate::bytes::copy_range(&self.source, self.start + 1, self.current - 1);
            self.add_token(TokenType::Str(content));
        }
    }

    /// Scans the rest of a number literal; its first digit is behind
    /// the cursor.
    fn number(&mut self)
        requires
            old(self).start + 1 == old(self).current,
            old(self).start < old(self).source@.len(),
            is_digit(old(self).source@[old(self).start as int]),
        ensures
            final(self).source == old(self).source,
            final(self).start == old(self).start,
            final(self).line == old(self).line,
            final(self).errors == old(self).errors,
            ({
                let s = old(self).source@;
                let i = old(self).start as int;
                let e1 = digits_end(s, i + 1);
                let end = if e1 < s.len() && s[e1] == 46 && e1 + 1 < s.len() && is_digit(
                    s[e1 + 1],
                ) {
                    digits_end(s, e1 + 1)
                } else {
                    e1
                };
                &&& final(self).current == end
                &&& token_views(final(self).tokens@) == token_views(old(self).tokens@).push(
                    TokenV {
                        kind: KindV::Number(num_of_decimal(s.subrange(i, end))),
                        lexeme: s.subrange(i, end),
                        line: old(self).line as nat,
                    },
                )
            }),
    {
        let ghost s = self.source@;
        let ghost i = self.start as int;
        self.digits_loop();
        proof {
            lemma_digits_end(s, i + 1);
        }
        let ghost e1 = self.current as int;
        let go_fraction = match self.peek() {
            Some(c) => if c == 46 {
                match self.peek_next() {
                    Some(d) => digit_byte(d),
                    None => false,
                }
            } else {
                false
            },
            None => false,
        };
        if go_fraction {
            self.advance();
            self.digits_loop();
            proof {
                lemma_digits_end(s, e1 + 1);
                assert(digits_end(s, e1 + 1) == digits_end(s, e1 + 2));
            }
        }
        let ghost end = self.current as int;
        proof {
            lemma_digits_end(s, i + 1);
            let lex = s.subrange(i, end);
            if go_fraction {
                let p = e1 - i;
                assert(lex[p] == 46);
                assert(all_digits(lex, 0, p)) by {
                    assert(forall|k: int| 0 <= k < p ==> lex[k] == s[i + k]);
                }
                assert(all_digits(lex, p + 1, lex.len() as int)) by {
                    assert(forall|k: int| p + 1 <= k < lex.len() ==> lex[k] == s[i + k]);
                }
                assert(1 <= p <= lex.len() - 2);
                assert(is_number_lexeme(lex));
            } else {
                assert(all_digits(lex, 0, lex.len() as int)) by {
                    assert(forall|k: int| 0 <= k < lex.len() ==> lex[k] == s[i + k]);
                }
                assert(is_number_lexeme(lex));
            }
        }
        let lexeme = crate::bytes::copy_range(&self.source, self.start, self.current);
        let value = parse_number(lexeme.as_slice());
        self.add_token(TokenType::Number(value));
    }

    /// Consumes the run of digits at the cursor.
    fn digits_loop(&mut self)
        requires
            old(self).current <= old(self).source@.len(),
        ensures
            final(self).source == old(self).source,
            final(self).tokens == old(self).tokens,
            final(self).errors == old(self).errors,
            final(self).start == old(self).start,
            final(self).line == old(self).line,
            final(self).current == digits_end(old(self).source@, old(self).current as int),
    {
        let ghost s = self.source@;
        let ghost cur0 = self.current as int;
        let n = self.source.len();
        while self.current < n && digit_byte(self.source[self.current])
            invariant
                self.source == old(self).source,
                self.tokens == old(self).tokens,
                self.errors == old(self).errors,
                self.start == old(self).start,
                self.line == old(self).line,
                s == self.source@,
                n == s.len(),
                cur0 <= self.current <= n,
                digits_end(s, cur0) == digits_end(s, self.current as int),
            decreases n - self.current,
        {
            let ghost p = self.current as int;
            self.current = self.current + 1;
            proof {
                assert(digits_end(s, p) == digits_end(s, p + 1));
            }
        }
        proof {
            if self.current < n {
                assert(digits_end(s, self.current as int) == self.current);
            } else {
                assert(digits_end(s, self.current as int) == self.current);
            }
        }
    }

    /// Scans the rest of an identifier or keyword; its first byte is
    /// behind the cursor.
    fn identifier(&mut self)
        requires
            old(self).start + 1 == old(self).current,
            old(self).start < old(self).source@.len(),
        ensures
            final(self).source == old(self).source,
            final(self).start == old(self).start,
            final(self).line == old(self).line,
            final(self).errors == old(self).errors,
            ({
                let s = old(self).source@;
                let i = old(self).start as int;
                let end = ident_end(s, i + 1);
                &&& final(self).current == end
                &&& token_views(final(self).tokens@) == token_views(old(self).tokens@).push(
                    TokenV {
                        kind: keyword_kind(s.subrange(i, end)),
                        lexeme: s.subrange(i, end),
                        line: old(self).line as nat,
                    },
                )
            }),
    {
        let ghost s = self.source@;
        let ghost cur0 = self.current as int;
        let n = self.source.len();
        while self.current < n && ident_char_byte(self.source[self.current])
            invariant
                self.source == old(self).source,
                self.tokens == old(self).tokens,
                self.errors == old(self).errors,
                self.start == old(self).start,
                self.line == old(self).line,
                s == self.source@,
                n == s.len(),
                cur0 <= self.current <= n,
                ident_end(s, cur0) == ident_end(s, self.current as int),
            decreases n - self.current,
        {
            let ghost p = self.current as int;
            self.current = self.current + 1;
            proof {
                assert(ident_end(s, p) == ident_end(s, p + 1));
            }
        }
        let lexeme = crate::bytes::copy_range(&self.source, self.start, self.current);
        let token_type = lookup_keyword(lexeme.as_slice());
        self.add_token(token_type);
    }

    /// Scans one token, comment, whitespace run or bad character at the
    /// cursor: realizes exactly one [`scan_step`].
    fn scan_token(&mut self)
        requires
            old(self).start == old(self).current,
            old(self).current < old(self).source@.len(),
            old(self).line <= old(self).current,
        ensures
            final(self).source == old(self).source,
            final(self).start == old(self).start,
            ({
                let st = scan_step(old(self).source@, old(self).current as int, old(self).line as nat);
                &&& final(self).current == st.next_pos
                &&& final(self).line as nat == st.next_line
                &&& token_views(final(self).tokens@) == token_views(old(self).tokens@) + opt_seq(
                    st.token,
                )
                &&& lex_err_views(final(self).errors@) == lex_err_views(old(self).errors@)
                    + opt_seq(st.error)
            }),
    {
        let ghost s = self.source@;
        let ghost i = self.current as int;
        let ghost line0 = self.line as nat;
        let ghost toks0 = self.tokens@;
        let ghost errs0 = self.errors@;
        let c = self.advance();
        if c == 40 {
            self.add_token(TokenType::LeftParen);
        } else if c == 41 {
            self.add_token(TokenType::RightParen);
        } else if c == 123 {
            self.add_token(TokenType::LeftBrace);
        } else if c == 125 {
            self.add_token(TokenType::RightBrace);
        } else if c == 44 {
            self.add_token(TokenType::Comma);
        } else if c == 46 {
            self.add_token(TokenType::Dot);
        } else if c == 45 {
            self.add_token(TokenType::Minus);
        } else if c == 43 {
            self.add_token(TokenType::Plus);
        } else if c == 59 {
            self.add_token(TokenType::Semicolon);
        } else if c == 42 {
            self.add_token(TokenType::Star);
        } else if c == 33 {
            if self.match_char(61) {
                self.add_token(TokenType::BangEqual);
            } else {
                self.add_token(TokenType::Bang);
            }
        } else if c == 61 {
            if self.match_char(61) {
                self.add_token(TokenType::EqualEqual);
            } else {
                self.add_token(TokenType::Equal);
            }
        } else if c == 60 {
            if self.match_char(61) {
                self.add_token(TokenType::LessEqual);
            } else {
                self.add_token(TokenType::Less);
            }
        } else if c == 62 {
            if self.match_char(61) {
                self.add_token(TokenType::GreaterEqual);
            } else {
                self.add_token(TokenType::Greater);
            }
        } else if c == 47 {
            if self.match_char(47) {
                let ghost c0 = self.current as int;
                let n = self.source.len();
                proof {
                    lemma_line_comment_end(s, c0);
                }
                while self.current < n && self.source[self.current] != 10
                    invariant
                        self.source == old(self).source,
                        self.tokens == old(self).tokens,
                        self.errors == old(self).errors,
                        self.start == old(self).start,
                        self.line == old(self).line,
                        s == self.source@,
                        n == s.len(),
                        c0 <= self.current <= n,
                        line_comment_end(s, c0) == line_comment_end(s, self.current as int),
                    decreases n - self.current,
                {
                    let ghost p = self.current as int;
                    self.current = self.current + 1;
                    proof {
                        assert(line_comment_end(s, p) == line_comment_end(s, p + 1));
                    }
                }
                proof {
                    assert(self.current == line_comment_end(s, c0));
                }
            } else {
                self.add_token(TokenType::Slash);
            }
        } else if c == 34 {
            self.string();
        } else if c == 32 || c == 9 || c == 13 {
            // whitespace: nothing to emit
        } else if c == 10 {
            self.line = self.line + 1;
        } else if digit_byte(c) {
            self.number();
        } else if ident_start_byte(c) {
            self.identifier();
        } else {
            let mut message = crate::text::msg_unexpected_char_vec();
            message.push(c);
            let err = LexError { line: self.line, message };
            let ghost ev = err@;
            self.errors.push(err);
            proof {
                assert(lex_err_views(self.errors@) =~= lex_err_views(errs0).push(ev));
            }
        }
        proof {
            let st = scan_step(s, i, line0);
            match st.token {
                Some(t) => {
                    assert(token_views(toks0) + opt_seq(st.token) =~= token_views(toks0).push(t));
                },
                None => {
                    assert(token_views(toks0) + opt_seq(st.token) =~= token_views(toks0));
                },
            }
            match st.error {
                Some(e) => {
                    assert(lex_err_views(errs0) + opt_seq(st.error) =~= lex_err_views(errs0).push(
                        e,
                    ));
                },
                None => {
                    assert(lex_err_views(errs0) + opt_seq(st.error) =~= lex_err_views(errs0));
                },
            }
        }
    }

    /// Scans the whole source: afterwards the tokens and errors are
    /// exactly what [`scan_from`] says of the text, and the token
    /// sequence is a well-formed stream.
    pub fn scan_tokens(&mut self)
        requires
            old(self).current == 0,
            old(self).start == 0,
            old(self).line == 0,
            old(self).tokens@.len() == 0,
            old(self).errors@.len() == 0,
        ensures
            final(self).source == old(self).source,
            token_views(final(self).tokens@) == scan_from(old(self).source@, 0, 0).tokens,
            lex_err_views(final(self).errors@) == scan_from(old(self).source@, 0, 0).errors,
            wf_token_stream(token_views(final(self).tokens@)),
    {
        let ghost s = self.source@;
        let ghost full = scan_from(s, 0, 0);
        proof {
            assert(token_views(self.tokens@) =~= Seq::<TokenV>::empty());
            assert(lex_err_views(self.errors@) =~= Seq::<LexErrV>::empty());
            assert(Seq::<TokenV>::empty() + full.tokens =~= full.tokens);
            assert(Seq::<LexErrV>::empty() + full.errors =~= full.errors);
        }
        while !self.is_at_end()
            invariant
                self.source == old(self).source,
                s == self.source@,
                self.current <= s.len(),
                self.line <= self.current,
                token_views(self.tokens@) + scan_from(s, self.current as int, self.line as nat).tokens
                    == full.tokens,
                lex_err_views(self.errors@) + scan_from(s, self.current as int, self.line as nat).errors
                    == full.errors,
            decreases s.len() - self.current,
        {
            self.start = self.current;
            let ghost pre_cur = self.current as int;
            let ghost pre_line = self.line as nat;
            let ghost pre_toks = token_views(self.tokens@);
            let ghost pre_errs = lex_err_views(self.errors@);
            self.scan_token();
            proof {
                lemma_scan_step_bounds(s, pre_cur, pre_line);
                let st = scan_step(s, pre_cur, pre_line);
                let rest = scan_from(s, st.next_pos, st.next_line);
                assert(scan_from(s, pre_cur, pre_line).tokens =~= opt_seq(st.token) + rest.tokens);
                assert(scan_from(s, pre_cur, pre_line).errors =~= opt_seq(st.error) + rest.errors);
                assert((pre_toks + opt_seq(st.token)) + rest.tokens =~= pre_toks + (opt_seq(
                    st.token,
                ) + rest.tokens));
                assert((pre_errs + opt_seq(st.error)) + rest.errors =~= pre_errs + (opt_seq(
                    st.error,
                ) + rest.errors));
            }
        }
        let ghost toks_before = token_views(self.tokens@);
        let eof = Token { token_type: TokenType::Eof, lexeme: Vec::new(), line: self.line };
        let ghost ev = eof@;
        self.tokens.push(eof);
        proof {
            assert(self.current == s.len());
            let tail = scan_from(s, self.current as int, self.line as nat);
            assert(tail.tokens =~= seq![eof_token(self.line as nat)]);
            assert(tail.errors =~= Seq::<LexErrV>::empty());
            assert(ev =~= eof_token(self.line as nat));
            assert(token_views(self.tokens@) =~= toks_before.push(ev));
            assert(token_views(self.tokens@) =~= toks_before + seq![eof_token(self.line as nat)]);
            assert(lex_err_views(self.errors@) + Seq::<LexErrV>::empty() =~= lex_err_views(
                self.errors@,
            ));
            lemma_scan_from_wf(s, 0, 0);
        }
    }

    /// Hands the scanned tokens out, consuming the scanner.
    pub fn into_tokens(self) -> (r: Vec<Token>)
        ensures
            r == self.tokens,
    {
        self.tokens
    }
}

/// Decides [`is_digit`].
pub fn digit_byte(b: u8) -> (r: bool)
    ensures
        r == is_digit(b),
{
    48 <= b && b <= 57
}

/// Decides [`is_ident_start`].
pub fn ident_start_byte(b: u8) -> (r: bool)
    ensures
        r == is_ident_start(b),
{
    (65 <= b && b <= 90) || (97 <= b && b <= 122) || b == 95
}

/// Decides [`is_ident_char`].
pub fn ident_char_byte(b: u8) -> (r: bool)
    ensures
        r == is_ident_char(b),
{
    ident_start_byte(b) || digit_byte(b)
}

/// Resolves an identifier lexeme against the keyword table: decides
/// [`keyword_kind`].
pub fn lookup_keyword(lex: &[u8]) -> (t: TokenType)
    ensures
        t@ == keyword_kind(lex@),
{
    let k = crate::text::txt_and_vec();
    if crate::bytes::bytes_eq(lex, k.as_slice()) {
        return TokenType::And;
    }
    let k = crate::text::txt_class_vec();
    if crate::bytes::bytes_eq(lex, k.as_slice()) {
        return TokenType::Class;
    }
    let k = crate::text::txt_else_vec();
    if crate::bytes::bytes_eq(lex, k.as_slice()) {
        return TokenType::Else;
    }
    let k = crate::text::txt_false_vec();
    if crate::bytes::bytes_eq(lex, k.as_slice()) {
        return TokenType::False;
    }
    let k = crate::text::txt_for_vec();
    if crate::bytes::bytes_eq(lex, k.as_slice()) {
        return TokenType::For;
    }
    let k = crate::text::txt_fun_vec();
    if crate::bytes::bytes_eq(lex, k.as_slice()) {
        return TokenType::Fun;
    }
    let k = crate::text::txt_if_vec();
    if crate::bytes::bytes_eq(lex, k.as_slice()) {
        return TokenType::If;
    }
    let k = crate::text::txt_nil_vec();
    if crate::bytes::bytes_eq(lex, k.as_slice()) {
        return TokenType::Nil;
    }
    let k = crate::text::txt_or_vec();
    if crate::bytes::bytes_eq(lex, k.as_slice()) {
        return TokenType::Or;
    }
    let k = crate::text::txt_print_vec();
    if crate::bytes::bytes_eq(lex, k.as_slice()) {
        return TokenType::Print;
    }
    let k = crate::text::txt_return_vec();
    if crate::bytes::bytes_eq(lex, k.as_slice()) {
        return TokenType::Return;
    }
    let k = crate::text::txt_super_vec();
    if crate::bytes::bytes_eq(lex, k.as_slice()) {
        return TokenType::Super;
    }
    let k = crate::text::txt_this_vec();
    if crate::bytes::bytes_eq(lex, k.as_slice()) {
        return TokenType::This;
    }
    let k = crate::text::txt_true_vec();
    if crate::bytes::bytes_eq(lex, k.as_slice()) {
        return TokenType::True;
    }
    let k = crate::text::txt_var_vec();
    if crate::bytes::bytes_eq(lex, k.as_slice()) {
        return TokenType::Var;
    }
    let k = crate::text::txt_while_vec();
    if crate::bytes::bytes_eq(lex, k.as_slice()) {
        return TokenType::While;
    }
    TokenType::Identifier
}

} // verus!
