//! Structured diagnostics and the reporting capability.
//!
//! The lexer, the parser and the interpreter produce structured error
//! values; a [`Reporter`] consumes them.  The core depends only on this
//! capability surface; [`StdoutReporter`] is the concrete sink that
//! writes to standard output.
use vstd::prelude::*;

use std::io::Write;

use crate::bytes::push_bytes;
use crate::token::Token;
use crate::token::TokenType;

verus! {

/// A lexical error: an invalid character or an unterminated string.
#[derive(Debug)]
pub struct LexError {
    pub line: usize,
    pub message: Vec<u8>,
}

/// Mathematical image of a [`LexError`].
pub struct LexErrV {
    pub line: nat,
    pub message: Seq<u8>,
}

impl View for LexError {
    type V = LexErrV;

    open spec fn view(&self) -> LexErrV {
        LexErrV { line: self.line as nat, message: self.message@ }
    }
}

/// The images of a sequence of lexical errors.
pub open spec fn lex_err_views(s: Seq<LexError>) -> Seq<LexErrV> {
    s.map_values(|e: LexError| e@)
}

/// A runtime error: an operator type mismatch or an undefined-variable
/// lookup.  The first one aborts the remainder of a run.
#[derive(Debug)]
pub struct RuntimeError {
    pub line: usize,
    pub message: Vec<u8>,
}

/// Mathematical image of a [`RuntimeError`].
pub struct RtErrV {
    pub line: nat,
    pub message: Seq<u8>,
}

impl View for RuntimeError {
    type V = RtErrV;

    open spec fn view(&self) -> RtErrV {
        RtErrV { line: self.line as nat, message: self.message@ }
    }
}

/// The decimal spelling of a natural number.
pub open spec fn dec_text(n: nat) -> Seq<u8>
    decreases n,
{
    if n < 10 {
        seq![(48 + n) as u8]
    } else {
        dec_text(n / 10).push((48 + n % 10) as u8)
    }
}

/// Renders [`dec_text`] for a line number.
pub fn dec_vec(n: usize) -> (r: Vec<u8>)
    ensures
        r@ == dec_text(n as nat),
    decreases n,
{
    if n < 10 {
        let r: Vec<u8> = vec![48 + n as u8];
        proof {
            assert(r@ =~= dec_text(n as nat));
        }
        r
    } else {
        let mut r = dec_vec(n / 10);
        r.push(48 + (n % 10) as u8);
        r
    }
}

/// The capability through which the pipeline's errors reach their sink.
pub trait Reporter {
    /// Receives a lexical error.
    fn scanner_error(&mut self, line: usize, message: &[u8]);

    /// Receives a syntax error, with the offending token.
    fn parser_error(&mut self, token: &Token, message: &[u8]);

    /// Receives a located report.
    fn report(&mut self, line: usize, error_where: &[u8], message: &[u8]);
}

/// The diagnostic line printed for a report.
pub open spec fn report_text(line: nat, error_where: Seq<u8>, message: Seq<u8>) -> Seq<u8> {
    crate::text::txt_line_open() + dec_text(line) + crate::text::txt_error_mid() + error_where
        + crate::text::txt_colon() + message
}

/// Relies on `std::io::stdout`: writes the bytes and a newline to
/// standard output.
#[verifier::external_body]
fn print_line(s: &[u8]) {
    let _ = writeln!(std::io::stdout(), "{}", String::from_utf8_lossy(s));
}

/// The concrete sink: formats each report as one line on standard
/// output and remembers that an error happened.
pub struct StdoutReporter {
    pub had_error: bool,
}

impl Default for StdoutReporter {
    /// A fresh sink that has seen no error.
    fn default() -> (r: StdoutReporter)
        ensures
            !r.had_error,
    {
        StdoutReporter { had_error: false }
    }
}

impl Reporter for StdoutReporter {
    /// Reports with no location detail; the sink remembers the error.
    fn scanner_error(&mut self, line: usize, message: &[u8])
        ensures
            final(self).had_error,
    {
        let empty: Vec<u8> = Vec::new();
        self.report(line, empty.as_slice(), message);
    }

    /// Reports at the offending token; the sink remembers the error.
    fn parser_error(&mut self, token: &Token, message: &[u8])
        ensures
            final(self).had_error,
    {
        match token.token_type {
            TokenType::Eof => {
                let at_end = crate::text::txt_at_end_vec();
                self.report(token.line, at_end.as_slice(), message);
            },
            _ => {
                let mut place = crate::text::txt_at_open_vec();
                push_bytes(&mut place, token.lexeme.as_slice());
                let quote = crate::text::txt_quote_vec();
                push_bytes(&mut place, quote.as_slice());
                self.report(token.line, place.as_slice(), message);
            },
        }
    }

    /// Prints one formatted line and remembers that an error happened.
    fn report(&mut self, line: usize, error_where: &[u8], message: &[u8])
        ensures
            final(self).had_error,
    {
        let mut text = crate::text::txt_line_open_vec();
        let digits = dec_vec(line);
        push_bytes(&mut text, digits.as_slice());
        let mid = crate::text::txt_error_mid_vec();
        push_bytes(&mut text, mid.as_slice());
        push_bytes(&mut text, error_where);
        let colon = crate::text::txt_colon_vec();
        push_bytes(&mut text, colon.as_slice());
        push_bytes(&mut text, message);
        proof {
            assert(text@ == report_text(line as nat, error_where@, message@));
        }
        print_line(text.as_slice());
        self.had_error = true;
    }
}

} // verus!
