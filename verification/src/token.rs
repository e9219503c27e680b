//! The token model shared by the lexer, the parser and the interpreter.
//!
//! A token records its kind, the source bytes it was matched from (the
//! lexeme) and the line it started on.  Number literals carry their value
//! as the bit pattern of an IEEE-754 double; string literals carry their
//! contents as bytes.
use vstd::prelude::*;

verus! {

/// The closed set of token kinds.
#[derive(Debug, PartialEq)]
pub enum TokenType {
    // Single-character tokens.
    LeftParen,
    RightParen,
    LeftBrace,
    RightBrace,
    Comma,
    Dot,
    Minus,
    Plus,
    Semicolon,
    Slash,
    Star,
    // One- or two-character operators.
    Bang,
    BangEqual,
    Equal,
    EqualEqual,
    Greater,
    GreaterEqual,
    Less,
    LessEqual,
    // Literals.
    Identifier,
    Str(Vec<u8>),
    Number(u64),
    // Keywords.
    And,
    Class,
    Else,
    False,
    Fun,
    For,
    If,
    Nil,
    Or,
    Print,
    Return,
    Super,
    This,
    True,
    Var,
    While,
    Eof,
}

/// Mathematical image of a [`TokenType`]: payloads become sequences.
pub enum KindV {
    LeftParen,
    RightParen,
    LeftBrace,
    RightBrace,
    Comma,
    Dot,
    Minus,
    Plus,
    Semicolon,
    Slash,
    Star,
    Bang,
    BangEqual,
    Equal,
    EqualEqual,
    Greater,
    GreaterEqual,
    Less,
    LessEqual,
    Identifier,
    Str(Seq<u8>),
    Number(u64),
    And,
    Class,
    Else,
    False,
    Fun,
    For,
    If,
    Nil,
    Or,
    Print,
    Return,
    Super,
    This,
    True,
    Var,
    While,
    Eof,
}

impl View for TokenType {
    type V = KindV;

    open spec fn view(&self) -> KindV {
        match self {
            TokenType::LeftParen => KindV::LeftParen,
            TokenType::RightParen => KindV::RightParen,
            TokenType::LeftBrace => KindV::LeftBrace,
            TokenType::RightBrace => KindV::RightBrace,
            TokenType::Comma => KindV::Comma,
            TokenType::Dot => KindV::Dot,
            TokenType::Minus => KindV::Minus,
            TokenType::Plus => KindV::Plus,
            TokenType::Semicolon => KindV::Semicolon,
            TokenType::Slash => KindV::Slash,
            TokenType::Star => KindV::Star,
            TokenType::Bang => KindV::Bang,
            TokenType::BangEqual => KindV::BangEqual,
            TokenType::Equal => KindV::Equal,
            TokenType::EqualEqual => KindV::EqualEqual,
            TokenType::Greater => KindV::Greater,
            TokenType::GreaterEqual => KindV::GreaterEqual,
            TokenType::Less => KindV::Less,
            TokenType::LessEqual => KindV::LessEqual,
            TokenType::Identifier => KindV::Identifier,
            TokenType::Str(s) => KindV::Str(s@),
            TokenType::Number(b) => KindV::Number(*b),
            TokenType::And => KindV::And,
            TokenType::Class => KindV::Class,
            TokenType::Else => KindV::Else,
            TokenType::False => KindV::False,
            TokenType::Fun => KindV::Fun,
            TokenType::If => KindV::If,
            TokenType::For => KindV::For,
            TokenType::Nil => KindV::Nil,
            TokenType::Or => KindV::Or,
            TokenType::Print => KindV::Print,
            TokenType::Return => KindV::Return,
            TokenType::Super => KindV::Super,
            TokenType::This => KindV::This,
            TokenType::True => KindV::True,
            TokenType::Var => KindV::Var,
            TokenType::While => KindV::While,
            TokenType::Eof => KindV::Eof,
        }
    }
}

/// One lexical unit of a source text.
#[derive(Debug, PartialEq)]
pub struct Token {
    pub token_type: TokenType,
    pub lexeme: Vec<u8>,
    pub line: usize,
}

impl Clone for TokenType {
    /// Clones the kind; the image is unchanged.
    fn clone(&self) -> (res: TokenType)
        ensures
            res@ == self@,
    {
        match self {
            TokenType::LeftParen => TokenType::LeftParen,
            TokenType::RightParen => TokenType::RightParen,
            TokenType::LeftBrace => TokenType::LeftBrace,
            TokenType::RightBrace => TokenType::RightBrace,
            TokenType::Comma => TokenType::Comma,
            TokenType::Dot => TokenType::Dot,
            TokenType::Minus => TokenType::Minus,
            TokenType::Plus => TokenType::Plus,
            TokenType::Semicolon => TokenType::Semicolon,
            TokenType::Slash => TokenType::Slash,
            TokenType::Star => TokenType::Star,
            TokenType::Bang => TokenType::Bang,
            TokenType::BangEqual => TokenType::BangEqual,
            TokenType::Equal => TokenType::Equal,
            TokenType::EqualEqual => TokenType::EqualEqual,
            TokenType::Greater => TokenType::Greater,
            TokenType::GreaterEqual => TokenType::GreaterEqual,
            TokenType::Less => TokenType::Less,
            TokenType::LessEqual => TokenType::LessEqual,
            TokenType::Identifier => TokenType::Identifier,
            TokenType::Str(s) => TokenType::Str(crate::bytes::copy_bytes(s.as_slice())),
            TokenType::Number(b) => TokenType::Number(*b),
            TokenType::And => TokenType::And,
            TokenType::Class => TokenType::Class,
            TokenType::Else => TokenType::Else,
            TokenType::False => TokenType::False,
            TokenType::Fun => TokenType::Fun,
            TokenType::If => TokenType::If,
            TokenType::For => TokenType::For,
            TokenType::Nil => TokenType::Nil,
            TokenType::Or => TokenType::Or,
            TokenType::Print => TokenType::Print,
            TokenType::Return => TokenType::Return,
            TokenType::Super => TokenType::Super,
            TokenType::This => TokenType::This,
            TokenType::True => TokenType::True,
            TokenType::Var => TokenType::Var,
            TokenType::While => TokenType::While,
            TokenType::Eof => TokenType::Eof,
        }
    }
}

/// Mathematical image of a [`Token`].
pub struct TokenV {
    pub kind: KindV,
    pub lexeme: Seq<u8>,
    pub line: nat,
}

impl View for Token {
    type V = TokenV;

    open spec fn view(&self) -> TokenV {
        TokenV { kind: self.token_type@, lexeme: self.lexeme@, line: self.line as nat }
    }
}

/// The images of a sequence of tokens.
pub open spec fn token_views(s: Seq<Token>) -> Seq<TokenV> {
    s.map_values(|t: Token| t@)
}

/// A well-formed token stream: nonempty, closed by exactly one
/// end-of-input token.
pub open spec fn wf_token_stream(toks: Seq<TokenV>) -> bool {
    &&& toks.len() >= 1
    &&& toks.last().kind is Eof
    &&& forall|k: int| 0 <= k < toks.len() - 1 ==> !(#[trigger] toks[k].kind is Eof)
}

impl Clone for Token {
    /// Clones the token; the image is unchanged.
    fn clone(&self) -> (res: Token)
        ensures
            res@ == self@,
    {
        Token {
            token_type: self.token_type.clone(),
            lexeme: crate::bytes::copy_bytes(self.lexeme.as_slice()),
            line: self.line,
        }
    }
}

} // verus!
