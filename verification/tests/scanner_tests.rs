use lux::scanner::Scanner;
use lux::token::{Token, TokenType};

fn scan(source: &str) -> Scanner {
    let mut scanner = Scanner::new(source.as_bytes().to_vec());
    scanner.scan_tokens();
    scanner
}

fn tok(token_type: TokenType, lexeme: &str, line: usize) -> Token {
    Token {
        token_type,
        lexeme: lexeme.as_bytes().to_vec(),
        line,
    }
}

#[test]
fn test_scanner() {
    let source = "var a = 3.1;";
    let mut scanner = Scanner::new(source.as_bytes().to_vec());
    scanner.scan_tokens();
    let tokens = scanner.into_tokens();
    assert_eq!(
        tokens,
        [
            tok(TokenType::Var, "var", 0),
            tok(TokenType::Identifier, "a", 0),
            tok(TokenType::Equal, "=", 0),
            tok(TokenType::Number(3.1f64.to_bits()), "3.1", 0),
            tok(TokenType::Semicolon, ";", 0),
            tok(TokenType::Eof, "", 0),
        ]
    );
}

#[test]
fn scanner_maximal_munch_two_character_operators() {
    let scanner = scan("<= < == = != ! >= >");
    let kinds: Vec<TokenType> = scanner
        .into_tokens()
        .into_iter()
        .map(|t| t.token_type)
        .collect();
    assert_eq!(
        kinds,
        vec![
            TokenType::LessEqual,
            TokenType::Less,
            TokenType::EqualEqual,
            TokenType::Equal,
            TokenType::BangEqual,
            TokenType::Bang,
            TokenType::GreaterEqual,
            TokenType::Greater,
            TokenType::Eof,
        ]
    );
}

#[test]
fn scanner_comment_runs_to_end_of_line() {
    let scanner = scan("1 // nothing (to) \"see\" here\n2");
    let tokens = scanner.into_tokens();
    assert_eq!(
        tokens,
        [
            tok(TokenType::Number(1f64.to_bits()), "1", 0),
            tok(TokenType::Number(2f64.to_bits()), "2", 1),
            tok(TokenType::Eof, "", 1),
        ]
    );
}

#[test]
fn scanner_counts_newlines_inside_strings() {
    let scanner = scan("\"a\nb\" x");
    assert!(scanner.errors.is_empty());
    let tokens = scanner.into_tokens();
    assert_eq!(
        tokens,
        [
            tok(TokenType::Str(b"a\nb".to_vec()), "\"a\nb\"", 1),
            tok(TokenType::Identifier, "x", 1),
            tok(TokenType::Eof, "", 1),
        ]
    );
}

#[test]
fn scanner_unterminated_string_reports_and_emits_partial() {
    let scanner = scan("\"abc");
    assert_eq!(scanner.errors.len(), 1);
    assert_eq!(scanner.errors[0].line, 0);
    assert_eq!(scanner.errors[0].message, b"string not closed".to_vec());
    let tokens = scanner.into_tokens();
    assert_eq!(
        tokens,
        [
            tok(TokenType::Str(b"abc".to_vec()), "\"abc", 0),
            tok(TokenType::Eof, "", 0),
        ]
    );
}

#[test]
fn scanner_unexpected_character_is_skipped_with_error() {
    let scanner = scan("1 @ 2");
    assert_eq!(scanner.errors.len(), 1);
    assert_eq!(
        scanner.errors[0].message,
        b"encountered unexpected character: @".to_vec()
    );
    let tokens = scanner.into_tokens();
    assert_eq!(tokens.len(), 3);
    assert_eq!(tokens[0].token_type, TokenType::Number(1f64.to_bits()));
    assert_eq!(tokens[1].token_type, TokenType::Number(2f64.to_bits()));
    assert_eq!(tokens[2].token_type, TokenType::Eof);
}

#[test]
fn scanner_number_without_fraction_stops_at_dot() {
    let scanner = scan("1.x");
    let tokens = scanner.into_tokens();
    assert_eq!(
        tokens,
        [
            tok(TokenType::Number(1f64.to_bits()), "1", 0),
            tok(TokenType::Dot, ".", 0),
            tok(TokenType::Identifier, "x", 0),
            tok(TokenType::Eof, "", 0),
        ]
    );
}

#[test]
fn scanner_keywords_and_identifiers() {
    let scanner = scan("and class else false for fun if nil or print return super this true var while andx _a");
    let kinds: Vec<TokenType> = scanner
        .into_tokens()
        .into_iter()
        .map(|t| t.token_type)
        .collect();
    assert_eq!(
        kinds,
        vec![
            TokenType::And,
            TokenType::Class,
            TokenType::Else,
            TokenType::False,
            TokenType::For,
            TokenType::Fun,
            TokenType::If,
            TokenType::Nil,
            TokenType::Or,
            TokenType::Print,
            TokenType::Return,
            TokenType::Super,
            TokenType::This,
            TokenType::True,
            TokenType::Var,
            TokenType::While,
            TokenType::Identifier,
            TokenType::Identifier,
            TokenType::Eof,
        ]
    );
}

#[test]
fn scanner_parses_number_to_nearest_double() {
    let scanner = scan("0.1 255 1e3");
    let tokens = scanner.into_tokens();
    // No exponent notation: `1e3` is the number 1 and the identifier `e3`.
    assert_eq!(tokens[0].token_type, TokenType::Number(0.1f64.to_bits()));
    assert_eq!(tokens[1].token_type, TokenType::Number(255f64.to_bits()));
    assert_eq!(tokens[2].token_type, TokenType::Number(1f64.to_bits()));
    assert_eq!(tokens[3].token_type, TokenType::Identifier);
    assert_eq!(tokens[3].lexeme, b"e3".to_vec());
}
