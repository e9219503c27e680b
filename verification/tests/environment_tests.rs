use lux::environment::Environment;
use lux::expressions::{Expr, LiteralExpr};
use lux::interpreter::Interpreter;
use lux::statements::{Accept, PrintStmt, Stmt};
use lux::expressions::LiteralValue;
use lux::reporter::{Reporter, StdoutReporter};
use lux::token::{Token, TokenType};

fn name_token(name: &str) -> Token {
    Token {
        token_type: TokenType::Identifier,
        lexeme: name.as_bytes().to_vec(),
        line: 4,
    }
}

#[test]
fn environment_define_then_get() {
    let mut env = Environment::default();
    env.define(b"x".to_vec(), LiteralValue::Number(1f64.to_bits()));
    let got = env.get(&name_token("x")).expect("x should be bound");
    assert_eq!(got, LiteralValue::Number(1f64.to_bits()));
}

#[test]
fn environment_get_of_absent_name_fails() {
    let env = Environment::default();
    let error = env.get(&name_token("ghost")).expect_err("ghost is unbound");
    assert_eq!(error.line, 4);
    assert_eq!(error.message, b"undefined variable 'ghost'".to_vec());
}

#[test]
fn environment_redefine_overwrites() {
    let mut env = Environment::default();
    env.define(b"x".to_vec(), LiteralValue::Number(1f64.to_bits()));
    env.define(b"x".to_vec(), LiteralValue::Str(b"two".to_vec()));
    let got = env.get(&name_token("x")).expect("x should be bound");
    assert_eq!(got, LiteralValue::Str(b"two".to_vec()));
}

#[test]
fn literal_value_equality_is_structural() {
    let one = LiteralValue::Number(1f64.to_bits());
    let one_text = LiteralValue::Str(b"1".to_vec());
    assert!(one.equals(&LiteralValue::Number(1f64.to_bits())));
    assert!(!one.equals(&one_text));
    assert!(!LiteralValue::Bool(false).equals(&LiteralValue::Nil));
    assert!(LiteralValue::Nil.equals(&LiteralValue::Nil));
}

#[test]
fn literal_value_text_forms() {
    assert_eq!(
        LiteralValue::Number(7f64.to_bits()).to_text(),
        b"7".to_vec()
    );
    assert_eq!(LiteralValue::Bool(false).to_text(), b"false".to_vec());
    assert_eq!(LiteralValue::Nil.to_text(), b"nil".to_vec());
    assert_eq!(
        LiteralValue::Str(b"abc".to_vec()).to_text(),
        b"abc".to_vec()
    );
}

#[test]
fn stdout_reporter_remembers_errors() {
    let mut reporter = StdoutReporter::default();
    assert!(!reporter.had_error);
    reporter.scanner_error(3, b"string not closed");
    assert!(reporter.had_error);
    let offending = Token {
        token_type: TokenType::Eof,
        lexeme: Vec::new(),
        line: 9,
    };
    reporter.parser_error(&offending, b"Expect expression.");
    assert!(reporter.had_error);
}

#[test]
fn stmt_accept_dispatches_to_the_interpreter() {
    let mut interpreter = Interpreter::new();
    let stmt = Stmt::Print(Box::new(PrintStmt {
        expr: Expr::Literal(Box::new(LiteralExpr {
            value: LiteralValue::Number(4f64.to_bits()),
        })),
    }));
    let result = stmt.accept(&mut interpreter);
    assert!(result.is_ok());
    assert_eq!(interpreter.take_output(), vec![b"4".to_vec()]);
}
