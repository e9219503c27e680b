use lux::ast_printer::AstPrinter;
use lux::expressions::{Accept, BinaryExpr, Expr, GroupingExpr, LiteralExpr, LiteralValue, UnaryExpr};
use lux::token::{Token, TokenType};

#[test]
fn test_ast_printer() {
    let expression = Expr::Binary(Box::new(BinaryExpr {
        left: Expr::Unary(Box::new(UnaryExpr {
            operator: Token {
                token_type: TokenType::Minus,
                lexeme: b"-".to_vec(),
                line: 1,
            },
            right: Expr::Literal(Box::new(LiteralExpr {
                value: LiteralValue::Number(123f64.to_bits()),
            })),
        })),
        operator: Token {
            token_type: TokenType::Star,
            lexeme: b"*".to_vec(),
            line: 1,
        },
        right: Expr::Grouping(Box::new(GroupingExpr {
            expr: Expr::Literal(Box::new(LiteralExpr {
                value: LiteralValue::Str(b"abc".to_vec()),
            })),
        })),
    }));
    let visitor = AstPrinter {};
    let printed = expression.accept(&visitor);
    assert_eq!(printed, b"(* (- 123) (group abc))".to_vec());
}

#[test]
fn ast_printer_renders_literals() {
    let printer = AstPrinter {};
    let number = Expr::Literal(Box::new(LiteralExpr {
        value: LiteralValue::Number(2.5f64.to_bits()),
    }));
    assert_eq!(printer.print(&number), b"2.5".to_vec());
    let truth = Expr::Literal(Box::new(LiteralExpr {
        value: LiteralValue::Bool(true),
    }));
    assert_eq!(printer.print(&truth), b"true".to_vec());
    let nothing = Expr::Literal(Box::new(LiteralExpr {
        value: LiteralValue::Nil,
    }));
    assert_eq!(printer.print(&nothing), b"nil".to_vec());
}
