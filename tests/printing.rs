use rlox::expr::{unwrap_as_string, Expr, LiteralValue};
use rlox::number::Decimal;
use rlox::scanner::Scanner;
use rlox::token::{LiteralValue as TokenLiteral, Token, TokenType};

fn number(whole: &str, fraction: &str) -> Decimal {
    Decimal { negative: false, whole: whole.to_string(), fraction: fraction.to_string() }
}

fn op(kind: TokenType, lexeme: &str) -> Token {
    Token { token_type: kind, lexeme: lexeme.to_string(), literal: None, line_number: 0 }
}

#[test]
fn pretty_print_ast() {
    let minus_token = Token {
        token_type: TokenType::Minus,
        lexeme: "-".to_string(),
        literal: None,
        line_number: 0,
    };
    let onetwothree = Expr::Literal { value: LiteralValue::Number(number("123", "0")) };
    let group = Expr::Grouping {
        expression: Box::from(Expr::Literal { value: LiteralValue::Number(number("45", "67")) }),
    };
    let multi = Token {
        token_type: TokenType::Star,
        lexeme: "*".to_string(),
        literal: None,
        line_number: 0,
    };
    let ast = Expr::Binary {
        left: Box::from(Expr::Unary { operator: minus_token, right: Box::from(onetwothree) }),
        operator: multi,
        right: Box::from(group),
    };

    let result = ast.to_string();
    assert_eq!(result, "(* (- 123) (group 45.67))");
}

#[test]
fn literal_texts() {
    assert_eq!(LiteralValue::True.to_string(), "true");
    assert_eq!(LiteralValue::False.to_string(), "false");
    assert_eq!(LiteralValue::Nil.to_string(), "nil");
    assert_eq!(LiteralValue::StringValue("a b".to_string()).to_string(), "a b");
    assert_eq!(LiteralValue::Number(number("3", "140")).to_string(), "3.14");
}

#[test]
fn nested_tree() {
    let ast = Expr::Binary {
        left: Box::from(Expr::Grouping {
            expression: Box::from(Expr::Literal { value: LiteralValue::Nil }),
        }),
        operator: op(TokenType::EqualEqual, "=="),
        right: Box::from(Expr::Unary {
            operator: op(TokenType::Bang, "!"),
            right: Box::from(Expr::Literal { value: LiteralValue::StringValue("s".to_string()) }),
        }),
    };
    assert_eq!(ast.to_string(), "(== (group nil) (! s))");
}

#[test]
fn literal_from_scanned_tokens() {
    let tokens = Scanner::new("12.50 \"hi\" true false nil").scan_tokens().unwrap();
    let values: Vec<String> = tokens[..5]
        .iter()
        .map(|t| LiteralValue::from_token(t.clone()).to_string())
        .collect();
    assert_eq!(values, vec!["12.5", "hi", "true", "false", "nil"]);
    let int = Token {
        token_type: TokenType::Number,
        lexeme: "-8".to_string(),
        literal: Some(TokenLiteral::IntValue(-8)),
        line_number: 1,
    };
    assert_eq!(LiteralValue::from_token(int).to_string(), "-8");
}

#[test]
fn unwrap_text_literals() {
    assert_eq!(unwrap_as_string(Some(TokenLiteral::StringValue("abc".to_string()))), "abc");
    assert_eq!(unwrap_as_string(Some(TokenLiteral::IdentifierValue("x1".to_string()))), "x1");
}

#[test]
fn well_formed_numbers() {
    assert!(number("0", "").is_valid());
    assert!(number("12", "05").is_valid());
    assert!(!number("", "5").is_valid());
    assert!(!number("(", "").is_valid());
    assert!(!number("1", "x").is_valid());
    let bad = Expr::Grouping {
        expression: Box::from(Expr::Literal { value: LiteralValue::Number(number("1a", "")) }),
    };
    assert!(!bad.is_well_formed());
    let good = Expr::Unary {
        operator: op(TokenType::Minus, "-"),
        right: Box::from(Expr::Literal { value: LiteralValue::Number(number("4", "2")) }),
    };
    assert!(good.is_well_formed());
    assert_eq!(good.to_string(), "(- 4.2)");
}
