use veonep::parser::{Expr, Parser, Stmt};
use veonep::scanner::Scanner;
use veonep::token::TokenType;
use veonep::error::VeonError;

fn parse_source(source: &str) -> Vec<Stmt> {
    let mut scanner = Scanner::new(source.to_string());
    let tokens = scanner.tokenize().expect("tokenize");
    let mut parser = Parser::new(tokens);
    parser.parse().expect("parse")
}

#[test]
fn parse_variable_declaration_and_expression() {
    let statements = parse_source("let x = 10; x + 2;");
    assert_eq!(statements.len(), 2);

    match &statements[0] {
        Stmt::Var { name, initializer } => {
            assert_eq!(name, "x");
            assert!(matches!(initializer, Some(_)));
        }
        _ => panic!("expected var statement"),
    }

    match &statements[1] {
        Stmt::Expression(Expr::Binary { operator, .. }) => {
            assert_eq!(operator, &TokenType::Plus);
        }
        _ => panic!("expected expression statement"),
    }
}

#[test]
fn parse_array_and_index_expression() {
    let statements = parse_source("let items = [1, 2, 3]; items[1];");
    assert_eq!(statements.len(), 2);

    match &statements[0] {
        Stmt::Var { initializer, .. } => {
            if let Some(Expr::Array(elements)) = initializer {
                assert_eq!(elements.len(), 3);
            } else {
                panic!("expected array initializer");
            }
        }
        _ => panic!("expected var statement"),
    }

    match &statements[1] {
        Stmt::Expression(Expr::Index { .. }) => {}
        _ => panic!("expected index expression"),
    }
}

#[test]
fn parse_function_and_class() {
    let statements = parse_source(
        "class Foo { fun greet(name) { return name; } } fun add(a, b) { return a + b; }",
    );
    assert_eq!(statements.len(), 2);
    matches!(statements[0], Stmt::Class { .. });
    matches!(statements[1], Stmt::Function { .. });
}

#[test]
fn invalid_assignment_target_is_rejected() {
    let mut scanner = Scanner::new("1 = 2;".to_string());
    let tokens = scanner.tokenize().expect("tokenize");
    let mut parser = Parser::new(tokens);
    let err = match parser.parse() {
        Err(e) => e,
        Ok(_) => panic!("should error"),
    };
    match err {
        VeonError::ParserError(e) => assert_eq!(e.msg, "Invalid assignment target".to_string()),
        _ => panic!("expected parser error"),
    }
}

#[test]
fn for_loop_desugars_to_while() {
    let statements = parse_source("for (let i = 0; i < 3; i = i + 1) { i; }");
    assert_eq!(statements.len(), 1);
    match &statements[0] {
        Stmt::Block(parts) => {
            assert_eq!(parts.len(), 2);
            assert!(matches!(parts[0], Stmt::Var { .. }));
            assert!(matches!(parts[1], Stmt::While { .. }));
        }
        _ => panic!("expected desugared block"),
    }
}

#[test]
fn missing_semicolon_is_reported() {
    let mut scanner = Scanner::new("let x = 1".to_string());
    let tokens = scanner.tokenize().expect("tokenize");
    let mut parser = Parser::new(tokens);
    let err = match parser.parse() {
        Err(e) => e,
        Ok(_) => panic!("should error"),
    };
    match err {
        VeonError::ParserError(e) => {
            assert_eq!(e.msg, "Expect ';' after variable declaration".to_string());
        }
        _ => panic!("expected parser error"),
    }
}
