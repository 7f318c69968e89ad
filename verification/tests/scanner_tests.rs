use veonep::scanner::Scanner;
use veonep::token::{TokenType, Value};
use veonep::error::VeonError;

#[test]
fn tokenize_literals_and_keywords() {
    let source = "let greeting = \"Hey\" + \"WOW\"\n42";
    let mut scanner = Scanner::new(source.to_string());
    let tokens = scanner.tokenize().expect("scan tokens");

    let types: Vec<TokenType> = tokens.iter().map(|token| token.tty.clone()).collect();
    assert_eq!(
        types,
        vec![
            TokenType::Let,
            TokenType::Identifier,
            TokenType::Equal,
            TokenType::String,
            TokenType::Plus,
            TokenType::String,
            TokenType::Number,
            TokenType::Eof
        ]
    );

    assert_eq!(tokens[0].line, 1);
    assert_eq!(tokens[3].value, Value::String("Hey".to_string()));
    assert_eq!(tokens[5].value, Value::String("WOW".to_string()));
    assert_eq!(tokens[6].value, Value::Number(42));
    assert_eq!(tokens[6].line, 2);
}

#[test]
fn fail_on_unterminated_string() {
    let mut scanner = Scanner::new("\"oops".to_string());
    let err = scanner.tokenize().expect_err("should error");
    assert!(matches!(err, VeonError::ScannerError(_)));
}

#[test]
fn skip_comments_and_handle_modulo() {
    let source = "10 % 3 // comment\n5";
    let mut scanner = Scanner::new(source.to_string());
    let tokens = scanner.tokenize().expect("scan tokens");

    let types: Vec<TokenType> = tokens.iter().map(|token| token.tty.clone()).collect();
    assert_eq!(
        types,
        vec![
            TokenType::Number,
            TokenType::Modulo,
            TokenType::Number,
            TokenType::Number,
            TokenType::Eof
        ]
    );

    assert_eq!(tokens[0].value, Value::Number(10));
    assert_eq!(tokens[1].line, 1);
    assert_eq!(tokens[3].line, 2);
}

#[test]
fn invalid_character_reports_invalid_token() {
    let mut scanner = Scanner::new("let x = @;".to_string());
    let err = scanner.tokenize().expect_err("should error");
    match err {
        VeonError::ScannerError(e) => {
            assert_eq!(e.msg, "Invalid token: @".to_string());
            assert_eq!(e.tty.tag(), "InvalidToken".to_string());
        }
        _ => panic!("expected scanner error"),
    }
}

#[test]
fn number_overflow_is_rejected() {
    let mut scanner = Scanner::new("99999999999999999999".to_string());
    let err = scanner.tokenize().expect_err("should error");
    match err {
        VeonError::ScannerError(e) => {
            assert_eq!(e.msg, "Invalid number literal: 99999999999999999999".to_string());
        }
        _ => panic!("expected scanner error"),
    }
}
