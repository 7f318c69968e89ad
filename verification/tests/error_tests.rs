use veonep::error::{EvaluationErrorType, VeonError};
use veonep::interpreter::Interpreter;
use veonep::parser::Parser;
use veonep::scanner::Scanner;

fn run(source: &str) -> Result<Option<veonep::token::Value>, VeonError> {
    let mut scanner = Scanner::new(source.to_string());
    let tokens = scanner.tokenize()?;
    let mut parser = Parser::new(tokens);
    let statements = parser.parse()?;
    let mut interpreter = Interpreter::new();
    interpreter.interpret(&statements)
}

#[test]
fn divide_by_zero_has_its_own_kind() {
    let err = run("1/0;").expect_err("should error");
    match err {
        VeonError::EvaluationError(e) => {
            assert!(matches!(e.tty, EvaluationErrorType::DivideByZero));
            assert_eq!(e.tty.tag(), "DivideByZero".to_string());
            assert_eq!(e.render(), "[DivideByZero:Divide by zero]".to_string());
        }
        _ => panic!("expected evaluation error"),
    }
}

#[test]
fn undefined_variable_is_invalid_operation() {
    let err = run("missing;").expect_err("should error");
    match err {
        VeonError::EvaluationError(e) => {
            assert!(matches!(e.tty, EvaluationErrorType::InvalidOperation));
            assert_eq!(e.msg, "Undefined variable 'missing'".to_string());
        }
        _ => panic!("expected evaluation error"),
    }
}

#[test]
fn arity_mismatch_message() {
    let err = run("fun f(a){ return a; } f(1, 2);").expect_err("should error");
    match err {
        VeonError::EvaluationError(e) => {
            assert_eq!(e.msg, "Expected 1 arguments but got 2".to_string());
        }
        _ => panic!("expected evaluation error"),
    }
}

#[test]
fn index_out_of_bounds_message() {
    let err = run("[1,2][5];").expect_err("should error");
    match err {
        VeonError::EvaluationError(e) => {
            assert_eq!(e.msg, "Index 5 out of bounds".to_string());
        }
        _ => panic!("expected evaluation error"),
    }
}

#[test]
fn mixed_addition_is_a_type_error() {
    let err = run("1 + \"a\";").expect_err("should error");
    match err {
        VeonError::EvaluationError(e) => {
            assert!(matches!(e.tty, EvaluationErrorType::InvalidTypeOperation));
        }
        _ => panic!("expected evaluation error"),
    }
}

#[test]
fn whole_error_line_renders() {
    let err = run("1/0;").expect_err("should error");
    assert_eq!(
        err.render(),
        "Error while evaluating: [DivideByZero:Divide by zero]".to_string()
    );
}

#[test]
fn decimal_rendering_matches() {
    assert_eq!(veonep::numbers::dec_i64(-42), "-42".to_string());
    assert_eq!(veonep::numbers::dec_i64(0), "0".to_string());
    assert_eq!(veonep::numbers::dec_u64(905), "905".to_string());
}
