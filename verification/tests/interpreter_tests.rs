use veonep::interpreter::Interpreter;
use veonep::parser::Parser;
use veonep::scanner::Scanner;
use veonep::token::Value;

fn interpret_source(source: &str) -> Option<Value> {
    let mut scanner = Scanner::new(source.to_string());
    let tokens = scanner.tokenize().expect("tokenize");
    let mut parser = Parser::new(tokens);
    let statements = parser.parse().expect("parse");
    let mut interpreter = Interpreter::new();
    interpreter.interpret(&statements).expect("interpret")
}

#[test]
fn interpret_arithmetic_and_assignment() {
    let result = interpret_source("let x = 2 + 3 * 4; x = x - 5; x;");
    assert_eq!(result, Some(Value::Number(9)));
}

#[test]
fn interpret_arrays_and_indexing() {
    let result = interpret_source("let items = [1, 2, 3]; items[1];");
    assert_eq!(result, Some(Value::Number(2)));
}

#[test]
fn interpret_string_concatenation() {
    let result = interpret_source("\"hello\" + \" world\";");
    assert_eq!(result, Some(Value::String("hello world".to_string())));
}

#[test]
fn interpret_functions_and_loops() {
    let result = interpret_source(
        "fun add(a, b) { return a + b; } let total = 0; let i = 0; while (i < 3) { total = add(total, i); i = i + 1; } total;",
    );
    assert_eq!(result, Some(Value::Number(3)));
}

#[test]
fn interpret_classes_and_this() {
    let result = interpret_source(
        "class Counter { fun init(start) { this.value = start; } fun inc() { this.value = this.value + 1; return this.value; } } let c = Counter(1); c.inc();",
    );
    assert_eq!(result, Some(Value::Number(2)));
}

#[test]
fn interpret_array_concatenation_and_index() {
    let result = interpret_source("let a=[1,2]; let b=[3]; (a+b)[2];");
    assert_eq!(result, Some(Value::Number(3)));
}

#[test]
fn interpret_closure_counter() {
    let result = interpret_source(
        "fun make(){let n=0; fun tick(){n = n+1; return n;} return tick;} let t = make(); t(); t(); t();",
    );
    assert_eq!(result, Some(Value::Number(3)));
}

#[test]
fn scope_isolation_blocks() {
    let result = interpret_source("let a = 1; { let a = 2; a; } a;");
    assert_eq!(result, Some(Value::Number(1)));
}

#[test]
fn assignment_updates_enclosing_binding() {
    let result = interpret_source("let a = 1; { a = 2; } a;");
    assert_eq!(result, Some(Value::Number(2)));
}

#[test]
fn short_circuit_skips_right_operand() {
    let a = interpret_source("let x = 0; false and (x = 1); x;");
    assert_eq!(a, Some(Value::Number(0)));
    let b = interpret_source("let y = 0; true or (y = 2); y;");
    assert_eq!(b, Some(Value::Number(0)));
    let c = interpret_source("let z = 0; true and (z = 3); z;");
    assert_eq!(c, Some(Value::Number(3)));
}

#[test]
fn truthiness_rules() {
    assert_eq!(interpret_source("if (0) { 1; } else { 2; }"), Some(Value::Number(2)));
    assert_eq!(interpret_source("if (\"\") { 1; } else { 2; }"), Some(Value::Number(2)));
    assert_eq!(interpret_source("if ([]) { 1; } else { 2; }"), Some(Value::Number(2)));
    assert_eq!(interpret_source("if (7) { 1; } else { 2; }"), Some(Value::Number(1)));
}
