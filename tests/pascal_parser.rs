use sensorlog::pascal::{Lexer, Parser};

#[test]
fn test_parse_simple_assignment() {
    let lexer = Lexer::new("BEGIN x := 5 END.");
    let mut parser = Parser::new(lexer).unwrap();
    let ast = parser.program();
    assert!(ast.is_ok());
}

#[test]
fn test_parse_expression() {
    let lexer = Lexer::new("BEGIN x := 2 + 3 * 4 END.");
    let mut parser = Parser::new(lexer).unwrap();
    let ast = parser.program();
    assert!(ast.is_ok());
}

#[test]
fn test_parse_parentheses() {
    let lexer = Lexer::new("BEGIN x := (2 + 3) * 4 END.");
    let mut parser = Parser::new(lexer).unwrap();
    let ast = parser.program();
    assert!(ast.is_ok());
}

#[test]
fn test_parse_multiple_statements() {
    let lexer = Lexer::new("BEGIN x := 5; y := 10 END.");
    let mut parser = Parser::new(lexer).unwrap();
    let ast = parser.program();
    assert!(ast.is_ok());
}

#[test]
fn test_parse_nested_blocks() {
    let lexer = Lexer::new("BEGIN x := 5; BEGIN y := 10 END END.");
    let mut parser = Parser::new(lexer).unwrap();
    let ast = parser.program();
    assert!(ast.is_ok());
}

#[test]
fn test_parse_unary_operators() {
    let lexer = Lexer::new("BEGIN x := -5; y := +10 END.");
    let mut parser = Parser::new(lexer).unwrap();
    let ast = parser.program();
    assert!(ast.is_ok());
}

#[test]
fn test_parse_missing_dot() {
    let lexer = Lexer::new("BEGIN x := 5 END");
    let mut parser = Parser::new(lexer).unwrap();
    let ast = parser.program();
    assert!(ast.is_err());
}

#[test]
fn test_parse_missing_end() {
    let lexer = Lexer::new("BEGIN x := 5.");
    let mut parser = Parser::new(lexer).unwrap();
    let ast = parser.program();
    assert!(ast.is_err());
}
