use sensorlog::pascal::{Lexer, Token};

#[test]
fn test_integer_token() {
    let mut lexer = Lexer::new("123");
    assert_eq!(lexer.get_next_token().unwrap(), Token::Integer(123));
}

#[test]
fn test_operators() {
    let mut lexer = Lexer::new("+ - * /");
    assert_eq!(lexer.get_next_token().unwrap(), Token::Plus);
    assert_eq!(lexer.get_next_token().unwrap(), Token::Minus);
    assert_eq!(lexer.get_next_token().unwrap(), Token::Multiply);
    assert_eq!(lexer.get_next_token().unwrap(), Token::Divide);
}

#[test]
fn test_keywords() {
    let mut lexer = Lexer::new("BEGIN END begin end");
    assert_eq!(lexer.get_next_token().unwrap(), Token::Begin);
    assert_eq!(lexer.get_next_token().unwrap(), Token::End);
    assert_eq!(lexer.get_next_token().unwrap(), Token::Begin);
    assert_eq!(lexer.get_next_token().unwrap(), Token::End);
}

#[test]
fn test_assignment() {
    let mut lexer = Lexer::new("x := 5");
    assert_eq!(lexer.get_next_token().unwrap(), Token::Id("x".to_string()));
    assert_eq!(lexer.get_next_token().unwrap(), Token::Assign);
    assert_eq!(lexer.get_next_token().unwrap(), Token::Integer(5));
}

#[test]
fn lexer_test_parentheses() {
    let mut lexer = Lexer::new("( )");
    assert_eq!(lexer.get_next_token().unwrap(), Token::LParen);
    assert_eq!(lexer.get_next_token().unwrap(), Token::RParen);
}

#[test]
fn test_semicolon_and_dot() {
    let mut lexer = Lexer::new("; .");
    assert_eq!(lexer.get_next_token().unwrap(), Token::Semi);
    assert_eq!(lexer.get_next_token().unwrap(), Token::Dot);
}

#[test]
fn test_identifier() {
    let mut lexer = Lexer::new("variable_name x123");
    assert_eq!(lexer.get_next_token().unwrap(), Token::Id("variable_name".to_string()));
    assert_eq!(lexer.get_next_token().unwrap(), Token::Id("x123".to_string()));
}

#[test]
fn test_invalid_character() {
    let mut lexer = Lexer::new("@");
    assert!(lexer.get_next_token().is_err());
}

#[test]
fn lexer_test_whitespace_handling() {
    let mut lexer = Lexer::new("  \t\n  123  \n ");
    assert_eq!(lexer.get_next_token().unwrap(), Token::Integer(123));
}
