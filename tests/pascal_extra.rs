use sensorlog::pascal::{execute, Lexer, Token};

#[test]
fn division_truncates_towards_zero() {
    let vars = execute("BEGIN a := -7 / 2; b := 7 / -2; c := -7 / -2 END.").unwrap();
    assert_eq!(vars.get("a"), Some(&-3));
    assert_eq!(vars.get("b"), Some(&-3));
    assert_eq!(vars.get("c"), Some(&3));
}

#[test]
fn overflow_is_an_error() {
    assert!(execute("BEGIN x := 2147483647 + 1 END.").is_err());
    assert!(execute("BEGIN x := 99999999999 END.").is_err());
}

#[test]
fn keywords_ignore_case_and_ids_keep_it() {
    let mut lexer = Lexer::new("bEgIn Foo eNd");
    assert_eq!(lexer.get_next_token().unwrap(), Token::Begin);
    assert_eq!(lexer.get_next_token().unwrap(), Token::Id("Foo".to_string()));
    assert_eq!(lexer.get_next_token().unwrap(), Token::End);
    assert_eq!(lexer.get_next_token().unwrap(), Token::Eof);
}

#[test]
fn invalid_character_message() {
    let mut lexer = Lexer::new("  @");
    assert_eq!(lexer.get_next_token().unwrap_err(), "Invalid character: @");
}

#[test]
fn parse_error_names_tokens() {
    let err = execute("BEGIN x := 5 END").unwrap_err();
    assert_eq!(err, "Expected Dot, got Eof");
}

#[test]
fn reassignment_keeps_one_binding() {
    let vars = execute("BEGIN x := 1; x := x + 1 END.").unwrap();
    assert_eq!(vars.len(), 1);
    assert_eq!(vars.get("x"), Some(&2));
}
