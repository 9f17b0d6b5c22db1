use sensorlog::pascal::{ASTNode, Interpreter, Token};

fn create_num_node(val: i32) -> ASTNode {
    ASTNode::Num(val)
}

#[test]
fn test_interpret_number() {
    let mut interp = Interpreter::new();
    let node = create_num_node(42);
    assert_eq!(interp.interpret(&node).unwrap(), 42);
}

#[test]
fn test_interpret_addition() {
    let mut interp = Interpreter::new();
    let node = ASTNode::BinOp {
        left: Box::new(create_num_node(2)),
        op: Token::Plus,
        right: Box::new(create_num_node(3)),
    };
    assert_eq!(interp.interpret(&node).unwrap(), 5);
}

#[test]
fn test_interpret_subtraction() {
    let mut interp = Interpreter::new();
    let node = ASTNode::BinOp {
        left: Box::new(create_num_node(10)),
        op: Token::Minus,
        right: Box::new(create_num_node(3)),
    };
    assert_eq!(interp.interpret(&node).unwrap(), 7);
}

#[test]
fn test_interpret_multiplication() {
    let mut interp = Interpreter::new();
    let node = ASTNode::BinOp {
        left: Box::new(create_num_node(4)),
        op: Token::Multiply,
        right: Box::new(create_num_node(5)),
    };
    assert_eq!(interp.interpret(&node).unwrap(), 20);
}

#[test]
fn test_interpret_division() {
    let mut interp = Interpreter::new();
    let node = ASTNode::BinOp {
        left: Box::new(create_num_node(20)),
        op: Token::Divide,
        right: Box::new(create_num_node(4)),
    };
    assert_eq!(interp.interpret(&node).unwrap(), 5);
}

#[test]
fn test_interpret_division_by_zero() {
    let mut interp = Interpreter::new();
    let node = ASTNode::BinOp {
        left: Box::new(create_num_node(10)),
        op: Token::Divide,
        right: Box::new(create_num_node(0)),
    };
    assert!(interp.interpret(&node).is_err());
}

#[test]
fn test_interpret_unary_minus() {
    let mut interp = Interpreter::new();
    let node = ASTNode::UnaryOp {
        op: Token::Minus,
        expr: Box::new(create_num_node(5)),
    };
    assert_eq!(interp.interpret(&node).unwrap(), -5);
}

#[test]
fn test_interpret_unary_plus() {
    let mut interp = Interpreter::new();
    let node = ASTNode::UnaryOp {
        op: Token::Plus,
        expr: Box::new(create_num_node(5)),
    };
    assert_eq!(interp.interpret(&node).unwrap(), 5);
}

#[test]
fn test_interpret_assignment() {
    let mut interp = Interpreter::new();
    let node = ASTNode::Assign {
        var: "x".to_string(),
        expr: Box::new(create_num_node(42)),
    };
    interp.interpret(&node).unwrap();
    assert_eq!(interp.get_variables().get("x"), Some(&42));
}

#[test]
fn test_interpret_variable() {
    let mut interp = Interpreter::new();
    interp.variables.insert("x".to_string(), 42);
    let node = ASTNode::Var("x".to_string());
    assert_eq!(interp.interpret(&node).unwrap(), 42);
}

#[test]
fn test_interpret_undefined_variable() {
    let mut interp = Interpreter::new();
    let node = ASTNode::Var("undefined".to_string());
    assert!(interp.interpret(&node).is_err());
}

#[test]
fn test_interpret_compound() {
    let mut interp = Interpreter::new();
    let node = ASTNode::Compound {
        children: vec![
            ASTNode::Assign {
                var: "x".to_string(),
                expr: Box::new(create_num_node(5)),
            },
            ASTNode::Assign {
                var: "y".to_string(),
                expr: Box::new(create_num_node(10)),
            },
        ],
    };
    interp.interpret(&node).unwrap();
    assert_eq!(interp.get_variables().get("x"), Some(&5));
    assert_eq!(interp.get_variables().get("y"), Some(&10));
}

#[test]
fn test_interpret_noop() {
    let mut interp = Interpreter::new();
    let node = ASTNode::NoOp;
    assert_eq!(interp.interpret(&node).unwrap(), 0);
}
