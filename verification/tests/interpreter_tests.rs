use lux::ast::{BinaryExpr, Expr, GroupingExpr, LiteralExpr, UnaryExpr, VarStmt, VariableExpr, Stmt};
use lux::interpreter::Interpreter;
use lux::object::Object;
use lux::token::{Token, TokenType};

fn make_literal_str(value: &str) -> Box<Expr> {
    Box::new(Expr::Literal(LiteralExpr { value: Some(Object::Str(value.to_string())) }))
}

fn make_literal_num(value: i64) -> Box<Expr> {
    Box::new(Expr::Literal(LiteralExpr { value: Some(Object::Num(value)) }))
}

fn op(ttype: TokenType, lexeme: &str) -> Token {
    Token::new(ttype, lexeme.to_string(), None, 1)
}

#[test]
fn test_interpreter_literal() {
    let mut interpreter = Interpreter::new();
    let expr = Expr::Literal(LiteralExpr { value: Some(Object::Num(42)) });
    let result = interpreter.evaluate_expression(&expr).unwrap();
    assert_eq!(result, Object::Num(42));
}

#[test]
fn test_interpreter_grouping() {
    let mut interpreter = Interpreter::new();
    let expr = Expr::Grouping(GroupingExpr { expression: make_literal_num(3) });
    let result = interpreter.evaluate_expression(&expr).unwrap();
    assert_eq!(result, Object::Num(3));
}

#[test]
fn test_uninary_minus() {
    let mut interpreter = Interpreter::new();
    let expr = Expr::Unary(UnaryExpr { operator: op(TokenType::Minus, "-"), right: make_literal_num(5) });
    let result = interpreter.evaluate_expression(&expr);
    assert!(result.is_ok());
    assert_eq!(result.ok(), Some(Object::Num(-5)));
}

#[test]
fn test_uniary_not() {
    let mut interpreter = Interpreter::new();
    let expr = Expr::Unary(UnaryExpr {
        operator: op(TokenType::Bang, "!"),
        right: Box::new(Expr::Literal(LiteralExpr { value: Some(Object::Bool(false)) })),
    });
    let result = interpreter.evaluate_expression(&expr);
    assert!(result.is_ok());
    assert_eq!(result.ok(), Some(Object::Bool(true)));
}

#[test]
fn test_binary_plus() {
    let mut interpreter = Interpreter::new();
    let expr = Expr::Binary(BinaryExpr {
        left: make_literal_num(10),
        operator: op(TokenType::Plus, "+"),
        right: make_literal_num(15),
    });
    let result = interpreter.evaluate_expression(&expr);
    assert!(result.is_ok());
    assert_eq!(result.ok(), Some(Object::Num(25)));
}

#[test]
fn test_binary_plus_type_error() {
    let mut interpreter = Interpreter::new();
    let expr = Expr::Binary(BinaryExpr {
        left: make_literal_num(10),
        operator: op(TokenType::Plus, "+"),
        right: Box::new(Expr::Literal(LiteralExpr { value: Some(Object::Bool(true)) })),
    });
    let result = interpreter.evaluate_expression(&expr);
    assert!(result.is_err());
}

#[test]
fn test_binary_minus() {
    let mut interpreter = Interpreter::new();
    let expr = Expr::Binary(BinaryExpr {
        left: make_literal_num(20),
        operator: op(TokenType::Minus, "-"),
        right: make_literal_num(5),
    });
    let result = interpreter.evaluate_expression(&expr);
    assert!(result.is_ok());
    assert_eq!(result.ok(), Some(Object::Num(15)));
}

#[test]
fn test_binary_minus_type_error() {
    let mut interpreter = Interpreter::new();
    let expr = Expr::Binary(BinaryExpr {
        left: make_literal_num(10),
        operator: op(TokenType::Minus, "-"),
        right: Box::new(Expr::Literal(LiteralExpr { value: Some(Object::Bool(true)) })),
    });
    let result = interpreter.evaluate_expression(&expr);
    assert!(result.is_err());
}

#[test]
fn test_binary_star() {
    let mut interpreter = Interpreter::new();
    let expr = Expr::Binary(BinaryExpr {
        left: make_literal_num(5),
        operator: op(TokenType::Star, "*"),
        right: make_literal_num(2),
    });
    let result = interpreter.evaluate_expression(&expr);
    assert!(result.is_ok());
    assert_eq!(result.ok(), Some(Object::Num(10)));
}

#[test]
fn test_binary_slash() {
    let mut interpreter = Interpreter::new();
    let expr = Expr::Binary(BinaryExpr {
        left: make_literal_num(10),
        operator: op(TokenType::Slash, "/"),
        right: make_literal_num(2),
    });
    let result = interpreter.evaluate_expression(&expr);
    assert!(result.is_ok());
    assert_eq!(result.ok(), Some(Object::Num(5)));
}

#[test]
fn test_binary_wrong_operator() {
    let mut interpreter = Interpreter::new();
    let expr = Expr::Binary(BinaryExpr {
        left: make_literal_num(10),
        operator: op(TokenType::Bang, "!"),
        right: make_literal_num(2),
    });
    let result = interpreter.evaluate_expression(&expr);
    assert!(result.is_err());
}

#[test]
fn test_strign_concat() {
    let mut interpreter = Interpreter::new();
    let expr = Expr::Binary(BinaryExpr {
        left: make_literal_str("hello, "),
        operator: op(TokenType::Plus, "+"),
        right: make_literal_str("world"),
    });
    let result = interpreter.evaluate_expression(&expr);
    assert!(result.is_ok());
    assert_eq!(result.ok(), Some(Object::Str("hello, world".to_string())));
}

#[test]
fn test_binary_greater() {
    let mut interpreter = Interpreter::new();
    let expr = Expr::Binary(BinaryExpr {
        left: make_literal_num(10),
        operator: op(TokenType::Greater, ">"),
        right: make_literal_num(2),
    });
    let result = interpreter.evaluate_expression(&expr);
    assert!(result.is_ok());
    assert_eq!(result.ok(), Some(Object::Bool(true)));
}

#[test]
fn test_binary_less() {
    let mut interpreter = Interpreter::new();
    let expr = Expr::Binary(BinaryExpr {
        left: make_literal_num(1),
        operator: op(TokenType::Less, "<"),
        right: make_literal_num(2),
    });
    let result = interpreter.evaluate_expression(&expr);
    assert!(result.is_ok());
    assert_eq!(result.ok(), Some(Object::Bool(true)));
}

#[test]
fn test_binary_greater_equal() {
    let mut interpreter = Interpreter::new();
    let expr = Expr::Binary(BinaryExpr {
        left: make_literal_num(2),
        operator: op(TokenType::GreaterEqual, ">="),
        right: make_literal_num(2),
    });
    let result = interpreter.evaluate_expression(&expr);
    assert!(result.is_ok());
    assert_eq!(result.ok(), Some(Object::Bool(true)));
}

#[test]
fn test_binary_less_equal() {
    let mut interpreter = Interpreter::new();
    let expr = Expr::Binary(BinaryExpr {
        left: make_literal_num(1),
        operator: op(TokenType::LessEqual, "<="),
        right: make_literal_num(2),
    });
    let result = interpreter.evaluate_expression(&expr);
    assert!(result.is_ok());
    assert_eq!(result.ok(), Some(Object::Bool(true)));
}

#[test]
fn test_binary_equal_equal() {
    let mut interpreter = Interpreter::new();
    let expr = Expr::Binary(BinaryExpr {
        left: make_literal_num(2),
        operator: op(TokenType::Equal, "=="),
        right: make_literal_num(2),
    });
    let result = interpreter.evaluate_expression(&expr);
    assert!(result.is_ok());
    assert_eq!(result.ok(), Some(Object::Bool(true)));
}

#[test]
fn test_binary_equal_equal_str() {
    let mut interpreter = Interpreter::new();
    let expr = Expr::Binary(BinaryExpr {
        left: make_literal_str("hello"),
        operator: op(TokenType::Equal, "=="),
        right: make_literal_str("hello"),
    });
    let result = interpreter.evaluate_expression(&expr);
    assert!(result.is_ok());
    assert_eq!(result.ok(), Some(Object::Bool(true)));
}

#[test]
fn test_binary_bang_equal() {
    let mut interpreter = Interpreter::new();
    let expr = Expr::Binary(BinaryExpr {
        left: make_literal_num(2),
        operator: op(TokenType::BangEqual, "!="),
        right: make_literal_num(3),
    });
    let result = interpreter.evaluate_expression(&expr);
    assert!(result.is_ok());
    assert_eq!(result.ok(), Some(Object::Bool(true)));
}

#[test]
fn test_binary_bang_equal_str() {
    let mut interpreter = Interpreter::new();
    let expr = Expr::Binary(BinaryExpr {
        left: make_literal_str("hello"),
        operator: op(TokenType::BangEqual, "!="),
        right: make_literal_str("world"),
    });
    let result = interpreter.evaluate_expression(&expr);
    assert!(result.is_ok());
    assert_eq!(result.ok(), Some(Object::Bool(true)));
}

#[test]
fn test_is_truthy() {
    assert_eq!(Object::Nil.is_truthy(), false);
    assert_eq!(Object::Bool(false).is_truthy(), false);
    assert_eq!(Object::Bool(true).is_truthy(), true);
    assert_eq!(Object::Num(0).is_truthy(), true);
    assert_eq!(Object::Str("hello".to_string()).is_truthy(), true);
}

#[test]
fn test_var_stmt_defined() {
    let mut interpreter = Interpreter::new();
    let token = Token::new(TokenType::Identifier, "foo".to_string(), None, 0);
    let var_stmt = Stmt::Var(VarStmt { name: token.dup(), initializer: Some(*make_literal_num(20)) });
    assert!(interpreter.interpret(&vec![var_stmt]));
    assert_eq!(
        interpreter.environment.get(interpreter.current, &token).unwrap(),
        Object::Num(20)
    );
}

#[test]
fn test_var_stmt_undefined() {
    let mut interpreter = Interpreter::new();
    let token = Token::new(TokenType::Identifier, "foo".to_string(), None, 0);
    let var_stmt = Stmt::Var(VarStmt { name: token.dup(), initializer: None });
    assert!(interpreter.interpret(&vec![var_stmt]));
    assert_eq!(interpreter.environment.get(interpreter.current, &token).unwrap(), Object::Nil);
}

#[test]
fn test_undefined_visit_variable_expr() {
    let mut interpreter = Interpreter::new();
    let token = Token::new(TokenType::Identifier, "foo".to_string(), None, 0);
    let var_expr = Expr::Variable(VariableExpr { name: token.dup() });
    assert!(interpreter.evaluate_expression(&var_expr).is_err());
}
