use lux::ast::{BinaryExpr, Expr, GroupingExpr, LiteralExpr, UnaryExpr};
use lux::ast_printer::AstPrinter;
use lux::error::LoxResult;
use lux::generate_ast::gerenate_ast;
use lux::interpreter::Interpreter;
use lux::native_functions::Nativeclock;
use lux::object::Object;
use lux::parser::Parser;
use lux::scanner::Scanner;
use lux::token::{Token, TokenType};
use lux::{run, RunOutcome};

#[test]
fn test_visit_literal_expr() {
    let mut ast = AstPrinter;
    let expr = Expr::Literal(LiteralExpr { value: Some(Object::Num(20)) });
    let res = ast.print(&expr).unwrap();
    assert_eq!(res, "20");
}

#[test]
fn printer_renders_prefix_parenthesized_text() {
    let mut ast = AstPrinter;
    let expr = Expr::Binary(BinaryExpr {
        left: Box::new(Expr::Unary(UnaryExpr {
            operator: Token::new(TokenType::Minus, "-".to_string(), None, 1),
            right: Box::new(Expr::Literal(LiteralExpr { value: Some(Object::Num(123)) })),
        })),
        operator: Token::new(TokenType::Star, "*".to_string(), None, 1),
        right: Box::new(Expr::Grouping(GroupingExpr {
            expression: Box::new(Expr::Literal(LiteralExpr { value: Some(Object::Num(45)) })),
        })),
    });
    assert_eq!(ast.print(&expr).unwrap(), "(* (- 123) (group 45))");
}

#[test]
fn scanner_produces_the_expected_token_kinds() {
    let mut s = Scanner::new("var x = 1 + 20; // trailing comment");
    let tokens = s.scan_tokens().unwrap();
    let kinds: Vec<TokenType> = tokens.iter().map(|t| t.token_type()).collect();
    assert_eq!(
        kinds,
        vec![
            TokenType::Var,
            TokenType::Identifier,
            TokenType::Assign,
            TokenType::Number,
            TokenType::Plus,
            TokenType::Number,
            TokenType::SemiColon,
            TokenType::Eof,
        ]
    );
    assert_eq!(tokens[1].as_string(), "x");
    assert_eq!(tokens[3].literal, Some(Object::Num(1)));
    assert_eq!(tokens[5].literal, Some(Object::Num(20)));
}

#[test]
fn scanner_handles_strings_comments_and_lines() {
    let mut s = Scanner::new("/* a /* nested */ comment */ \"hi\n there\"");
    let tokens = s.scan_tokens().unwrap();
    assert_eq!(tokens.len(), 2);
    assert_eq!(tokens[0].token_type(), TokenType::String);
    assert_eq!(tokens[0].literal, Some(Object::Str("hi\n there".to_string())));
    assert_eq!(tokens[1].token_type(), TokenType::Eof);
    assert_eq!(tokens[1].line, 2);
}

#[test]
fn scanner_rejects_unterminated_input() {
    let mut s = Scanner::new("\"open");
    assert!(s.scan_tokens().is_err());
    let mut s2 = Scanner::new("/* open");
    assert!(s2.scan_tokens().is_err());
    let mut s3 = Scanner::new("#");
    assert!(s3.scan_tokens().is_err());
}

#[test]
fn scanner_rejects_oversized_number_literal() {
    let mut s = Scanner::new("99999999999999999999;");
    assert!(s.scan_tokens().is_err());
}

#[test]
fn parser_reports_at_end_for_missing_semicolon() {
    let mut s = Scanner::new("print 1");
    let tokens = s.scan_tokens().unwrap();
    let mut p = Parser::new(tokens);
    match p.parse() {
        Err(es) => {
            assert_eq!(es.len(), 1);
            let text = es[0].report_text("");
            assert_eq!(text, "[line 1] Error at end: Expect ';' after value");
        },
        Ok(_) => panic!("a statement without its semicolon parsed"),
    }
}

#[test]
fn parser_rejects_invalid_assignment_target() {
    match run("1 = 2;") {
        RunOutcome::ParseErrors(es) => {
            assert_eq!(es.len(), 1);
            let text = es[0].report_text("");
            assert_eq!(text, "[line 1] Error at '=': Invalid assignment target.");
        },
        _ => panic!("an invalid assignment target parsed"),
    }
}

#[test]
fn report_text_formats_each_error_kind() {
    let tok = Token::new(TokenType::Identifier, "x".to_string(), None, 3);
    assert_eq!(
        LoxResult::parse_error(&tok, "bad").report_text(""),
        "[line 3] Error at 'x': bad"
    );
    assert_eq!(LoxResult::runtime_error(&tok, "bad").report_text(""), "Line 3 at 'x' bad");
    assert_eq!(LoxResult::error(7, "bad").report_text(""), "[line 7] Error: bad");
    assert_eq!(LoxResult::system_error("down").report_text(""), "System Error: down");
    let eof = Token::eof(9);
    assert_eq!(
        LoxResult::parse_error(&eof, "bad").report_text(""),
        "[line 9] Error at end: bad"
    );
}

#[test]
fn generated_ast_sources_hold_both_families() {
    let files = gerenate_ast("out");
    assert_eq!(files.len(), 2);
    assert_eq!(files[0].0, "out/expr.rs");
    assert_eq!(files[1].0, "out/stmt.rs");
    assert!(files[0].1.contains("pub enum Expr {"));
    assert!(files[0].1.contains("    Binary(Rc<BinaryExpr>),"));
    assert!(files[0].1.contains("pub struct BinaryExpr {"));
    assert!(files[0].1.contains("pub trait ExprVisitor<T> {"));
    assert!(files[0].1.contains("use std::rc::Rc;"));
    assert!(files[1].1.contains("pub enum Stmt {"));
    assert!(files[1].1.contains(
        "    fn visit_while_stmt(&self, wrapper: Rc<Stmt>, stmt: &WhileStmt) -> Result<T, LoxResult>;"
    ));
}

#[test]
fn clock_native_returns_a_number() {
    let clock = Nativeclock;
    assert_eq!(clock.arity(), 0);
    match clock.call() {
        Ok(Object::Num(_)) => {},
        other => panic!("the clock returned {:?}", other),
    }
}

#[test]
fn registered_clock_is_callable_from_a_program() {
    let mut s = Scanner::new("print clock();");
    let tokens = s.scan_tokens().unwrap();
    let mut p = Parser::new(tokens);
    let stmts = p.parse().unwrap();
    let mut interpreter = Interpreter::new();
    interpreter.define_native(&"clock".to_string(), Nativeclock);
    assert!(interpreter.interpret(&stmts));
    assert_eq!(interpreter.output.len(), 1);
    assert!(interpreter.output[0].parse::<i64>().is_ok());
}
