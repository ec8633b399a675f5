use lux::environment::Environment;
use lux::object::Object;
use lux::token::{Token, TokenType};

fn ident(name: &str) -> Token {
    Token::new(TokenType::Identifier, name.to_string(), None, 0)
}

#[test]
fn can_define_a_variable() {
    let mut e = Environment::new();
    e.define(0, &"One".to_string(), Object::Bool(true));
    assert!(e.get(0, &ident("One")).is_ok());
    assert_eq!(e.get(0, &ident("One")).unwrap(), Object::Bool(true));
}

#[test]
fn can_redefine_a_variable() {
    let mut e = Environment::new();
    e.define(0, &"Two".to_string(), Object::Bool(true));
    e.define(0, &"Two".to_string(), Object::Num(12));
    assert!(e.get(0, &ident("Two")).is_ok());
    assert_eq!(e.get(0, &ident("Two")).unwrap(), Object::Num(12));
}

#[test]
fn can_lookup_a_variable() {
    let mut e = Environment::new();
    e.define(0, &"Three".to_string(), Object::Str("foo".to_string()));
    let three_tok = ident("Three");
    assert_eq!(e.get(0, &three_tok).unwrap(), Object::Str("foo".to_string()));
}

#[test]
fn error_when_varaible_undefined() {
    let e = Environment::new();
    let three_tok = ident("Three");
    assert!(e.get(0, &three_tok).is_err());
}

#[test]
fn error_when_assigning_undefined_variable() {
    let mut e = Environment::new();
    let four_tok = ident("Four");
    assert!(e.assign(0, &four_tok, Object::Nil).is_err());
}

#[test]
fn assigning_existing_defined_variable() {
    let mut e = Environment::new();
    e.define(0, &"Four".to_string(), Object::Num(72));
    let four_tok = ident("Four");
    assert!(e.assign(0, &four_tok, Object::Num(89)).is_ok());
    assert_eq!(e.get(0, &four_tok).unwrap(), Object::Num(89));
}

#[test]
fn can_enclose_an_environment() {
    let mut e = Environment::new();
    let f = e.new_with_enclosing(0);
    assert_eq!(f, 1);
    assert_eq!(e.scopes[f].enclosing, Some(0));
    assert!(e.scopes[f].values.is_empty());
}

#[test]
fn can_read_from_encolsed_environment() {
    let mut e = Environment::new();
    e.define(0, &"Five".to_string(), Object::Num(77));
    let f = e.new_with_enclosing(0);
    let five_tok = ident("Five");
    assert_eq!(e.get(f, &five_tok).unwrap(), Object::Num(77));
}

#[test]
fn can_assign_to_encolsed_environment() {
    let mut e = Environment::new();
    e.define(0, &"Five".to_string(), Object::Num(77));
    let f = e.new_with_enclosing(0);
    let five_tok = ident("Five");
    assert_eq!(e.get(f, &five_tok).unwrap(), Object::Num(77));
}

#[test]
fn assignment_through_inner_scope_is_seen_from_outer() {
    let mut e = Environment::new();
    e.define(0, &"shared".to_string(), Object::Num(1));
    let inner = e.new_with_enclosing(0);
    let tok = ident("shared");
    assert!(e.assign(inner, &tok, Object::Num(9)).is_ok());
    assert_eq!(e.get(0, &tok).unwrap(), Object::Num(9));
    let other = e.new_with_enclosing(0);
    assert_eq!(e.get(other, &tok).unwrap(), Object::Num(9));
}

#[test]
fn define_in_inner_scope_shadows_without_touching_outer() {
    let mut e = Environment::new();
    e.define(0, &"x".to_string(), Object::Num(1));
    let inner = e.new_with_enclosing(0);
    e.define(inner, &"x".to_string(), Object::Num(2));
    let tok = ident("x");
    assert_eq!(e.get(inner, &tok).unwrap(), Object::Num(2));
    assert_eq!(e.get(0, &tok).unwrap(), Object::Num(1));
}
