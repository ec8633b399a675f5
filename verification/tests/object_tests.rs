use lux::object::Object;

#[test]
fn test_num_object_equality() {
    let obj = Object::Num(5);
    assert_eq!(obj, Object::Num(5));
    assert_ne!(obj, Object::Num(3));
}

#[test]
fn test_num_object_comparison() {
    let obj1 = Object::Num(3);
    let obj2 = Object::Num(4);
    assert!(obj1 < obj2);
    assert!(obj2 > obj1);
    assert_eq!(obj1.partial_cmp(&obj2), Some(std::cmp::Ordering::Less));
}

#[test]
fn nil_orders_only_against_nil() {
    assert_eq!(Object::Nil.partial_cmp(&Object::Nil), Some(std::cmp::Ordering::Equal));
    assert_eq!(Object::Nil.partial_cmp(&Object::Num(1)), None);
    assert_eq!(Object::Str("a".to_string()).partial_cmp(&Object::Str("b".to_string())), None);
}

#[test]
fn number_text_renders_sign_and_digits() {
    assert_eq!(Object::Num(0).to_text(), "0");
    assert_eq!(Object::Num(-42).to_text(), "-42");
    assert_eq!(Object::Num(907).to_text(), "907");
    assert_eq!(Object::Num(i64::MIN).to_text(), "-9223372036854775808");
    assert_eq!(Object::Bool(true).to_text(), "true");
    assert_eq!(Object::Nil.to_text(), "nil");
    assert_eq!(Object::Str("raw".to_string()).to_text(), "raw");
}

#[test]
fn arithmetic_methods_follow_the_operand_table() {
    assert_eq!(Object::Num(2).add(Object::Num(3)), Object::Num(5));
    assert_eq!(
        Object::Str("ab".to_string()).add(Object::Str("cd".to_string())),
        Object::Str("abcd".to_string())
    );
    assert_eq!(Object::Num(2).add(Object::Bool(true)), Object::ArithmeticError);
    assert_eq!(Object::Num(7).sub(Object::Num(2)), Object::Num(5));
    assert_eq!(Object::Num(6).mul(Object::Num(7)), Object::Num(42));
    assert_eq!(Object::Num(7).div(Object::Num(2)), Object::Num(3));
    assert_eq!(Object::Num(7).div(Object::Num(0)), Object::ArithmeticError);
}

#[test]
fn truthiness_of_each_value_kind() {
    assert!(!Object::Nil.is_truthy());
    assert!(!Object::Bool(false).is_truthy());
    assert!(Object::Bool(true).is_truthy());
    assert!(Object::Num(0).is_truthy());
    assert!(Object::Str(String::new()).is_truthy());
}
