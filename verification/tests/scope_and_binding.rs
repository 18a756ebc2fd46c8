use komrad::ast::{BinaryExpr, Expr, Pattern, TypeExpr, Value};
use komrad::closure::Closure;
use komrad::message::Message;
use komrad::number::Number;
use komrad::operators::{BinaryOp, ComparisonOp};
use komrad::scope::Scope;
use komrad::try_bind::TryBind;

#[test]
fn test_scope() {
    let mut scope = Scope::new();
    scope.set("x".to_string(), Value::Number(Number::Int(1)));
    scope.set("y".to_string(), Value::Number(Number::Int(2)));
    assert!(scope.get_str("x").unwrap().equals(&Value::Number(Number::Int(1))));
    assert!(scope.is_dirty());
}

#[test]
fn test_scope_with_parent() {
    let mut parent = Scope::new();
    parent.set("x".to_string(), Value::Number(Number::Int(1)));
    let mut child = Scope::with_parent(parent);
    child.set("y".to_string(), Value::Number(Number::Int(2)));
    assert!(child.get_str("x").unwrap().equals(&Value::Number(Number::Int(1))));
    assert!(child.get_str("y").unwrap().equals(&Value::Number(Number::Int(2))));
}

#[test]
fn scope_set_replaces_and_shadows() {
    let mut parent = Scope::new();
    parent.set("x".to_string(), Value::Number(Number::Int(1)));
    let mut child = Scope::with_parent(parent);
    child.set("x".to_string(), Value::Number(Number::Int(2)));
    child.set("x".to_string(), Value::Number(Number::Int(3)));
    assert!(child.get_str("x").unwrap().equals(&Value::Number(Number::Int(3))));
    assert_eq!(child.iter().len(), 1);
    assert!(child.get_str("missing").is_none());
}

#[test]
fn test_try_bind_with_holes() {
    let pattern = Pattern::new(vec![TypeExpr::new_hole("a".to_string()), TypeExpr::new_hole("b".to_string())]);
    let message = Message::new(vec![Value::Number(Number::Int(10)), Value::Boolean(true)], None);
    let mut context = Scope::new();
    let bound = pattern.try_bind(message, &mut context);
    assert!(bound.is_some(), "Expected successful binding");
    let bound = bound.unwrap();
    assert!(bound.get_str("a").unwrap().equals(&Value::Number(Number::Int(10))));
    assert!(bound.get_str("b").unwrap().equals(&Value::Boolean(true)));
    // The bound scope shares the context's bindings.
    assert!(context.get_str("a").unwrap().equals(&Value::Number(Number::Int(10))));
}

#[test]
fn failed_match_keeps_holes_bound_before_the_mismatch() {
    let pattern = Pattern::new(vec![TypeExpr::new_hole("a".to_string()), TypeExpr::new_word("go".to_string()), TypeExpr::new_hole("b".to_string())]);
    let message = Message::new(
        vec![Value::Number(Number::Int(1)), Value::Word("stop".to_string()), Value::Number(Number::Int(2))],
        None,
    );
    let mut context = Scope::new();
    assert!(pattern.try_bind(message, &mut context).is_none());
    assert!(context.get_str("a").unwrap().equals(&Value::Number(Number::Int(1))));
    assert!(context.get_str("b").is_none());
    assert!(!context.is_dirty());
}

#[test]
fn test_try_bind_with_literal_success() {
    let pattern = Pattern::new(vec![TypeExpr::new_value(Value::Number(Number::Int(42)))]);
    let message = Message::new(vec![Value::Number(Number::Int(42))], None);
    let mut context = Scope::new();
    assert!(pattern.try_bind(message, &mut context).is_some(), "Expected literal to match");
}

#[test]
fn test_try_bind_with_literal_failure() {
    let pattern = Pattern::new(vec![TypeExpr::new_value(Value::Number(Number::Int(42)))]);
    let message = Message::new(vec![Value::Number(Number::Int(43))], None);
    let mut context = Scope::new();
    assert!(pattern.try_bind(message, &mut context).is_none(), "Expected literal mismatch to fail binding");
}

#[test]
fn test_try_bind_length_mismatch() {
    let pattern = Pattern::new(vec![TypeExpr::new_hole("a".to_string()), TypeExpr::new_hole("b".to_string())]);
    let message = Message::new(vec![Value::Number(Number::Int(10))], None);
    let mut context = Scope::new();
    assert!(pattern.try_bind(message, &mut context).is_none(), "Expected binding to fail on length mismatch");
}

#[test]
fn test_try_bind_with_word_literal() {
    let pattern = Pattern::new(vec![TypeExpr::new_word("hello".to_string())]);
    let message = Message::new(vec![Value::Word("hello".to_string())], None);
    let mut context = Scope::new();
    assert!(pattern.try_bind(message, &mut context).is_some(), "Expected word literal match to succeed");
    let mismatch = Message::new(vec![Value::Word("world".to_string())], None);
    let mut context2 = Scope::new();
    assert!(pattern.try_bind(mismatch, &mut context2).is_none(), "Expected word literal mismatch to fail binding");
}

#[test]
fn test_try_bind_with_divisible_check() {
    let pattern = Pattern::new(vec![TypeExpr::Binary(
        "x".to_string(),
        ComparisonOp::Divisible,
        Value::Number(Number::UInt(3)),
    )]);
    let message = Message::new(vec![Value::Number(Number::UInt(9))], None);
    let mut context = Scope::new();
    let bound = pattern.try_bind(message, &mut context);
    assert!(bound.is_some(), "Expected divisibility check to succeed");
    assert!(bound.unwrap().get_str("x").unwrap().equals(&Value::Number(Number::UInt(9))));
    let mismatch = Message::new(vec![Value::Number(Number::UInt(10))], None);
    let mut context2 = Scope::new();
    assert!(pattern.try_bind(mismatch, &mut context2).is_none(), "Expected divisibility check mismatch to fail binding");
}

#[test]
fn divisible_by_zero_is_reported_before_binding() {
    let pattern = Pattern::new(vec![TypeExpr::Binary(
        "x".to_string(),
        ComparisonOp::Divisible,
        Value::Number(Number::UInt(0)),
    )]);
    let message = Message::new(vec![Value::Number(Number::UInt(9))], None);
    assert!(pattern.bind_would_fault(&message));
    let ok = Message::new(vec![Value::Word("w".to_string())], None);
    assert!(!pattern.bind_would_fault(&ok));
}

#[test]
fn a_repeated_hole_keeps_its_last_value() {
    let pattern = Pattern::new(vec![
        TypeExpr::new_hole("a".to_string()),
        TypeExpr::new_word("go".to_string()),
        TypeExpr::new_hole("a".to_string()),
    ]);
    let message = Message::new(
        vec![Value::Number(Number::Int(1)), Value::Word("go".to_string()), Value::Number(Number::Int(2))],
        None,
    );
    let mut context = Scope::new();
    context.set("other".to_string(), Value::Boolean(true));
    let bound = pattern.try_bind(message, &mut context).expect("every term matches");
    assert!(bound.get_str("a").unwrap().equals(&Value::Number(Number::Int(2))));
    assert!(bound.get_str("other").unwrap().equals(&Value::Boolean(true)));
    let refused = Message::new(
        vec![Value::Number(Number::Int(1)), Value::Word("stop".to_string()), Value::Number(Number::Int(2))],
        None,
    );
    assert!(pattern.try_bind(refused, &mut Scope::new()).is_none());
}

#[test]
fn closing_twice_is_closing_once() {
    let mut scope = Scope::new();
    scope.set("x".to_string(), Value::Number(Number::Int(4)));
    let e = Expr::Binary(BinaryExpr::new(
        Expr::Variable("x".to_string()),
        BinaryOp::Add,
        Expr::List(vec![Expr::Variable("y".to_string())]),
    ));
    let once = e.closure(&scope);
    let twice = once.closure(&scope);
    assert_eq!(format!("{:?}", once), format!("{:?}", twice));
    assert!(format!("{:?}", once).contains("Int(4)"));
    assert!(format!("{:?}", once).contains("Variable(\"y\")"));
}
