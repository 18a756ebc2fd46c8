use komrad::ast::Value;
use komrad::error::{ErrorKind, ParserError, RuntimeError, Span, empty_span};
use komrad::number::Number;
use komrad::value_type::ValueType;

#[test]
fn number_arithmetic_and_text() {
    assert!(Number::Int(0).is_zero());
    assert!(!Number::UInt(3).is_zero());
    assert_eq!(Number::Int(2).add(Number::Int(3)), Number::Int(5));
    assert_eq!(Number::UInt(9).sub(Number::UInt(4)), Number::UInt(5));
    assert_eq!(Number::Int(-7).div(Number::Int(2)), Number::Int(-3));
    assert_eq!(Number::Int(-7).rem(Number::Int(2)), Number::Int(-1));
    assert_eq!(Number::Int(-42).to_text(), "-42");
    assert_eq!(Number::UInt(u64::MAX).to_text(), "18446744073709551615");
    assert_eq!(Number::Int(i64::MIN).to_text(), "-9223372036854775808");
}

#[test]
fn runtime_error_texts() {
    assert_eq!(RuntimeError::DivisionByZero.to_text(), "Division by zero");
    assert_eq!(RuntimeError::InvalidAgentDefinition.to_text(), "Invalid agent definition");
    assert!(RuntimeError::TypeMismatch("x".to_string()).same(&RuntimeError::TypeMismatch("x".to_string())));
    assert!(!RuntimeError::AgentNotFound.same(&RuntimeError::AgentNotRegistered));
}

#[test]
fn parser_errors_cover_their_span() {
    let span = Span { source_name: "main.k".to_string(), source: "a + ?".to_string(), offset: 4, fragment: "?" };
    let e = ParserError::from_error_kind(&span);
    assert_eq!(e.offset, 4);
    assert_eq!(e.len, 1);
    assert!(e.kind.same(&ErrorKind::UnexpectedToken("?".to_string())));
    let empty = empty_span();
    let e2 = ParserError::from_external_error(&empty);
    assert_eq!(e2.len, 1);
    assert!(e2.kind.same(&ErrorKind::InvalidSyntax));
    assert_eq!(e2.source_name, "<empty>");
    let e3 = ParserError::from_char(&span, '!');
    assert!(ParserError::append(e3.duplicate()).same(&e3));
}

#[test]
fn value_types_and_predicates() {
    assert!(Value::Number(Number::Int(1)).get_type().to_text().len() > 0);
    assert!(Value::Empty.is_empty());
    assert!(Value::Word("w".to_string()).is_word());
    assert!(!Value::Word("w".to_string()).equals(&Value::String("w".to_string())));
    assert!(Value::List(vec![]).get_type().duplicate().to_text() == ValueType::List.to_text());
}
