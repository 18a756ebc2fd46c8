use komrad::ast::{BinaryExpr, Block, CallExpr, Expr, Statement, TypeExpr, Value};
use komrad::debug_text::{push_type_expr_debug, value_debug_string};
use komrad::channel::Channel;
use komrad::error::RuntimeError;
use komrad::execute::Execute;
use komrad::number::Number;
use komrad::operators::BinaryOp;
use komrad::run::{Event, Outcome, Request, Run, run_block, value_display};
use komrad::scope::Scope;
use komrad::value_type::ValueType;

const FUEL: usize = 64;

fn num(i: i64) -> Value {
    Value::Number(Number::Int(i))
}

fn done(out: Outcome<Value>) -> Value {
    match out {
        Outcome::Done(v) => v,
        Outcome::Wait => panic!("the code waits on a request"),
        Outcome::Fault(m) => panic!("the code faulted: {}", m),
    }
}

fn eval(e: &Expr) -> Value {
    let mut run = Run::new(Scope::new());
    done(e.execute(&mut run, &Vec::new(), FUEL))
}

fn binary(l: Value, op: BinaryOp, r: Value) -> Expr {
    Expr::Binary(BinaryExpr::new(Expr::Value(l), op, Expr::Value(r)))
}

#[test]
fn test_variable_is_not_empty() {
    let mut run = Run::new(Scope::new());
    let events: Vec<Event> = Vec::new();
    let assign = Statement::Assignment("x".to_string(), Expr::Value(num(42)));
    done(assign.execute(&mut run, &events, FUEL));
    let var = Statement::Expr(Expr::Variable("x".to_string()));
    let v = done(var.execute(&mut run, &events, FUEL));
    assert!(!v.is_empty());
    assert!(v.equals(&num(42)));
}

#[test]
fn test_block_return_value() {
    let block = Block::new(vec![
        Statement::Assignment("x".to_string(), Expr::Value(num(42))),
        Statement::Expr(Expr::Variable("x".to_string())),
    ]);
    let (out, run) = run_block(&block, Scope::new(), &Vec::new(), FUEL);
    assert!(done(out).equals(&num(42)));
    assert!(run.requests.is_empty());
}

#[test]
fn test_binary_arithmetic() {
    assert!(eval(&binary(num(3), BinaryOp::Add, num(4))).equals(&num(7)));
    assert!(eval(&binary(num(10), BinaryOp::Sub, num(3))).equals(&num(7)));
    assert!(eval(&binary(num(2), BinaryOp::Mul, num(5))).equals(&num(10)));
    assert!(eval(&binary(num(20), BinaryOp::Div, num(4))).equals(&num(5)));
    assert!(eval(&binary(num(10), BinaryOp::Div, num(0))).equals(&Value::Error(RuntimeError::DivisionByZero)));
}

#[test]
fn test_binary_logical() {
    assert!(eval(&binary(Value::Boolean(true), BinaryOp::And, Value::Boolean(false))).equals(&Value::Boolean(false)));
    assert!(eval(&binary(Value::Boolean(true), BinaryOp::Or, Value::Boolean(false))).equals(&Value::Boolean(true)));
}

#[test]
fn test_call_expression() {
    let channel = Channel::from_uuid(7);
    let call = Expr::Call(CallExpr::new(
        Expr::Value(Value::Channel(channel)),
        vec![Box::new(Expr::Value(num(100)))],
    ));
    // The call waits until the runtime has sent the message.
    let mut run = Run::new(Scope::new());
    match call.execute(&mut run, &Vec::new(), FUEL) {
        Outcome::Wait => {},
        other => panic!("expected the call to wait, got {:?}", other),
    }
    assert_eq!(run.requests.len(), 1);
    match &run.requests[0] {
        Request::Send { target, terms } => {
            assert_eq!(target.id, 7);
            assert_eq!(terms.len(), 1);
            assert!(terms[0].equals(&num(100)));
        },
        other => panic!("Expected a message to be sent, got {:?}", other),
    }
    // Once the message is sent, the call is worth Empty.
    let mut run = Run::new(Scope::new());
    let result = done(call.execute(&mut run, &vec![Event::Sent], FUEL));
    assert!(result.equals(&Value::Empty));
}

#[test]
fn test_variable_not_found() {
    let v = eval(&Expr::Variable("undefined".to_string()));
    assert!(v.equals(&Value::Word("undefined".to_string())));
}

#[test]
fn test_assign_list_to_variable() {
    let block = Block::new(vec![
        Statement::Assignment(
            "my_list".to_string(),
            Expr::List(vec![Expr::Value(num(1)), Expr::Value(num(2)), Expr::Value(num(3))]),
        ),
        Statement::Expr(Expr::Variable("my_list".to_string())),
    ]);
    let (out, run) = run_block(&block, Scope::new(), &Vec::new(), FUEL);
    assert!(matches!(out, Outcome::Wait));
    match run.requests.last() {
        Some(Request::SpawnList { items }) => assert_eq!(items.len(), 3),
        other => panic!("expected a list to be spawned, got {:?}", other),
    }
    let list_channel = Channel::from_uuid(99);
    let (out, _) = run_block(&block, Scope::new(), &vec![Event::Spawned(list_channel)], FUEL);
    match done(out) {
        Value::Channel(c) => assert_eq!(c.id, 99),
        other => panic!("Expected a channel to a ListAgent, got {:?}", other),
    }
}

#[test]
fn division_remainder_and_overflow() {
    assert!(eval(&binary(num(7), BinaryOp::Mod, num(3))).equals(&num(1)));
    assert!(eval(&binary(num(7), BinaryOp::Mod, num(0))).equals(&Value::Error(RuntimeError::DivisionByZero)));
    assert!(eval(&binary(Value::Number(Number::UInt(20)), BinaryOp::Div, Value::Number(Number::UInt(4))))
        .equals(&Value::Number(Number::UInt(5))));
}

#[test]
fn error_value_ends_a_block() {
    let block = Block::new(vec![
        Statement::Expr(binary(num(1), BinaryOp::Div, num(0))),
        Statement::Assignment("y".to_string(), Expr::Value(num(5))),
    ]);
    let (out, run) = run_block(&block, Scope::new(), &Vec::new(), FUEL);
    assert!(done(out).equals(&Value::Error(RuntimeError::DivisionByZero)));
    assert!(run.scope.get_str("y").is_none());
}

#[test]
fn replay_gives_the_same_requests() {
    let target = Channel::from_uuid(1);
    let block = Block::new(vec![
        Statement::Expr(Expr::Call(CallExpr::new(Expr::Value(Value::Channel(target)), vec![Box::new(Expr::Value(num(1)))]))),
        Statement::Expr(Expr::Call(CallExpr::new(Expr::Value(Value::Channel(target)), vec![Box::new(Expr::Value(num(2)))]))),
    ]);
    let (first, run1) = run_block(&block, Scope::new(), &Vec::new(), FUEL);
    assert!(matches!(first, Outcome::Wait));
    assert_eq!(run1.requests.len(), 1);
    let (second, run2) = run_block(&block, Scope::new(), &vec![Event::Sent], FUEL);
    assert!(matches!(second, Outcome::Wait));
    assert_eq!(run2.requests.len(), 2);
    let (third, run3) = run_block(&block, Scope::new(), &vec![Event::Sent, Event::Sent], FUEL);
    assert!(done(third).equals(&Value::Empty));
    assert_eq!(run3.requests.len(), 2);
    assert_eq!(run3.pos, 2);
}

#[test]
fn field_of_the_wrong_type_names_both_types() {
    let mut run = Run::new(Scope::new());
    let field = Statement::Field(
        "x".to_string(),
        TypeExpr::Type(ValueType::Number),
        Some(Expr::Value(Value::String("hi".to_string()))),
    );
    match done(field.execute(&mut run, &Vec::new(), FUEL)) {
        Value::Error(RuntimeError::TypeMismatch(m)) => assert_eq!(m, "Expected type Type(Number), found Type(String)"),
        other => panic!("expected a type mismatch, got {:?}", other),
    }
    assert!(run.scope.get_str("x").is_none());
}

#[test]
fn lists_display_their_items_in_debugging_form() {
    let list = Value::List(vec![num(1), Value::Word("a".to_string()), Value::Boolean(true)]);
    assert_eq!(value_display(&list), "List: [Number(Int(1)), Word(\"a\"), Boolean(true)]");
    assert_eq!(value_display(&Value::List(vec![])), "List: []");
}

#[test]
fn debugging_form_quotes_and_escapes_strings() {
    assert_eq!(value_debug_string(&Value::String("a\"b".to_string())), "String(\"a\\\"b\")");
    assert_eq!(value_debug_string(&Value::Number(Number::UInt(7))), "Number(UInt(7))");
    assert_eq!(value_debug_string(&Value::Channel(Channel::from_uuid(1))), "Channel(Channel(00000001))");
    let mut out = String::new();
    push_type_expr_debug(&mut out, &TypeExpr::TypeHole("h".to_string(), ValueType::User("T".to_string())));
    assert_eq!(out, "TypeHole(\"h\", User(\"T\"))");
}

fn mismatch_text(v: Value) -> String {
    match v {
        Value::Error(RuntimeError::TypeMismatch(m)) => m,
        other => panic!("expected a type mismatch, got {:?}", other),
    }
}

fn expand(v: Value, events: &Vec<Event>) -> Value {
    let mut run = Run::new(Scope::new());
    done(Statement::Expander(Expr::Value(v)).execute(&mut run, events, FUEL))
}

#[test]
fn expansion_errors_show_what_was_found() {
    assert_eq!(mismatch_text(expand(num(3), &Vec::new())), "Expected a word or block, found Number(Int(3))");
    assert_eq!(mismatch_text(expand(Value::List(vec![]), &Vec::new())), "Expected a channel or word, found None");
    assert_eq!(
        mismatch_text(expand(Value::List(vec![num(1)]), &Vec::new())),
        "Expected a channel or word, found Some(Number(Int(1)))"
    );
    let target = Value::Channel(Channel::from_uuid(1));
    assert_eq!(
        mismatch_text(expand(target.duplicate(), &vec![Event::Replied(vec![num(1)])])),
        "Expected a list, found Number(Int(1))"
    );
    assert_eq!(
        mismatch_text(expand(target, &vec![Event::Replied(vec![Value::List(vec![Value::Boolean(false)])])])),
        "Expected a channel, found Some(Boolean(false))"
    );
}

#[test]
fn member_reads_show_what_was_found() {
    assert_eq!(
        mismatch_text(eval(&binary(num(1), BinaryOp::Access, num(2)))),
        "Expected a channel or word, found Number(Int(1)) Number(Int(2))"
    );
    let mut run = Run::new(Scope::new());
    let events: Vec<Event> = Vec::new();
    done(Statement::Assignment("a".to_string(), Expr::Value(num(5))).execute(&mut run, &events, FUEL));
    let read = binary(Value::Word("a".to_string()), BinaryOp::Access, Value::Word("b".to_string()));
    assert_eq!(mismatch_text(done(read.execute(&mut run, &events, FUEL))), "Expected a channel, found Number(Int(5))");
}
