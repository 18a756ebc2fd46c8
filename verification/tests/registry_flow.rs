use komrad::ast::{BinaryExpr, Block, CallExpr, Expr, Handler, Pattern, Statement, TypeExpr, Value};
use komrad::dynamic_agent::Handled;
use komrad::operators::BinaryOp;
use komrad::run::{Event, Request};
use komrad::channel::Channel;
use komrad::convert::{ToBlock, ToBoxedExpr, ToExpr, ToStatement, ToValue};
use komrad::default_agents::DefaultAgentChannels;
use komrad::dynamic_agent::{DynamicAgent, Setup};
use komrad::message::Message;
use komrad::number::Number;
use komrad::registry::{RegistryAction, RegistryAgent, RegistryFactory, SpawnAgent};
use komrad::scope::Scope;
use komrad::to_sexpr::ToSexpr;

fn defaults() -> DefaultAgentChannels {
    DefaultAgentChannels {
        io_agent: Channel::from_uuid(1),
        fs_agent: Channel::from_uuid(2),
        new_agent: Channel::from_uuid(3),
        registry_agent: Channel::from_uuid(4),
        agent_agent: Channel::from_uuid(5),
        spawn_agent: Channel::from_uuid(6),
    }
}

#[test]
fn test_register_agent() {
    let mut registry = RegistryAgent::new();
    let alice_block = Block::new(vec![
        Statement::Assignment("x".to_string(), Expr::Value(Value::Number(Number::UInt(2)))),
        Statement::Expr(Expr::Call(CallExpr::new(
            Expr::Variable("foo".to_string()),
            vec![Box::new(Expr::Variable("bar".to_string()))],
        ))),
    ]);
    let msg = Message::new(
        vec![
            Value::Word("define".to_string()),
            Value::Word("agent".to_string()),
            Value::Word("Alice".to_string()),
            Value::Block(Box::new(alice_block.duplicate())),
        ],
        None,
    );
    assert!(matches!(registry.handle_message(&msg), RegistryAction::Nothing));
    assert!(registry.contains_key(&"Alice".to_string()), "Registry should contain Alice after registration");
    match registry.get(&"Alice".to_string()) {
        Some(RegistryFactory::FromBlock(b)) => assert_eq!(
            b.to_sexpr().format(0),
            alice_block.to_sexpr().format(0),
            "Alice's block should match the registered definition"
        ),
        _ => panic!("Alice's block should match the registered definition"),
    }
}

#[test]
fn test_spawn_agent_bob() {
    let mut registry = RegistryAgent::new();
    let bob_block = Block::new(vec![Statement::Expr(Expr::Call(CallExpr::new(
        Expr::Variable("IO".to_string()),
        vec![
            Box::new(Expr::Variable("println".to_string())),
            Box::new(Expr::Value(Value::String("Bob started".to_string()))),
        ],
    )))]);
    registry.insert("Bob".to_string(), RegistryFactory::FromBlock(bob_block));
    let msg = Message::new(
        vec![Value::Word("spawn".to_string()), Value::Word("agent".to_string()), Value::Word("Bob".to_string())],
        Some(Channel::from_uuid(10)),
    );
    let order = match registry.handle_message(&msg) {
        RegistryAction::Spawn(order) => order,
        other => panic!("Expected a channel for Bob spawn, got {:?}", other),
    };
    let block = match &order.factory {
        RegistryFactory::FromBlock(b) => b.duplicate(),
        other => panic!("expected a block, got {:?}", other),
    };
    match DynamicAgent::from_block(&order.name, &block, Scope::new(), Channel::from_uuid(11), &defaults(), &vec![], 64) {
        Setup::Ready(agent) => assert_eq!(agent.name, "Bob"),
        other => panic!("expected Bob to be ready, got {:?}", other),
    }
}

#[test]
fn spawn_keyword_builds_the_registry_request() {
    let msg = Message::new(vec![Value::Word("Bob".to_string())], None);
    let forwarded = SpawnAgent.handle_message(&msg);
    assert_eq!(forwarded.terms.len(), 3);
    assert!(forwarded.terms[0].equals(&Value::Word("spawn".to_string())));
    assert!(forwarded.terms[2].equals(&Value::Word("Bob".to_string())));
}

#[test]
fn conversions_build_syntax() {
    let v = Value::Number(Number::Int(1));
    assert!(matches!(v.to_statement(), Statement::Expr(Expr::Value(_))));
    assert!(matches!(v.to_expr(), Expr::Value(_)));
    let block = vec![Statement::NoOp, Statement::NoOp].to_block();
    assert_eq!(block.statements().len(), 2);
    assert_eq!(Statement::NoOp.to_block().statements().len(), 1);
    assert!(matches!(block.to_value(), Value::Block(_)));
    assert!(matches!(*block.to_boxed_expr(), Expr::Block(_)));
    assert!(matches!(ToExpr::to_expr(&block), Expr::Block(_)));
    assert!(Value::from("ok".to_string()).equals(&Value::String("ok".to_string())));
    assert!(Value::from(42i64).equals(&Value::Number(Number::Int(42))));
    assert!(Value::from(7u64).equals(&Value::Number(Number::UInt(7))));
    assert!(Value::from(true).equals(&Value::Boolean(true)));
    assert!(matches!(Value::from(vec![Value::Empty]), Value::List(ref vs) if vs.len() == 1));
    assert!(matches!(Value::from(Channel::from_uuid(3)), Value::Channel(c) if c.id == 3));
}

#[test]
fn readme_greeting_handler_sends_to_io() {
    // agent X { [say hi to _name] { Io println "Hi, " + name + "!" } }
    let greeting = Expr::Binary(BinaryExpr::new(
        Expr::Binary(BinaryExpr::new(
            Expr::Value(Value::String("Hi, ".to_string())),
            BinaryOp::Add,
            Expr::Variable("name".to_string()),
        )),
        BinaryOp::Add,
        Expr::Value(Value::String("!".to_string())),
    ));
    let handler = Handler::new(
        Pattern::new(vec![
            TypeExpr::new_word("say".to_string()),
            TypeExpr::new_word("hi".to_string()),
            TypeExpr::new_word("to".to_string()),
            TypeExpr::new_hole("name".to_string()),
        ]),
        Block::new(vec![Statement::Expr(Expr::Call(CallExpr::new(
            Expr::Variable("Io".to_string()),
            vec![Box::new(Expr::Variable("println".to_string())), Box::new(greeting)],
        )))]),
    );
    let block = Block::new(vec![Statement::Handler(Box::new(handler))]);
    let mut agent = match DynamicAgent::from_block(&"X".to_string(), &block, Scope::new(), Channel::from_uuid(12), &defaults(), &vec![], 64) {
        Setup::Ready(a) => a,
        other => panic!("expected ready, got {:?}", other),
    };
    let msg = Message::new(
        vec![
            Value::Word("say".to_string()),
            Value::Word("hi".to_string()),
            Value::Word("to".to_string()),
            Value::String("Bob".to_string()),
        ],
        None,
    );
    match agent.handle_message(&msg, &vec![], 64) {
        Handled::Waiting(run) => match run.requests.last() {
            Some(Request::Send { target, terms }) => {
                assert_eq!(target.id, 1);
                assert!(terms[0].equals(&Value::Word("println".to_string())));
                assert!(terms[1].equals(&Value::String("Hi, Bob!".to_string())));
            },
            other => panic!("expected a send to Io, got {:?}", other),
        },
        other => panic!("expected to wait on Io, got {:?}", other),
    }
    assert!(matches!(agent.handle_message(&msg, &vec![Event::Sent], 64), Handled::Ran { .. }));
}
