use komrad::ast::{Block, CallExpr, Expr, Handler, Pattern, Statement, TypeExpr, Value};
use komrad::banner::{line_is_blank, trim_blank_lines_around};
use komrad::channel::{Channel, Uuid7};
use komrad::default_agents::{DefaultAgentChannels, DefaultAgents};
use komrad::dynamic_agent::{DynamicAgent, Handled, Setup};
use komrad::error::RuntimeError;
use komrad::message::Message;
use komrad::number::Number;
use komrad::run::{Event, Request};
use komrad::scope::Scope;

const FUEL: usize = 64;

fn defaults() -> DefaultAgentChannels {
    DefaultAgentChannels {
        io_agent: Channel::from_uuid(1),
        fs_agent: Channel::from_uuid(2),
        new_agent: Channel::from_uuid(3),
        registry_agent: Channel::from_uuid(4),
        agent_agent: Channel::from_uuid(5),
        spawn_agent: Channel::from_uuid(6),
    }
}

fn greeter_block() -> Block {
    Block::new(vec![
        Statement::Assignment("count".to_string(), Expr::Value(Value::Number(Number::Int(0)))),
        Statement::Handler(Box::new(Handler::new(
            Pattern::new(vec![TypeExpr::new_word("hello".to_string()), TypeExpr::new_hole("who".to_string())]),
            Block::new(vec![
                Statement::Assignment("last".to_string(), Expr::Variable("who".to_string())),
                Statement::Expr(Expr::Variable("who".to_string())),
            ]),
        ))),
    ])
}

fn make_agent() -> DynamicAgent {
    let setup = DynamicAgent::from_block(
        &"Greeter".to_string(),
        &greeter_block(),
        Scope::new(),
        Channel::from_uuid(77),
        &defaults(),
        &Vec::new(),
        FUEL,
    );
    match setup {
        Setup::Ready(a) => a,
        other => panic!("expected the agent to be ready, got {:?}", other),
    }
}

#[test]
fn dynamic_agent_setup_binds_defaults_and_collects_handlers() {
    let agent = make_agent();
    assert_eq!(agent.name, "Greeter");
    assert_eq!(agent.handlers.len(), 1);
    match agent.scope.get_str("me") {
        Some(Value::Channel(c)) => assert_eq!(c.id, 77),
        other => panic!("expected me, got {:?}", other),
    }
    match agent.scope.get_str("Registry") {
        Some(Value::Channel(c)) => assert_eq!(c.id, 4),
        other => panic!("expected Registry, got {:?}", other),
    }
    assert!(agent.scope.get_str("count").unwrap().equals(&Value::Number(Number::Int(0))));
}

#[test]
fn dynamic_agent_runs_the_matching_handler_and_keeps_its_scope() {
    let mut agent = make_agent();
    let msg = Message::new(
        vec![Value::Word("hello".to_string()), Value::String("Bob".to_string())],
        Some(Channel::from_uuid(500)),
    );
    match agent.handle_message(&msg, &Vec::new(), FUEL) {
        Handled::Ran { value, reply } => {
            assert!(value.equals(&Value::String("Bob".to_string())));
            let r = reply.unwrap();
            assert_eq!(r.to.id, 500);
            assert!(r.message.terms[0].equals(&Value::String("Bob".to_string())));
        },
        other => panic!("expected a run, got {:?}", other),
    }
    assert!(agent.scope.get_str("last").unwrap().equals(&Value::String("Bob".to_string())));
}

#[test]
fn dynamic_agent_reports_missing_handlers() {
    let mut agent = make_agent();
    let msg = Message::new(vec![Value::Word("bye".to_string())], Some(Channel::from_uuid(500)));
    match agent.handle_message(&msg, &Vec::new(), FUEL) {
        Handled::NoHandler(Some(o)) => match &o.message.terms[0] {
            Value::Error(RuntimeError::HandlerNotFound(text)) => assert!(text.contains("bye")),
            other => panic!("expected HandlerNotFound, got {:?}", other),
        },
        other => panic!("expected no handler, got {:?}", other),
    }
    assert!(agent.scope.get_str("last").is_none());
}

#[test]
fn dynamic_agent_waits_for_outside_work() {
    let block = Block::new(vec![Statement::Handler(Box::new(Handler::new(
        Pattern::new(vec![TypeExpr::new_word("ping".to_string())]),
        Block::new(vec![Statement::Expr(Expr::Call(CallExpr::new(
            Expr::Variable("Io".to_string()),
            vec![Box::new(Expr::Value(Value::Word("println".to_string())))],
        )))]),
    )))]);
    let mut agent = match DynamicAgent::from_block(
        &"Pinger".to_string(),
        &block,
        Scope::new(),
        Channel::from_uuid(8),
        &defaults(),
        &Vec::new(),
        FUEL,
    ) {
        Setup::Ready(a) => a,
        other => panic!("expected ready, got {:?}", other),
    };
    let msg = Message::new(vec![Value::Word("ping".to_string())], None);
    match agent.handle_message(&msg, &Vec::new(), FUEL) {
        Handled::Waiting(run) => match run.requests.last() {
            Some(Request::Send { target, .. }) => assert_eq!(target.id, 1),
            other => panic!("expected a send to Io, got {:?}", other),
        },
        other => panic!("expected to wait, got {:?}", other),
    }
    assert!(matches!(agent.handle_message(&msg, &vec![Event::Sent], FUEL), Handled::Ran { .. }));
}

#[test]
fn default_channels_are_named() {
    let names: Vec<String> = defaults().get_channels().into_iter().map(|(n, _)| n).collect();
    assert_eq!(names, vec!["Io", "Fs", "Registry", "agent", "spawn", "new"]);
    let agents = DefaultAgents::new();
    assert!(agents.registry_agent.contains_key(&"List".to_string()));
}

#[test]
fn banner_lines_are_trimmed() {
    let lines: Vec<String> = vec!["  ", "\t", "ab", " ", "cd", "\u{3000}"].into_iter().map(String::from).collect();
    assert_eq!(trim_blank_lines_around(&lines), vec!["ab".to_string(), " ".to_string(), "cd".to_string()]);
    let blank: Vec<String> = vec![" ".to_string(), "".to_string()];
    assert_eq!(trim_blank_lines_around(&blank), blank);
    assert!(line_is_blank("\u{2028} \u{a0}"));
    assert!(!line_is_blank(" x "));
}

#[test]
fn uuid_text_is_hyphenated_lowercase_hex() {
    let id: u128 = 0x0123_4567_89ab_cdef_0011_2233_4455_6677;
    assert_eq!(Channel::from_uuid(id).uuid_text(), "01234567-89ab-cdef-0011-223344556677");
    assert_eq!(Channel::from_uuid(id).digest_text(), "Channel(44556677)");
    assert_eq!(Uuid7(id).to_text(), "01234567-89ab-cdef-0011-223344556677");
    let fresh = Uuid7::new();
    assert_eq!(fresh.to_text().len(), 36);
    let c = Channel::new();
    assert_eq!((c.id >> 76) & 0xf, 7);
    assert_eq!((c.id >> 62) & 0x3, 2);
    assert_eq!((fresh.0 >> 76) & 0xf, 7);
}
