use komrad::agent::{LoopAction, LoopEvent, loop_step, stop_targets};
use komrad::assert_agent::AssertAgent;
use komrad::ast::{Block, Statement, Value};
use komrad::channel::{Channel, ControlMessage};
use komrad::error::RuntimeError;
use komrad::fs_agent::{FsAgent, FsCommand, FsResult};
use komrad::io_agent::{IoAction, IoAgent, IoInterface, Transcript, term_to_text};
use komrad::json_agent::{JsonAgent, JsonRequest};
use komrad::list_agent::{ListAgent, StdLibAgent};
use komrad::message::Message;
use komrad::number::Number;
use komrad::ollama_agent::{OllamaAction, OllamaAgentFactory};
use komrad::registry::{AgentAgent, RegistryAction, RegistryAgent, RegistryFactory, SpawnAgent, spawned_reply};
use komrad::scope::Scope;

fn word(w: &str) -> Value {
    Value::Word(w.to_string())
}

fn reply_channel() -> Channel {
    Channel::from_uuid(0xabc)
}

fn only_term(out: Option<komrad::agent::Outgoing>) -> Value {
    let o = out.expect("expected a reply");
    assert_eq!(o.to.id, 0xabc);
    assert!(o.message.reply_to.is_none());
    assert_eq!(o.message.terms.len(), 1);
    o.message.terms.into_iter().next().unwrap()
}

// ------------------------------------------------------------------ list

#[test]
fn test_stdlib_agent_spawn() {
    let stdlib = StdLibAgent;
    let msg = Message::new(vec![word("List"), Value::Number(Number::Int(1))], Some(reply_channel()));
    let spawn = stdlib.handle_message(&msg).expect("Should ask for a list agent");
    assert_eq!(spawn.reply_to.id, 0xabc);
    assert_eq!(spawn.agent.items.len(), 1);
    let reply = StdLibAgent::spawned_reply(Channel::from_uuid(5));
    match &reply.terms[0] {
        Value::Channel(c) => assert_eq!(c.id, 5),
        other => panic!("Expected a Channel, got: {:?}", other),
    }
    let no_reply = Message::new(vec![word("List")], None);
    assert!(stdlib.handle_message(&no_reply).is_none());
}

#[test]
fn test_list_agent_spawn_items() {
    let mut list = ListAgent::new(vec![Value::Number(Number::Int(1)), Value::Number(Number::Int(2))]);
    let msg = Message::new(vec![word("items")], Some(reply_channel()));
    let items = only_term(list.handle_message(&msg));
    match items {
        Value::List(vs) => assert_eq!(vs.len(), 2),
        other => panic!("expected a list, got {:?}", other),
    }
}

#[test]
fn test_list_agent_spawn_add_and_length() {
    let mut list = ListAgent::new(vec![]);
    let add = Message::new(vec![word("add"), Value::Number(Number::Int(42))], Some(reply_channel()));
    assert!(only_term(list.handle_message(&add)).equals(&Value::String("ok".to_string())));
    let len = Message::new(vec![word("length")], Some(reply_channel()));
    match only_term(list.handle_message(&len)) {
        Value::Number(Number::Int(n)) => assert_eq!(n, 1),
        other => panic!("Expected length=1, got: {:?}", other),
    }
}

#[test]
fn test_list_agent_spawn_get() {
    let mut list = ListAgent::new(vec![Value::String("a".to_string()), Value::String("b".to_string())]);
    let get = Message::new(vec![word("get"), Value::Number(Number::Int(1))], Some(reply_channel()));
    assert!(only_term(list.handle_message(&get)).equals(&Value::String("b".to_string())));
    let past_end = Message::new(vec![word("get"), Value::Number(Number::UInt(7))], Some(reply_channel()));
    assert!(only_term(list.handle_message(&past_end)).is_empty());
}

#[test]
fn list_agent_answers_unknown_commands_with_error() {
    let mut list = ListAgent::new(vec![]);
    let msg = Message::new(vec![word("frobnicate")], Some(reply_channel()));
    assert!(only_term(list.handle_message(&msg)).equals(&Value::String("error".to_string())));
    let no_cmd = Message::new(vec![Value::Number(Number::Int(3))], Some(reply_channel()));
    assert!(only_term(list.handle_message(&no_cmd)).equals(&Value::String("error".to_string())));
    let add_nothing = Message::new(vec![word("add")], Some(reply_channel()));
    assert!(list.handle_message(&add_nothing).is_none());
    assert_eq!(list.handle_get_length(), 0);
}

// ------------------------------------------------------------------ registry

fn noop_block() -> Block {
    Block::new(vec![Statement::NoOp])
}

#[test]
fn test_define_agent_valid() {
    let mut registry = RegistryAgent::new();
    let msg = Message::new(
        vec![word("define"), word("agent"), word("Alice"), Value::Block(Box::new(noop_block()))],
        Some(reply_channel()),
    );
    match registry.handle_message(&msg) {
        RegistryAction::Reply(o) => {
            assert_eq!(o.message.terms.len(), 1);
            assert!(o.message.terms[0].equals(&word("Alice")));
        },
        other => panic!("expected a reply, got {:?}", other),
    }
    assert!(registry.contains_key(&"Alice".to_string()));
    match registry.get(&"Alice".to_string()) {
        Some(RegistryFactory::FromBlock(block)) => {
            assert_eq!(block.statements().len(), 1);
            assert!(block.statements()[0].is_no_op(), "Expected a NoOp statement");
        },
        _ => panic!("Expected a block, got something else"),
    }
}

#[test]
fn test_define_agent_invalid() {
    let mut registry = RegistryAgent::new();
    let msg = Message::new(
        vec![word("define"), word("agent"), word("Alice"), Value::String("not a block".to_string())],
        Some(reply_channel()),
    );
    match registry.handle_message(&msg) {
        RegistryAction::Reply(o) => {
            assert!(o.message.terms[0].equals(&Value::Error(RuntimeError::InvalidAgentDefinition)))
        },
        other => panic!("expected a reply, got {:?}", other),
    }
    assert!(!registry.contains_key(&"Alice".to_string()));
}

#[test]
fn test_spawn_agent_defined() {
    let mut registry = RegistryAgent::new();
    registry.insert("Alice".to_string(), RegistryFactory::FromBlock(noop_block()));
    let msg = Message::new(vec![word("spawn"), word("agent"), word("Alice")], Some(reply_channel()));
    match registry.handle_message(&msg) {
        RegistryAction::Spawn(order) => {
            assert_eq!(order.name, "Alice");
            assert!(matches!(order.factory, RegistryFactory::FromBlock(_)));
            assert_eq!(order.init.statements().len(), 0);
            assert_eq!(order.reply_to.unwrap().id, 0xabc);
            let made = Channel::from_uuid(0x123);
            let reply = spawned_reply(order.reply_to, made).expect("the asker gave a reply channel");
            assert_eq!(reply.to.id, 0xabc);
            assert!(reply.message.reply_to.is_none());
            match reply.message.terms.get(0) {
                Some(Value::Channel(ch)) => assert_eq!(ch.id, 0x123),
                other => panic!("Expected a channel, got {:?}", other),
            }
            assert_eq!(reply.message.terms.len(), 1);
            assert!(spawned_reply(None, made).is_none());
        },
        other => panic!("Expected a spawn order, got {:?}", other),
    }
}

#[test]
fn test_spawn_agent_not_defined() {
    let mut registry = RegistryAgent::new();
    let msg = Message::new(vec![word("spawn"), word("agent"), word("Bob")], Some(reply_channel()));
    match registry.handle_message(&msg) {
        RegistryAction::Reply(o) => {
            assert!(o.message.terms[0].equals(&Value::Error(RuntimeError::AgentNotRegistered)))
        },
        other => panic!("expected a reply, got {:?}", other),
    }
}

#[test]
fn registry_knows_the_list_agent_and_ignores_other_commands() {
    let mut registry = RegistryAgent::new();
    assert!(matches!(registry.get(&"List".to_string()), Some(RegistryFactory::FromFactory(_))));
    let msg = Message::new(vec![word("hello")], Some(reply_channel()));
    assert!(matches!(registry.handle_message(&msg), RegistryAction::Nothing));
    let short = Message::new(vec![word("spawn"), word("agent")], Some(reply_channel()));
    match registry.handle_message(&short) {
        RegistryAction::Reply(o) => {
            assert!(o.message.terms[0].equals(&Value::Error(RuntimeError::InvalidAgentDefinition)))
        },
        other => panic!("expected a reply, got {:?}", other),
    }
}

#[test]
fn test_agent_agent_define_forwarding() {
    let agent_agent = AgentAgent;
    let msg = Message::new(vec![word("Alice"), Value::Block(Box::new(noop_block()))], Some(reply_channel()));
    let forwarded = agent_agent.handle_message(&msg);
    assert_eq!(forwarded.terms.len(), 4);
    assert!(forwarded.terms[0].equals(&word("define")));
    assert!(forwarded.terms[1].equals(&word("agent")));
    let mut registry = RegistryAgent::new();
    match registry.handle_message(&forwarded) {
        RegistryAction::Reply(o) => assert!(o.message.terms[0].equals(&word("Alice"))),
        other => panic!("expected a reply, got {:?}", other),
    }
    assert!(registry.contains_key(&"Alice".to_string()));
}

#[test]
fn test_spawn_agent_forwarding_defined() {
    let mut registry = RegistryAgent::new();
    registry.insert("Bob".to_string(), RegistryFactory::FromBlock(Block::new(vec![])));
    let msg = Message::new(vec![word("Bob")], Some(reply_channel()));
    let forwarded = SpawnAgent.handle_message(&msg);
    assert!(matches!(registry.handle_message(&forwarded), RegistryAction::Spawn(_)));
}

// The forwarding test of the `spawn` keyword expects `AgentNotFound` for an
// unknown name, while the registry's own test, and the registry's code,
// answer `AgentNotRegistered`; the `spawn` keyword only forwards to the
// registry, so this follows the registry.
#[test]
fn spawn_keyword_forwards_unknown_names() {
    let mut registry = RegistryAgent::new();
    let msg = Message::new(vec![word("agent"), word("NonExistent")], Some(reply_channel()));
    let forwarded = SpawnAgent.handle_message(&msg);
    // `spawn agent agent NonExistent`: the third term is the word `agent`,
    // which names no agent.
    match registry.handle_message(&forwarded) {
        RegistryAction::Reply(o) => {
            assert!(o.message.terms[0].equals(&Value::Error(RuntimeError::AgentNotRegistered)))
        },
        other => panic!("expected a reply, got {:?}", other),
    }
}

// ------------------------------------------------------------------ io, assert, fs, json, ollama

#[test]
fn test_io_agent() {
    let io = IoAgent;
    let msg = Message::new(vec![word("println"), Value::String("Hello, World!".to_string())], Some(reply_channel()));
    let action = io.handle_message(&msg);
    let mut console = Transcript::new();
    io.write(&action, &mut console);
    assert_eq!(console.writes, vec![("Hello, World!".to_string(), true)]);
    match action {
        IoAction::Println { ack, .. } => assert!(only_term(ack).equals(&Value::String("ack".to_string()))),
        other => panic!("expected println, got {:?}", other),
    }
}

#[test]
fn io_agent_formats_terms() {
    let list = Value::List(vec![
        Value::String("a".to_string()),
        Value::Number(Number::Int(-3)),
        Value::Boolean(true),
        Value::Empty,
    ]);
    assert_eq!(term_to_text(&list), "[a -3 true (no formatter: Empty)]");
    assert_eq!(
        term_to_text(&Value::Channel(Channel::from_uuid(1))),
        "Channel: 00000000-0000-0000-0000-000000000001"
    );
    assert_eq!(term_to_text(&word("w")), "(no formatter: Word(\"w\"))");
    let io = IoAgent;
    assert!(matches!(io.handle_message(&Message::new(vec![word("shutdown")], None)), IoAction::Shutdown));
    assert!(matches!(io.handle_message(&Message::new(vec![word("nope")], None)), IoAction::Ignore));
    match io.handle_message(&Message::new(vec![word("print"), Value::Number(Number::UInt(5))], None)) {
        IoAction::Print { parts, ack } => {
            assert_eq!(parts, vec!["5".to_string()]);
            let mut console = Transcript::new();
            console.println("before");
            io.write(&IoAction::Print { parts: parts.clone(), ack: None }, &mut console);
            assert_eq!(console.writes, vec![("before".to_string(), true), ("5".to_string(), false)]);
            assert!(ack.is_none());
        },
        other => panic!("expected print, got {:?}", other),
    }
}

#[test]
fn assert_agent_verdicts() {
    let a = AssertAgent;
    assert!(a.handle_assert_statement(&Value::Boolean(false)).equals(&Value::Boolean(false)));
    match a.handle_assert_statement(&Value::Number(Number::Int(1))) {
        Value::Error(RuntimeError::AssertionFailed(m)) => assert_eq!(m, "Not a boolean value: Number(Int(1))"),
        other => panic!("expected an assertion failure, got {:?}", other),
    }
    let empty = Message::new(vec![], Some(reply_channel()));
    assert!(only_term(a.handle_message(&empty)).equals(&Value::Boolean(true)));
}

#[test]
fn fs_agent_requests_and_replies() {
    let fs = FsAgent;
    let msg = Message::new(vec![word("read-all"), Value::String("/tmp/x".to_string())], Some(reply_channel()));
    let req = fs.handle_message(&msg).expect("a read");
    assert_eq!(req.command, FsCommand::ReadAll);
    assert_eq!(req.path, "/tmp/x");
    assert!(only_term(fs.reply(&req, FsResult::Text("hi".to_string()))).equals(&Value::String("hi".to_string())));
    assert!(only_term(fs.reply(&req, FsResult::Failed("NotFound".to_string())))
        .equals(&Value::String("Error: NotFound".to_string())));
    match only_term(fs.reply(&req, FsResult::Names(vec!["a".to_string(), "b".to_string()]))) {
        Value::List(vs) => assert_eq!(vs.len(), 2),
        other => panic!("expected a list, got {:?}", other),
    }
    let not_a_path = Message::new(vec![word("list-dir"), Value::Number(Number::Int(1))], None);
    assert!(fs.handle_message(&not_a_path).is_none());
    let binary = Message::new(vec![word("read-all-binary"), Value::String("f".to_string())], None);
    assert_eq!(fs.handle_message(&binary).unwrap().command, FsCommand::ReadAllBinary);
}

#[test]
fn json_agent_requests_and_replies() {
    let j = JsonAgent;
    let enc = Message::new(vec![word("encode"), Value::Number(Number::Int(4))], Some(reply_channel()));
    assert!(matches!(j.handle_message(&enc), Some(JsonRequest::Encode(Value::Number(Number::Int(4))))));
    let dec = Message::new(vec![word("decode"), Value::String("[1]".to_string())], Some(reply_channel()));
    match j.handle_message(&dec) {
        Some(JsonRequest::Decode(s)) => assert_eq!(s, "[1]"),
        other => panic!("expected decode, got {:?}", other),
    }
    assert!(j.handle_message(&Message::new(vec![word("decode"), Value::Empty], None)).is_none());
    assert!(only_term(j.reply(&enc, Err("bad".to_string()))).equals(&Value::String("Error: bad".to_string())));
}

#[test]
fn ollama_agent_decisions() {
    let agent = OllamaAgentFactory.create_agent();
    assert_eq!(agent.model, "gemma3:latest");
    match agent.handle_message(&Message::new(vec![word("generate")], None)) {
        OllamaAction::Generate { prompt } => assert_eq!(prompt, "Write a poem about a cat"),
        other => panic!("expected a generation, got {:?}", other),
    }
    assert!(matches!(agent.handle_message(&Message::new(vec![word("other")], None)), OllamaAction::Stop));
    assert!(matches!(
        agent.handle_message(&Message::new(vec![word("generate"), Value::Boolean(true)], None)),
        OllamaAction::KeepRunning
    ));
    let msg = Message::new(vec![word("generate")], Some(reply_channel()));
    assert!(only_term(agent.generation_reply(&msg, Err("down".to_string())))
        .equals(&Value::Error(RuntimeError::ExternalServiceError)));
}

// ------------------------------------------------------------------ loop

#[test]
fn loop_steps_and_stop_targets() {
    assert!(matches!(loop_step(LoopEvent::Control(ControlMessage::Stop)), LoopAction::StopAll));
    assert!(matches!(loop_step(LoopEvent::Closed), LoopAction::Exit));
    let mut scope = Scope::new();
    scope.set("friend".to_string(), Value::Channel(Channel::from_uuid(3)));
    scope.set("n".to_string(), Value::Number(Number::Int(3)));
    let targets = stop_targets(&scope, Channel::from_uuid(9));
    assert_eq!(targets.iter().map(|c| c.id).collect::<Vec<_>>(), vec![3, 9]);
}
