//! The registry of agent definitions, and the two keyword agents, `agent`
//! and `spawn`, that forward to it.
//!
//! `define agent Name { ... }` records a definition; `spawn agent Name`
//! asks for a new agent made from one.
use vstd::prelude::*;
use crate::agent::{Outgoing, SpecOutgoing, outgoing_view, reply_single, spec_reply};
use crate::ast::{Block, SpecBlock, SpecStatement, SpecValue, Value, lemma_values_of, values_of};
use crate::channel::Channel;
use crate::error::{RuntimeError, SpecRuntimeError};
use crate::list_agent::ListAgentFactory;
use crate::message::{Message, SpecMessage, spec_first_word};
use crate::text::{copy_string, has_text, text_of};

verus! {

broadcast use vstd::std_specs::vec::group_vec_axioms;

/// How the registry makes an agent of a registered name.
#[derive(Debug)]
pub enum RegistryFactory {
    /// From the block of a `define agent` message.
    FromBlock(Block),
    /// From a built-in factory.
    FromFactory(ListAgentFactory),
}

/// The mathematical form of a [`RegistryFactory`].
pub enum SpecFactory {
    FromBlock(SpecBlock),
    List,
}

impl View for RegistryFactory {
    type V = SpecFactory;

    open spec fn view(&self) -> SpecFactory {
        match self {
            RegistryFactory::FromBlock(b) => SpecFactory::FromBlock(b@),
            RegistryFactory::FromFactory(_) => SpecFactory::List,
        }
    }
}

impl RegistryFactory {
    /// A copy of the factory.
    pub fn duplicate(&self) -> (r: RegistryFactory)
        ensures
            r@ == self@,
    {
        match self {
            RegistryFactory::FromBlock(b) => RegistryFactory::FromBlock(b.duplicate()),
            RegistryFactory::FromFactory(f) => RegistryFactory::FromFactory(*f),
        }
    }
}

/// The views of the first `n` entries, as a map from names to factories.
pub open spec fn entries_map(es: Seq<(String, RegistryFactory)>, n: int) -> Map<Seq<char>, SpecFactory>
    decreases n,
{
    if n <= 0 || n > es.len() {
        Map::empty()
    } else {
        entries_map(es, n - 1).insert(es[n - 1].0@, es[n - 1].1@)
    }
}

/// No name is registered twice.
pub open spec fn entry_names_unique(es: Seq<(String, RegistryFactory)>) -> bool {
    forall|i: int, j: int| 0 <= i < j < es.len() ==> (#[trigger] es[i]).0@ != (#[trigger] es[j]).0@
}

proof fn lemma_entries_prefix(s: Seq<(String, RegistryFactory)>, t: Seq<(String, RegistryFactory)>, n: int)
    requires
        0 <= n <= s.len(),
        n <= t.len(),
        forall|i: int| 0 <= i < n ==> (#[trigger] s[i]).0@ == t[i].0@ && s[i].1@ == t[i].1@,
    ensures
        entries_map(s, n) == entries_map(t, n),
    decreases n,
{
    if n > 0 {
        lemma_entries_prefix(s, t, n - 1);
    }
}

proof fn lemma_entries_lookup(es: Seq<(String, RegistryFactory)>, n: int, k: Seq<char>)
    requires
        0 <= n <= es.len(),
        entry_names_unique(es),
    ensures
        entries_map(es, n).contains_key(k) <==> exists|i: int| 0 <= i < n && (#[trigger] es[i]).0@ == k,
        forall|i: int| 0 <= i < n && (#[trigger] es[i]).0@ == k ==> entries_map(es, n)[k] == es[i].1@,
    decreases n,
{
    if n > 0 {
        lemma_entries_lookup(es, n - 1, k);
        if es[n - 1].0@ != k {
            assert forall|i: int| 0 <= i < n && (#[trigger] es[i]).0@ == k implies i < n - 1 by {}
        } else {
            assert forall|i: int| 0 <= i < n && (#[trigger] es[i]).0@ == k implies i == n - 1 by {
                if i < n - 1 {
                    assert(es[i].0@ != es[n - 1].0@);
                }
            }
        }
    }
}

proof fn lemma_entries_update(es: Seq<(String, RegistryFactory)>, i: int, x: (String, RegistryFactory), n: int)
    requires
        0 <= i < es.len(),
        i < n <= es.len(),
        entry_names_unique(es),
        x.0@ == es[i].0@,
    ensures
        entries_map(es.update(i, x), n) == entries_map(es, n).insert(x.0@, x.1@),
    decreases n,
{
    let u = es.update(i, x);
    if n == i + 1 {
        lemma_entries_prefix(u, es, i);
        assert(entries_map(es, n).insert(x.0@, x.1@) =~= entries_map(es, i).insert(x.0@, x.1@));
    } else {
        lemma_entries_update(es, i, x, n - 1);
        assert(es[n - 1].0@ != x.0@);
        assert(entries_map(u, n) =~= entries_map(es, n).insert(x.0@, x.1@));
    }
}

/// The agent definitions, by name.
#[derive(Debug)]
pub struct RegistryAgent {
    entries: Vec<(String, RegistryFactory)>,
}

impl View for RegistryAgent {
    type V = Map<Seq<char>, SpecFactory>;

    closed spec fn view(&self) -> Map<Seq<char>, SpecFactory> {
        entries_map(self.entries@, self.entries@.len() as int)
    }
}

/// What a message asks of the registry.
#[derive(Debug)]
pub enum RegistryAction {
    /// Nothing to do.
    Nothing,
    /// Send this reply.
    Reply(Outgoing),
    /// Make and start an agent.
    Spawn(SpawnOrder),
}

/// An agent to make: its name, how to make it, the block whose run gives
/// its initial scope, and the channel to tell its channel to.
#[derive(Debug)]
pub struct SpawnOrder {
    pub name: String,
    pub factory: RegistryFactory,
    pub init: Block,
    pub reply_to: Option<Channel>,
}

/// The mathematical form of a [`RegistryAction`].
pub enum SpecRegistryAction {
    Nothing,
    Reply(SpecOutgoing),
    Spawn { name: Seq<char>, factory: SpecFactory, init: SpecBlock, reply_to: Option<Channel> },
}

impl View for RegistryAction {
    type V = SpecRegistryAction;

    open spec fn view(&self) -> SpecRegistryAction {
        match self {
            RegistryAction::Nothing => SpecRegistryAction::Nothing,
            RegistryAction::Reply(o) => SpecRegistryAction::Reply(o@),
            RegistryAction::Spawn(s) => SpecRegistryAction::Spawn {
                name: s.name@,
                factory: s.factory@,
                init: s.init@,
                reply_to: s.reply_to,
            },
        }
    }
}

/// The reply that tells the asker of a spawn order the channel of the
/// agent it made: exactly one message, whose one term is that channel,
/// sent to the order's reply channel; nothing when the order has none.
pub open spec fn spec_spawned_reply(reply_to: Option<Channel>, made: Channel) -> Option<SpecOutgoing> {
    match reply_to {
        Some(to) => Some(SpecOutgoing { to, message: SpecMessage { terms: seq![SpecValue::Channel(made)], reply_to: None } }),
        None => None,
    }
}

/// The reply to a spawn order once the agent is made (see
/// [`spec_spawned_reply`]).
pub fn spawned_reply(reply_to: Option<Channel>, made: Channel) -> (r: Option<Outgoing>)
    ensures
        outgoing_view(r) == spec_spawned_reply(reply_to, made),
{
    match reply_to {
        Some(to) => {
            let mut terms: Vec<Value> = Vec::new();
            terms.push(Value::Channel(made));
            proof {
                lemma_values_of(terms@);
                assert(values_of(terms@) =~= seq![SpecValue::Channel(made)]);
            }
            Some(Outgoing { to, message: Message { terms, reply_to: None } })
        },
        None => None,
    }
}

/// A reply as an action: sending it, or nothing when there is none.
pub open spec fn reply_action(o: Option<SpecOutgoing>) -> SpecRegistryAction {
    match o {
        Some(x) => SpecRegistryAction::Reply(x),
        None => SpecRegistryAction::Nothing,
    }
}

/// Whether a term is the word `agent`.
pub open spec fn is_agent_word(v: SpecValue) -> bool {
    v == SpecValue::Word("agent"@)
}

/// The reply to a malformed request.
pub open spec fn invalid_definition(msg: SpecMessage) -> SpecRegistryAction {
    reply_action(spec_reply(msg, seq![SpecValue::Error(SpecRuntimeError::InvalidAgentDefinition)]))
}

/// The registry afterwards and what it does, for one message.
///
/// - `define agent Name {block}` registers the block under `Name`,
///   replacing an earlier definition, and replies with the word `Name`;
///   fewer than four terms, a second term other than the word `agent`, a
///   third term that is not a word or a fourth that is not a block is
///   answered `InvalidAgentDefinition`.
/// - `spawn agent Name [{block}]` asks for a new agent made by `Name`'s
///   factory, its initial scope made by running the block (an empty block
///   when the fourth term is missing or not a block); an unregistered name
///   is answered `AgentNotRegistered`, and a malformed request
///   `InvalidAgentDefinition`.
/// - Anything else is ignored.
pub open spec fn spec_registry_handle(reg: Map<Seq<char>, SpecFactory>, msg: SpecMessage) -> (Map<Seq<char>, SpecFactory>, SpecRegistryAction) {
    let t = msg.terms;
    match spec_first_word(msg) {
        Some(cmd) => {
            if cmd == "define"@ {
                if t.len() >= 4 && is_agent_word(t[1]) && t[2] is Word && t[3] is Block {
                    let name = t[2]->Word_0;
                    (
                        reg.insert(name, SpecFactory::FromBlock(t[3]->Block_0)),
                        reply_action(spec_reply(msg, seq![SpecValue::Word(name)])),
                    )
                } else {
                    (reg, invalid_definition(msg))
                }
            } else if cmd == "spawn"@ {
                if t.len() >= 3 && is_agent_word(t[1]) && t[2] is Word {
                    let name = t[2]->Word_0;
                    let init = if t.len() > 3 && t[3] is Block {
                        t[3]->Block_0
                    } else {
                        SpecBlock { statements: Seq::<SpecStatement>::empty() }
                    };
                    if reg.contains_key(name) {
                        (reg, SpecRegistryAction::Spawn { name, factory: reg[name], init, reply_to: msg.reply_to })
                    } else {
                        (reg, reply_action(spec_reply(msg, seq![SpecValue::Error(SpecRuntimeError::AgentNotRegistered)])))
                    }
                } else {
                    (reg, invalid_definition(msg))
                }
            } else {
                (reg, SpecRegistryAction::Nothing)
            }
        },
        None => (reg, SpecRegistryAction::Nothing),
    }
}

fn as_action(o: Option<Outgoing>) -> (r: RegistryAction)
    ensures
        r@ == reply_action(outgoing_view(o)),
{
    match o {
        Some(x) => RegistryAction::Reply(x),
        None => RegistryAction::Nothing,
    }
}

fn is_agent_term(v: &Value) -> (r: bool)
    ensures
        r == is_agent_word(v@),
{
    match v {
        Value::Word(w) => has_text(w, "agent"),
        _ => false,
    }
}

impl RegistryAgent {
    #[verifier::type_invariant]
    spec fn inv(self) -> bool {
        entry_names_unique(self.entries@)
    }

    /// A registry that knows the built-in `List` agent.
    pub fn new() -> (r: RegistryAgent)
        ensures
            r@ == Map::<Seq<char>, SpecFactory>::empty().insert("List"@, SpecFactory::List),
    {
        let mut entries: Vec<(String, RegistryFactory)> = Vec::new();
        entries.push((text_of("List"), RegistryFactory::FromFactory(ListAgentFactory)));
        let r = RegistryAgent { entries };
        proof {
            assert(entries_map(r.entries@, 0) =~= Map::<Seq<char>, SpecFactory>::empty());
            assert(r@ =~= Map::<Seq<char>, SpecFactory>::empty().insert("List"@, SpecFactory::List));
        }
        r
    }

    fn position_of(&self, name: &String) -> (r: Option<usize>)
        ensures
            match r {
                Some(i) => i < self.entries@.len() && self.entries@[i as int].0@ == name@,
                None => forall|i: int| 0 <= i < self.entries@.len() ==> (#[trigger] self.entries@[i]).0@ != name@,
            },
    {
        let mut i: usize = 0;
        while i < self.entries.len()
            invariant
                i <= self.entries@.len(),
                forall|j: int| 0 <= j < i ==> (#[trigger] self.entries@[j]).0@ != name@,
            decreases self.entries@.len() - i,
        {
            if self.entries[i].0 == *name {
                return Some(i);
            }
            i += 1;
        }
        None
    }

    /// Whether a name is registered.
    pub fn contains_key(&self, name: &String) -> (r: bool)
        ensures
            r == self@.contains_key(name@),
    {
        proof {
            use_type_invariant(self);
            lemma_entries_lookup(self.entries@, self.entries@.len() as int, name@);
        }
        match self.position_of(name) {
            Some(_) => true,
            None => false,
        }
    }

    /// A copy of the factory registered under a name.
    pub fn get(&self, name: &String) -> (r: Option<RegistryFactory>)
        ensures
            match r {
                Some(f) => self@.contains_key(name@) && self@[name@] == f@,
                None => !self@.contains_key(name@),
            },
    {
        proof {
            use_type_invariant(self);
            lemma_entries_lookup(self.entries@, self.entries@.len() as int, name@);
        }
        match self.position_of(name) {
            Some(i) => Some(self.entries[i].1.duplicate()),
            None => None,
        }
    }

    /// Registers a factory under a name, replacing an earlier one.
    pub fn insert(&mut self, name: String, factory: RegistryFactory)
        ensures
            final(self)@ == old(self)@.insert(name@, factory@),
    {
        proof {
            use_type_invariant(&*self);
        }
        let ghost old_es = self.entries@;
        let pos = self.position_of(&name);
        let mut es: Vec<(String, RegistryFactory)> = Vec::new();
        std::mem::swap(&mut es, &mut self.entries);
        match pos {
            Some(i) => {
                proof {
                    lemma_entries_update(old_es, i as int, (name, factory), old_es.len() as int);
                }
                es.set(i, (name, factory));
                proof {
                    assert forall|a: int, b: int| 0 <= a < b < es@.len() implies
                        (#[trigger] es@[a]).0@ != (#[trigger] es@[b]).0@ by {
                        assert(old_es[a].0@ != old_es[b].0@);
                    }
                }
            },
            None => {
                es.push((name, factory));
                proof {
                    lemma_entries_prefix(es@, old_es, old_es.len() as int);
                }
            },
        }
        std::mem::swap(&mut es, &mut self.entries);
        proof {
            assert(self@ =~= old(self)@.insert(name@, factory@));
        }
    }

    /// Answers a message (see [`spec_registry_handle`]); the registry
    /// always keeps running.
    pub fn handle_message(&mut self, msg: &Message) -> (r: RegistryAction)
        ensures
            spec_registry_handle(old(self)@, msg@) == (final(self)@, r@),
    {
        proof {
            lemma_values_of(msg.terms@);
        }
        let t = &msg.terms;
        match msg.first_word() {
            Some(cmd) => {
                if has_text(&cmd, "define") {
                    if t.len() < 4 || !is_agent_term(&t[1]) {
                        return as_action(reply_single(msg, Value::Error(RuntimeError::InvalidAgentDefinition)));
                    }
                    match (&t[2], &t[3]) {
                        (Value::Word(name), Value::Block(b)) => {
                            self.insert(copy_string(name), RegistryFactory::FromBlock(b.duplicate()));
                            as_action(reply_single(msg, Value::Word(copy_string(name))))
                        },
                        _ => as_action(reply_single(msg, Value::Error(RuntimeError::InvalidAgentDefinition))),
                    }
                } else if has_text(&cmd, "spawn") {
                    if t.len() < 3 || !is_agent_term(&t[1]) {
                        return as_action(reply_single(msg, Value::Error(RuntimeError::InvalidAgentDefinition)));
                    }
                    match &t[2] {
                        Value::Word(name) => {
                            let init = if t.len() > 3 {
                                match &t[3] {
                                    Value::Block(b) => b.duplicate(),
                                    _ => Block { statements: Vec::new() },
                                }
                            } else {
                                Block { statements: Vec::new() }
                            };
                            proof {
                                crate::ast::lemma_statements_of(init.statements@);
                                if !(t@.len() > 3 && msg@.terms[3] is Block) {
                                    assert(init@.statements =~= Seq::<SpecStatement>::empty());
                                }
                            }
                            match self.get(name) {
                                Some(factory) => RegistryAction::Spawn(SpawnOrder {
                                    name: copy_string(name),
                                    factory,
                                    init,
                                    reply_to: msg.reply_to,
                                }),
                                None => as_action(reply_single(msg, Value::Error(RuntimeError::AgentNotRegistered))),
                            }
                        },
                        _ => as_action(reply_single(msg, Value::Error(RuntimeError::InvalidAgentDefinition))),
                    }
                } else {
                    RegistryAction::Nothing
                }
            },
            None => RegistryAction::Nothing,
        }
    }
}

/// The message that the `agent` keyword forwards to the registry:
/// `define agent` followed by the terms it received, with the same reply
/// channel.
pub open spec fn spec_define_forward(msg: SpecMessage) -> SpecMessage {
    SpecMessage {
        terms: seq![SpecValue::Word("define"@), SpecValue::Word("agent"@)] + msg.terms,
        reply_to: msg.reply_to,
    }
}

/// The message that the `spawn` keyword forwards to the registry: `spawn
/// agent` followed by the terms it received, with the same reply channel.
pub open spec fn spec_spawn_forward(msg: SpecMessage) -> SpecMessage {
    SpecMessage {
        terms: seq![SpecValue::Word("spawn"@), SpecValue::Word("agent"@)] + msg.terms,
        reply_to: msg.reply_to,
    }
}

fn prefixed(first: &str, msg: &Message) -> (r: Message)
    ensures
        r@.terms == seq![SpecValue::Word(first@), SpecValue::Word("agent"@)] + msg@.terms,
        r@.reply_to == msg@.reply_to,
{
    proof {
        lemma_values_of(msg.terms@);
    }
    let mut terms: Vec<Value> = Vec::new();
    terms.push(Value::word(first));
    terms.push(Value::word("agent"));
    let mut i: usize = 0;
    while i < msg.terms.len()
        invariant
            i <= msg.terms@.len(),
            terms@.len() == i + 2,
            terms@[0]@ == SpecValue::Word(first@),
            terms@[1]@ == SpecValue::Word("agent"@),
            forall|j: int| 0 <= j < i ==> (#[trigger] terms@[j + 2])@ == msg.terms@[j]@,
        decreases msg.terms@.len() - i,
    {
        terms.push(msg.terms[i].duplicate());
        i += 1;
    }
    proof {
        lemma_values_of(terms@);
        assert(values_of(terms@) =~= seq![SpecValue::Word(first@), SpecValue::Word("agent"@)] + msg@.terms) by {
            assert forall|j: int| 2 <= j < terms@.len() implies (#[trigger] terms@[j])@ == msg@.terms[j - 2] by {
                assert(terms@[(j - 2) + 2]@ == msg.terms@[j - 2]@);
            }
        }
    }
    Message { terms, reply_to: msg.reply_to }
}

/// The keyword agent `agent`: it turns `agent Name {block}` into a
/// definition for the registry.
#[derive(Debug, Clone, Copy)]
pub struct AgentAgent;

impl AgentAgent {
    /// The message to forward to the registry (see [`spec_define_forward`]).
    pub fn handle_message(&self, msg: &Message) -> (r: Message)
        ensures
            r@ == spec_define_forward(msg@),
    {
        prefixed("define", msg)
    }
}

/// The keyword agent `spawn`: it turns `spawn Name` into a request to the
/// registry.
#[derive(Debug, Clone, Copy)]
pub struct SpawnAgent;

impl SpawnAgent {
    /// The message to forward to the registry (see [`spec_spawn_forward`]).
    pub fn handle_message(&self, msg: &Message) -> (r: Message)
        ensures
            r@ == spec_spawn_forward(msg@),
    {
        prefixed("spawn", msg)
    }
}

/// A `define agent Name {block}` request followed by `spawn agent Name`
/// asks for an agent made from that block, whatever was registered
/// before.
pub proof fn lemma_define_then_spawn(reg: Map<Seq<char>, SpecFactory>, define: SpecMessage, spawn: SpecMessage)
    requires
        define.terms.len() >= 4,
        define.terms[0] == SpecValue::Word("define"@),
        is_agent_word(define.terms[1]),
        define.terms[2] is Word,
        define.terms[3] is Block,
        spawn.terms.len() == 3,
        spawn.terms[0] == SpecValue::Word("spawn"@),
        is_agent_word(spawn.terms[1]),
        spawn.terms[2] == define.terms[2],
    ensures
        ({
            let after = spec_registry_handle(reg, define).0;
            &&& after.contains_key(define.terms[2]->Word_0)
            &&& spec_registry_handle(after, spawn).1 == SpecRegistryAction::Spawn {
                name: define.terms[2]->Word_0,
                factory: SpecFactory::FromBlock(define.terms[3]->Block_0),
                init: SpecBlock { statements: Seq::<SpecStatement>::empty() },
                reply_to: spawn.reply_to,
            }
        }),
{
    reveal_strlit("define");
    reveal_strlit("spawn");
    assert("spawn"@.len() != "define"@.len());
    assert(spec_first_word(define) == Some("define"@));
    assert(spec_first_word(spawn) == Some("spawn"@));
}

/// Asking for an agent under a name that was never registered is answered
/// `AgentNotRegistered`, and leaves the registry as it was.
pub proof fn lemma_spawn_unregistered(reg: Map<Seq<char>, SpecFactory>, spawn: SpecMessage)
    requires
        spawn.terms.len() >= 3,
        spawn.terms[0] == SpecValue::Word("spawn"@),
        is_agent_word(spawn.terms[1]),
        spawn.terms[2] is Word,
        !reg.contains_key(spawn.terms[2]->Word_0),
    ensures
        spec_registry_handle(reg, spawn) == (
            reg,
            reply_action(spec_reply(spawn, seq![SpecValue::Error(SpecRuntimeError::AgentNotRegistered)])),
        ),
{
    reveal_strlit("define");
    reveal_strlit("spawn");
    assert("spawn"@.len() != "define"@.len());
    assert(spec_first_word(spawn) == Some("spawn"@));
}

/// What the `agent` keyword forwards for `agent Name {block}` registers
/// the block under `Name` in the registry.
pub proof fn lemma_agent_keyword_defines(reg: Map<Seq<char>, SpecFactory>, msg: SpecMessage)
    requires
        msg.terms.len() >= 2,
        msg.terms[0] is Word,
        msg.terms[1] is Block,
    ensures
        spec_registry_handle(reg, spec_define_forward(msg)) == (
            reg.insert(msg.terms[0]->Word_0, SpecFactory::FromBlock(msg.terms[1]->Block_0)),
            reply_action(spec_reply(msg, seq![msg.terms[0]])),
        ),
{
    reveal_strlit("define");
    reveal_strlit("agent");
    let f = spec_define_forward(msg);
    assert(f.terms[2] == msg.terms[0]);
    assert(f.terms[3] == msg.terms[1]);
    assert(spec_reply(f, seq![msg.terms[0]]) == spec_reply(msg, seq![msg.terms[0]]));
}

/// What the `spawn` keyword forwards for `spawn Name` asks the registry
/// for an agent made by `Name`'s factory, when `Name` is registered.
pub proof fn lemma_spawn_keyword_spawns(reg: Map<Seq<char>, SpecFactory>, msg: SpecMessage)
    requires
        msg.terms.len() == 1,
        msg.terms[0] is Word,
        reg.contains_key(msg.terms[0]->Word_0),
    ensures
        spec_registry_handle(reg, spec_spawn_forward(msg)) == (
            reg,
            SpecRegistryAction::Spawn {
                name: msg.terms[0]->Word_0,
                factory: reg[msg.terms[0]->Word_0],
                init: SpecBlock { statements: Seq::<SpecStatement>::empty() },
                reply_to: msg.reply_to,
            },
        ),
{
    reveal_strlit("define");
    reveal_strlit("spawn");
    reveal_strlit("agent");
    let f = spec_spawn_forward(msg);
    assert(f.terms[2] == msg.terms[0]);
    assert(f.terms.len() == 3);
    assert("spawn"@.len() != "define"@.len());
    assert(spec_first_word(f) == Some("spawn"@));
}

/// Asking for an agent under a registered name, with a reply channel,
/// leaves the registry as it was and orders an agent made by that name's
/// factory, from an empty initial block when no block is given; once it
/// is made with channel `made`, the asker receives exactly one message,
/// whose one term is `made`.
pub proof fn lemma_spawn_registered(reg: Map<Seq<char>, SpecFactory>, spawn: SpecMessage, made: Channel)
    requires
        spawn.terms.len() == 3,
        spawn.terms[0] == SpecValue::Word("spawn"@),
        is_agent_word(spawn.terms[1]),
        spawn.terms[2] is Word,
        reg.contains_key(spawn.terms[2]->Word_0),
        spawn.reply_to is Some,
    ensures
        spec_registry_handle(reg, spawn) == (
            reg,
            SpecRegistryAction::Spawn {
                name: spawn.terms[2]->Word_0,
                factory: reg[spawn.terms[2]->Word_0],
                init: SpecBlock { statements: Seq::<SpecStatement>::empty() },
                reply_to: spawn.reply_to,
            },
        ),
        spec_spawned_reply(spawn.reply_to, made) == Some(SpecOutgoing {
            to: spawn.reply_to->0,
            message: SpecMessage { terms: seq![SpecValue::Channel(made)], reply_to: None },
        }),
{
    reveal_strlit("define");
    reveal_strlit("spawn");
    assert("spawn"@.len() != "define"@.len());
    assert(spec_first_word(spawn) == Some("spawn"@));
}

/// Asking for an agent under a registered name with an initial block:
/// the registry is left as it was, and the agent is made by that name's
/// factory with exactly the given block as its initial block, whatever
/// terms follow it.
pub proof fn lemma_spawn_with_initial_block(reg: Map<Seq<char>, SpecFactory>, spawn: SpecMessage)
    requires
        spawn.terms.len() >= 4,
        spawn.terms[0] == SpecValue::Word("spawn"@),
        is_agent_word(spawn.terms[1]),
        spawn.terms[2] is Word,
        spawn.terms[3] is Block,
        reg.contains_key(spawn.terms[2]->Word_0),
    ensures
        spec_registry_handle(reg, spawn) == (
            reg,
            SpecRegistryAction::Spawn {
                name: spawn.terms[2]->Word_0,
                factory: reg[spawn.terms[2]->Word_0],
                init: spawn.terms[3]->Block_0,
                reply_to: spawn.reply_to,
            },
        ),
{
    reveal_strlit("define");
    reveal_strlit("spawn");
    assert("spawn"@.len() != "define"@.len());
    assert(spec_first_word(spawn) == Some("spawn"@));
}

} // verus!
