//! The list agent, which keeps a list of values, and the standard-library
//! agent, bound as `new`, which makes list agents.
use vstd::prelude::*;
use crate::agent::{Outgoing, SpecOutgoing, outgoing_view, reply_single, spec_reply};
use crate::ast::{SpecValue, Value, lemma_values_of, values_of};
use crate::channel::Channel;
use crate::message::{Message, SpecMessage, spec_first_word, spec_rest};
use crate::number::Number;
use crate::text::has_text;
use crate::values::dup_values;

verus! {

broadcast use vstd::std_specs::vec::group_vec_axioms;

/// The index that a `get` request names: an integer converted to `usize`
/// as Rust's `as` converts it; any other value names none.
pub open spec fn list_index(v: SpecValue) -> Option<int> {
    match v {
        SpecValue::Number(Number::Int(i)) => Some((i as usize) as int),
        SpecValue::Number(Number::UInt(u)) => Some((u as usize) as int),
        _ => None,
    }
}

/// How a list agent with the given items answers a message: its items
/// afterwards and its reply.
///
/// - `items` replies with the list of all items;
/// - `add x` appends `x` and replies `"ok"`; without `x` nothing happens;
/// - `get i` replies with item `i`, or `Empty` past the end; with no
///   index, or an index that is not a number, nothing happens;
/// - `length` replies with the number of items;
/// - any other command, or a message with no command, is answered
///   `"error"`.
pub open spec fn spec_list_handle(items: Seq<SpecValue>, msg: SpecMessage) -> (Seq<SpecValue>, Option<SpecOutgoing>) {
    let rest = spec_rest(msg);
    match spec_first_word(msg) {
        Some(w) => {
            if w == "items"@ {
                (items, spec_reply(msg, seq![SpecValue::List(items)]))
            } else if w == "add"@ {
                if rest.len() > 0 {
                    (items.push(rest[0]), spec_reply(msg, seq![SpecValue::String("ok"@)]))
                } else {
                    (items, None)
                }
            } else if w == "get"@ {
                if rest.len() > 0 && list_index(rest[0]) is Some {
                    let i = list_index(rest[0])->0;
                    let item = if i < items.len() { items[i] } else { SpecValue::Empty };
                    (items, spec_reply(msg, seq![item]))
                } else {
                    (items, None)
                }
            } else if w == "length"@ {
                (items, spec_reply(msg, seq![SpecValue::Number(Number::Int(items.len() as i64))]))
            } else {
                (items, spec_reply(msg, seq![SpecValue::String("error"@)]))
            }
        },
        None => (items, spec_reply(msg, seq![SpecValue::String("error"@)])),
    }
}

/// An agent that keeps a list of values.
#[derive(Debug)]
pub struct ListAgent {
    pub items: Vec<Value>,
}

impl ListAgent {
    /// A list agent holding the given items.
    pub fn new(initial_items: Vec<Value>) -> (r: ListAgent)
        ensures
            r.items@ == initial_items@,
    {
        ListAgent { items: initial_items }
    }

    /// Copies of all the items.
    pub fn handle_items(&self) -> (r: Vec<Value>)
        ensures
            values_of(r@) == values_of(self.items@),
    {
        dup_values(&self.items)
    }

    /// Appends an item.
    pub fn handle_add_item(&mut self, item: Value)
        ensures
            final(self).items@ == old(self).items@.push(item),
    {
        self.items.push(item);
    }

    /// A copy of the item at an index, if there is one.
    pub fn handle_get_item(&self, index: usize) -> (r: Option<Value>)
        ensures
            index < self.items@.len() ==> r is Some && r->0@ == self.items@[index as int]@,
            index >= self.items@.len() ==> r is None,
    {
        if index < self.items.len() {
            Some(self.items[index].duplicate())
        } else {
            None
        }
    }

    /// The number of items.
    pub fn handle_get_length(&self) -> (r: usize)
        ensures
            r == self.items@.len(),
    {
        self.items.len()
    }

    /// Answers a message (see [`spec_list_handle`]); the list agent always
    /// keeps running.
    pub fn handle_message(&mut self, msg: &Message) -> (r: Option<Outgoing>)
        ensures
            spec_list_handle(values_of(old(self).items@), msg@) == (values_of(final(self).items@), outgoing_view(r)),
    {
        proof {
            lemma_values_of(self.items@);
            lemma_values_of(msg.terms@);
        }
        let ghost before = self.items@;
        let rest = msg.rest();
        proof {
            lemma_values_of(rest@);
        }
        match msg.first_word() {
            Some(w) => {
                if has_text(&w, "items") {
                    let all = self.handle_items();
                    reply_single(msg, Value::List(all))
                } else if has_text(&w, "add") {
                    if rest.len() > 0 {
                        let item = rest[0].duplicate();
                        self.handle_add_item(item);
                        proof {
                            lemma_values_of(self.items@);
                            assert(values_of(self.items@) =~= values_of(before).push(spec_rest(msg@)[0]));
                        }
                        reply_single(msg, Value::string("ok"))
                    } else {
                        None
                    }
                } else if has_text(&w, "get") {
                    if rest.len() > 0 {
                        let index = match &rest[0] {
                            Value::Number(Number::Int(i)) => Some(*i as usize),
                            Value::Number(Number::UInt(u)) => Some(*u as usize),
                            _ => None,
                        };
                        match index {
                            Some(idx) => {
                                let item = match self.handle_get_item(idx) {
                                    Some(v) => v,
                                    None => Value::Empty,
                                };
                                reply_single(msg, item)
                            },
                            None => None,
                        }
                    } else {
                        None
                    }
                } else if has_text(&w, "length") {
                    let n = self.handle_get_length();
                    reply_single(msg, Value::Number(Number::Int(n as i64)))
                } else {
                    reply_single(msg, Value::string("error"))
                }
            },
            None => reply_single(msg, Value::string("error")),
        }
    }
}

/// Makes empty list agents for the registry.
#[derive(Debug, Clone, Copy)]
pub struct ListAgentFactory;

impl ListAgentFactory {
    /// A new list agent with no items.
    pub fn create_agent(&self) -> (r: ListAgent)
        ensures
            r.items@.len() == 0,
    {
        ListAgent::new(Vec::new())
    }
}

/// A list agent to start, and the channel to tell its channel to.
#[derive(Debug)]
pub struct ListSpawn {
    pub agent: ListAgent,
    pub reply_to: Channel,
}

/// The standard-library agent: asked `List x y ...`, it makes a list agent
/// holding `x y ...` and replies with its channel.
#[derive(Debug, Clone, Copy)]
pub struct StdLibAgent;

impl StdLibAgent {
    /// The list agent that a `List ...` message asks for: its items are
    /// the message's terms after the command.
    pub fn make_new_list_agent(&self, msg: &Message) -> (r: ListAgent)
        ensures
            values_of(r.items@) == spec_rest(msg@),
    {
        ListAgent::new(msg.rest())
    }

    /// What a message asks for: a list agent to start when the command is
    /// `List` and the message has a reply channel; nothing otherwise.
    pub fn handle_message(&self, msg: &Message) -> (r: Option<ListSpawn>)
        ensures
            match r {
                Some(s) => spec_first_word(msg@) == Some("List"@) && msg.reply_to == Some(s.reply_to)
                    && values_of(s.agent.items@) == spec_rest(msg@),
                None => spec_first_word(msg@) != Some("List"@) || msg.reply_to is None,
            },
    {
        match msg.first_word() {
            Some(w) => {
                if has_text(&w, "List") {
                    match msg.reply_to {
                        Some(c) => Some(ListSpawn { agent: self.make_new_list_agent(msg), reply_to: c }),
                        None => None,
                    }
                } else {
                    None
                }
            },
            None => None,
        }
    }

    /// The reply that tells the asker the channel of the new list agent.
    pub fn spawned_reply(list_channel: Channel) -> (r: Message)
        ensures
            r@.terms == seq![SpecValue::Channel(list_channel)],
            r@.reply_to is None,
    {
        let mut terms: Vec<Value> = Vec::new();
        terms.push(Value::Channel(list_channel));
        proof {
            lemma_values_of(terms@);
            assert(values_of(terms@) =~= seq![SpecValue::Channel(list_channel)]);
        }
        Message { terms, reply_to: None }
    }
}

/// After `add x`, a list agent answers `length` with one more than
/// before, and `get` at the old length with `x`.
pub proof fn lemma_add_then_read(items: Seq<SpecValue>, add: SpecMessage, length: SpecMessage, get: SpecMessage, u: u64)
    requires
        add.terms.len() >= 2,
        add.terms[0] == SpecValue::Word("add"@),
        length.terms.len() >= 1,
        length.terms[0] == SpecValue::Word("length"@),
        get.terms.len() >= 2,
        get.terms[0] == SpecValue::Word("get"@),
        get.terms[1] == SpecValue::Number(Number::UInt(u)),
        u == items.len(),
        u <= usize::MAX,
    ensures
        ({
            let after = spec_list_handle(items, add).0;
            &&& after == items.push(add.terms[1])
            &&& spec_list_handle(after, length) == (
                after,
                spec_reply(length, seq![SpecValue::Number(Number::Int((items.len() + 1) as i64))]),
            )
            &&& spec_list_handle(after, get) == (after, spec_reply(get, seq![add.terms[1]]))
        }),
{
    reveal_strlit("items");
    reveal_strlit("add");
    reveal_strlit("get");
    reveal_strlit("length");
    assert(spec_first_word(add) == Some("add"@));
    assert(spec_first_word(length) == Some("length"@));
    assert(spec_first_word(get) == Some("get"@));
    assert(spec_rest(add)[0] == add.terms[1]);
    assert(spec_rest(get)[0] == get.terms[1]);
    assert((u as usize) as int == u as int);
    assert("add"@ != "items"@ && "add"@ != "get"@ && "add"@ != "length"@) by {
        assert("add"@.len() != "items"@.len() && "add"@[0] != "get"@[0] && "add"@.len() != "length"@.len());
    }
    assert("get"@ != "items"@ && "get"@ != "add"@ && "get"@ != "length"@) by {
        assert("get"@.len() != "items"@.len() && "add"@[0] != "get"@[0] && "get"@.len() != "length"@.len());
    }
    assert("length"@ != "items"@ && "length"@ != "add"@ && "length"@ != "get"@) by {
        assert("length"@.len() != "items"@.len());
    }
    let after = spec_list_handle(items, add).0;
    assert(after == items.push(add.terms[1]));
    assert(after.len() == items.len() + 1);
    assert(list_index(get.terms[1]) == Some(u as int));
    assert(after[u as int] == add.terms[1]);
}

/// A list agent answers a command it does not know with `"error"` and
/// keeps its items.
pub proof fn lemma_unknown_command(items: Seq<SpecValue>, msg: SpecMessage)
    requires
        msg.terms.len() >= 1,
        msg.terms[0] is Word,
        msg.terms[0]->Word_0 != "items"@,
        msg.terms[0]->Word_0 != "add"@,
        msg.terms[0]->Word_0 != "get"@,
        msg.terms[0]->Word_0 != "length"@,
    ensures
        spec_list_handle(items, msg) == (items, spec_reply(msg, seq![SpecValue::String("error"@)])),
{
}

/// `get i` reads item `i`: for every index inside the list, given as a
/// non-negative integer of either kind, the agent keeps its items and
/// replies with exactly the item at that index, counting from 0.
pub proof fn lemma_get_reads_item(items: Seq<SpecValue>, get: SpecMessage, i: int)
    requires
        get.terms.len() >= 2,
        get.terms[0] == SpecValue::Word("get"@),
        get.terms[1] == SpecValue::Number(Number::Int(i as i64)) || get.terms[1] == SpecValue::Number(Number::UInt(i as u64)),
        0 <= i < items.len(),
        i <= i64::MAX,
        i <= usize::MAX,
    ensures
        spec_list_handle(items, get) == (items, spec_reply(get, seq![items[i]])),
{
    reveal_strlit("items");
    reveal_strlit("add");
    reveal_strlit("get");
    assert(spec_first_word(get) == Some("get"@));
    assert(spec_rest(get)[0] == get.terms[1]);
    assert("get"@ != "items"@ && "get"@ != "add"@) by {
        assert("get"@.len() != "items"@.len() && "add"@[0] != "get"@[0]);
    }
    let k: i64 = i as i64;
    let u: u64 = i as u64;
    assert(k == i);
    assert(u == i);
    assert((k as usize) as int == i);
    assert((u as usize) as int == i);
    assert(list_index(get.terms[1]) == Some(i));
}

} // verus!
