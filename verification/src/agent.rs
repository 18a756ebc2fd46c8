//! What every agent shares: its control messages, its lifecycle states,
//! the replies it sends, and the steps of its message loop.
//!
//! An agent's behaviour is a function from its state and one incoming
//! message to its next state and the messages it sends; a runtime delivers
//! the messages and performs the sends.
use vstd::prelude::*;
use crate::ast::{SpecValue, Value, values_of};
use crate::channel::{Channel, ControlMessage};
use crate::message::{Message, SpecMessage};
use crate::scope::Scope;

verus! {

/// A request to an agent's control loop.
#[derive(Debug, Clone, Copy, PartialEq, Eq, Structural)]
pub enum AgentControl {
    Stop,
}

/// Where an agent is in its life.
#[derive(Debug, Clone, Copy, PartialEq, Eq, Structural)]
pub enum AgentState {
    Started,
    Stopped,
}

/// A message to send on a channel.
#[derive(Debug)]
pub struct Outgoing {
    pub to: Channel,
    pub message: Message,
}

/// The mathematical form of an [`Outgoing`] message.
pub struct SpecOutgoing {
    pub to: Channel,
    pub message: SpecMessage,
}

impl View for Outgoing {
    type V = SpecOutgoing;

    open spec fn view(&self) -> SpecOutgoing {
        SpecOutgoing { to: self.to, message: self.message@ }
    }
}

/// The view of an optional outgoing message.
pub open spec fn outgoing_view(o: Option<Outgoing>) -> Option<SpecOutgoing> {
    match o {
        Some(x) => Some(x@),
        None => None,
    }
}

/// The reply to a message that carries the given terms: sent to the
/// message's reply channel, itself with no reply channel; none when the
/// message has no reply channel.
pub open spec fn spec_reply(msg: SpecMessage, terms: Seq<SpecValue>) -> Option<SpecOutgoing> {
    match msg.reply_to {
        Some(c) => Some(SpecOutgoing { to: c, message: SpecMessage { terms, reply_to: None } }),
        None => None,
    }
}

/// The reply to `msg` with the given terms (see [`spec_reply`]).
pub fn reply_with(msg: &Message, terms: Vec<Value>) -> (r: Option<Outgoing>)
    ensures
        outgoing_view(r) == spec_reply(msg@, values_of(terms@)),
{
    match msg.reply_to {
        Some(c) => Some(Outgoing { to: c, message: Message { terms, reply_to: None } }),
        None => None,
    }
}

/// The reply to `msg` with a single term.
pub fn reply_single(msg: &Message, v: Value) -> (r: Option<Outgoing>)
    ensures
        outgoing_view(r) == spec_reply(msg@, seq![v@]),
{
    let mut terms: Vec<Value> = Vec::new();
    terms.push(v);
    proof {
        crate::ast::lemma_values_of(terms@);
        assert(values_of(terms@) =~= seq![terms@[0]@]);
    }
    reply_with(msg, terms)
}

/// What the message loop of an agent receives.
#[derive(Debug)]
pub enum LoopEvent {
    /// An ordinary message.
    Message(Message),
    /// A control message.
    Control(ControlMessage),
    /// The mailbox was closed or failed.
    Closed,
}

/// What the message loop does with what it received.
#[derive(Debug)]
pub enum LoopAction {
    /// Hand the message to the agent's behaviour; the loop goes on unless
    /// the behaviour says otherwise.
    Handle(Message),
    /// Send `Stop` to every channel of the agent's scope and then to the
    /// agent itself, and leave the loop.
    StopAll,
    /// Leave the loop.
    Exit,
}

/// One step of an agent's message loop: a message is handled, `Stop`
/// stops the agent and everything in its scope, and a closed mailbox ends
/// the loop.
pub fn loop_step(event: LoopEvent) -> (r: LoopAction)
    ensures
        match event {
            LoopEvent::Message(m) => r matches LoopAction::Handle(h) && h@ == m@,
            LoopEvent::Control(ControlMessage::Stop) => r is StopAll,
            LoopEvent::Closed => r is Exit,
        },
{
    match event {
        LoopEvent::Message(m) => LoopAction::Handle(m),
        LoopEvent::Control(ControlMessage::Stop) => LoopAction::StopAll,
        LoopEvent::Closed => LoopAction::Exit,
    }
}

/// The channels that stopping an agent sends `Stop` to: the channels
/// bound in its scope, and last its own.
pub fn stop_targets(scope: &Scope, own: Channel) -> (r: Vec<Channel>)
    ensures
        r@.len() >= 1,
        r@.last() == own,
        forall|i: int| 0 <= i < r@.len() - 1 ==> scope@.bindings.values().contains(SpecValue::Channel(#[trigger] r@[i])),
        forall|k: Seq<char>| #[trigger] scope@.bindings.contains_key(k) && scope@.bindings[k] is Channel
            ==> r@.drop_last().contains(scope@.bindings[k]->Channel_0),
{
    let mut out = scope.channels();
    let ghost before = out@;
    out.push(own);
    proof {
        assert(out@.drop_last() =~= before);
    }
    out
}

} // verus!
