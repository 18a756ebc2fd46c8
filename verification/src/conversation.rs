//! Conversations between participants, as a chat model keeps them.
use vstd::prelude::*;

verus! {

/// A span of time: its start and, once it is over, its end, each in
/// milliseconds since the Unix epoch (UTC).
#[derive(Debug, Clone, Copy, PartialEq, Eq, Structural)]
pub struct Timeframe {
    pub start: i64,
    pub end: Option<i64>,
}

/// A conversation: its identity, when it took place, and what happened.
#[derive(Debug, Clone)]
pub struct Conversation {
    pub id: String,
    pub timestamp: Timeframe,
    pub events: Vec<ConversationEvent>,
}

/// Something that happens in a conversation.
#[derive(Debug, Clone)]
pub enum ConversationEvent {
    Message(ConversationMessage),
}

/// The part a participant plays.
#[derive(Debug, Clone, Copy, PartialEq, Eq, Structural)]
pub enum ParticipantRole {
    System,
    User,
    Assistant,
}

/// Someone who takes part in a conversation.
#[derive(Debug, Clone)]
pub struct Participant {
    pub id: String,
    pub name: String,
    pub role: ParticipantRole,
}

/// A message of a conversation.
#[derive(Debug, Clone)]
pub struct ConversationMessage {
    pub id: String,
    pub timestamp: Timeframe,
    pub sender: Participant,
    pub content: Vec<ConversationContent>,
}

/// A piece of a message.
#[derive(Debug, Clone)]
pub enum ConversationContent {
    Text(String),
    Code(String),
    Image(String),
}

} // verus!
