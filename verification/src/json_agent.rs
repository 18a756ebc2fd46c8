//! The JSON agent: `encode x` answers with the JSON text of `x`, `decode
//! text` with the value that the JSON text describes. Reading and writing
//! JSON is a runtime's work; this module decides what a message asks for
//! and what the reply says.
use vstd::prelude::*;
use crate::agent::{Outgoing, outgoing_view, reply_single, spec_reply};
use crate::ast::{SpecValue, Value, lemma_values_of};
use crate::message::{Message, SpecMessage, spec_first_word};
use crate::text::{copy_string, has_text, push_all, text_of};

verus! {

/// What a message asks the JSON agent to do.
#[derive(Debug)]
pub enum JsonRequest {
    /// Write a value as JSON text.
    Encode(Value),
    /// Read a value from JSON text.
    Decode(String),
}

/// The mathematical form of a [`JsonRequest`].
pub enum SpecJsonRequest {
    Encode(SpecValue),
    Decode(Seq<char>),
}

impl View for JsonRequest {
    type V = SpecJsonRequest;

    open spec fn view(&self) -> SpecJsonRequest {
        match self {
            JsonRequest::Encode(v) => SpecJsonRequest::Encode(v@),
            JsonRequest::Decode(s) => SpecJsonRequest::Decode(s@),
        }
    }
}

/// The request in a message: `encode` with the second term as the value;
/// `decode` with a string as the second term; nothing otherwise.
pub open spec fn spec_json_request(msg: SpecMessage) -> Option<SpecJsonRequest> {
    match spec_first_word(msg) {
        Some(cmd) => {
            if cmd == "encode"@ && msg.terms.len() >= 2 {
                Some(SpecJsonRequest::Encode(msg.terms[1]))
            } else if cmd == "decode"@ && msg.terms.len() >= 2 && msg.terms[1] is String {
                Some(SpecJsonRequest::Decode(msg.terms[1]->String_0))
            } else {
                None
            }
        },
        None => None,
    }
}

/// The reply term for the outcome of a request: the result itself, or the
/// string `Error: ` and the description of what went wrong.
pub open spec fn spec_json_reply_value(result: Result<SpecValue, Seq<char>>) -> SpecValue {
    match result {
        Ok(v) => v,
        Err(e) => SpecValue::String("Error: "@ + e),
    }
}

/// The JSON agent.
#[derive(Debug, Clone, Copy)]
pub struct JsonAgent;

impl JsonAgent {
    /// The request in a message (see [`spec_json_request`]); the agent
    /// keeps running whatever it is sent.
    pub fn handle_message(&self, msg: &Message) -> (r: Option<JsonRequest>)
        ensures
            match r {
                Some(q) => spec_json_request(msg@) == Some(q@),
                None => spec_json_request(msg@) is None,
            },
    {
        proof {
            lemma_values_of(msg.terms@);
        }
        match msg.first_word() {
            Some(cmd) => {
                if has_text(&cmd, "encode") && msg.terms.len() >= 2 {
                    Some(JsonRequest::Encode(msg.terms[1].duplicate()))
                } else if has_text(&cmd, "decode") && msg.terms.len() >= 2 {
                    match &msg.terms[1] {
                        Value::String(s) => Some(JsonRequest::Decode(copy_string(s))),
                        _ => None,
                    }
                } else {
                    None
                }
            },
            None => None,
        }
    }

    /// The reply that carries the outcome of a request (see
    /// [`spec_json_reply_value`]).
    pub fn reply(&self, msg: &Message, result: Result<Value, String>) -> (r: Option<Outgoing>)
        ensures
            outgoing_view(r) == spec_reply(
                msg@,
                seq![spec_json_reply_value(
                    match result {
                        Ok(v) => Ok(v@),
                        Err(e) => Err(e@),
                    },
                )],
            ),
    {
        match result {
            Ok(v) => reply_single(msg, v),
            Err(e) => {
                let mut s = text_of("Error: ");
                push_all(&mut s, e.as_str());
                reply_single(msg, Value::String(s))
            },
        }
    }
}

} // verus!
