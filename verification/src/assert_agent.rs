//! The assertion agent: it checks that what it is sent is `true`.
use vstd::prelude::*;
use crate::agent::{Outgoing, outgoing_view, reply_single, spec_reply};
use crate::ast::{SpecValue, Value, lemma_values_of};
use crate::error::{RuntimeError, SpecRuntimeError};
use crate::debug_text::{push_value_debug, value_debug};
use crate::message::{Message, SpecMessage};
use crate::text::text_of;

verus! {

/// The verdict on an asserted value: a boolean is its own verdict;
/// anything else is an `AssertionFailed` error that shows its debugging
/// form.
pub open spec fn spec_assert_verdict(v: SpecValue) -> SpecValue {
    match v {
        SpecValue::Boolean(b) => SpecValue::Boolean(b),
        _ => SpecValue::Error(SpecRuntimeError::AssertionFailed("Not a boolean value: "@ + value_debug(v))),
    }
}

/// The value a message asserts: its first term, or `true` when it has
/// none.
pub open spec fn asserted_value(msg: SpecMessage) -> SpecValue {
    if msg.terms.len() > 0 { msg.terms[0] } else { SpecValue::Boolean(true) }
}

/// The assertion agent.
#[derive(Debug, Clone, Copy)]
pub struct AssertAgent;

/// Makes assertion agents.
#[derive(Debug, Clone, Copy)]
pub struct AssertAgentFactory;

impl AssertAgent {
    /// The verdict on a value (see [`spec_assert_verdict`]).
    pub fn handle_assert_statement(&self, value: &Value) -> (r: Value)
        ensures
            r@ == spec_assert_verdict(value@),
    {
        match value {
            Value::Boolean(b) => Value::Boolean(*b),
            _ => {
                let mut m = text_of("Not a boolean value: ");
                push_value_debug(&mut m, value);
                Value::Error(RuntimeError::AssertionFailed(m))
            },
        }
    }

    /// The reply to a message: the verdict on the value it asserts; the
    /// agent keeps running.
    pub fn handle_message(&self, msg: &Message) -> (r: Option<Outgoing>)
        ensures
            outgoing_view(r) == spec_reply(msg@, seq![spec_assert_verdict(asserted_value(msg@))]),
    {
        proof {
            lemma_values_of(msg.terms@);
        }
        let verdict = if msg.terms.len() > 0 {
            self.handle_assert_statement(&msg.terms[0])
        } else {
            Value::Boolean(true)
        };
        reply_single(msg, verdict)
    }
}

} // verus!
