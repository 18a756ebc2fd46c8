//! The language-model agent: `generate prompt` answers with what a model
//! served by Ollama writes for the prompt. Talking to the model is a
//! runtime's work; this module decides what a message asks for and what
//! the reply says.
use vstd::prelude::*;
use crate::agent::{Outgoing, outgoing_view, reply_single, spec_reply};
use crate::ast::{SpecValue, Value, lemma_values_of};
use crate::error::{RuntimeError, SpecRuntimeError};
use crate::message::{Message, SpecMessage, spec_first_word, spec_rest};
use crate::text::{copy_string, has_text, text_of};

verus! {

/// The prompt used when a `generate` message brings none.
pub open spec fn default_prompt() -> Seq<char> {
    "Write a poem about a cat"@
}

/// What a message asks of the language-model agent.
#[derive(Debug)]
pub enum OllamaAction {
    /// Ask the model to complete this prompt.
    Generate { prompt: String },
    /// Nothing to do; keep running.
    KeepRunning,
    /// Stop the agent.
    Stop,
}

/// The mathematical form of an [`OllamaAction`].
pub enum SpecOllamaAction {
    Generate { prompt: Seq<char> },
    KeepRunning,
    Stop,
}

impl View for OllamaAction {
    type V = SpecOllamaAction;

    open spec fn view(&self) -> SpecOllamaAction {
        match self {
            OllamaAction::Generate { prompt } => SpecOllamaAction::Generate { prompt: prompt@ },
            OllamaAction::KeepRunning => SpecOllamaAction::KeepRunning,
            OllamaAction::Stop => SpecOllamaAction::Stop,
        }
    }
}

/// What a message asks for: `generate` completes the first argument when
/// it is a string (the default prompt when there is no argument) and does
/// nothing for another argument; any other command stops the agent.
pub open spec fn spec_ollama_handle(msg: SpecMessage) -> SpecOllamaAction {
    let cmd = spec_first_word(msg)->0;
    let rest = spec_rest(msg);
    if cmd == "generate"@ {
        let prompt = if rest.len() > 0 { rest[0] } else { SpecValue::String(default_prompt()) };
        match prompt {
            SpecValue::String(p) => SpecOllamaAction::Generate { prompt: p },
            _ => SpecOllamaAction::KeepRunning,
        }
    } else {
        SpecOllamaAction::Stop
    }
}

/// The reply to a generation: the model's text, or `ExternalServiceError`
/// when the model could not be asked.
pub open spec fn spec_generation_reply_value(result: Result<Seq<char>, Seq<char>>) -> SpecValue {
    match result {
        Ok(text) => SpecValue::String(text),
        Err(_) => SpecValue::Error(SpecRuntimeError::ExternalServiceError),
    }
}

/// The language-model agent and the model it asks.
#[derive(Debug)]
pub struct OllamaAgent {
    pub model: String,
}

/// Makes language-model agents for the default model.
#[derive(Debug, Clone, Copy)]
pub struct OllamaAgentFactory;

impl OllamaAgentFactory {
    /// An agent that asks `gemma3:latest`.
    pub fn create_agent(&self) -> (r: OllamaAgent)
        ensures
            r.model@ == "gemma3:latest"@,
    {
        OllamaAgent { model: text_of("gemma3:latest") }
    }
}

impl OllamaAgent {
    /// An agent that asks the given model.
    pub fn new(model: String) -> (r: OllamaAgent)
        ensures
            r.model@ == model@,
    {
        OllamaAgent { model }
    }

    /// What to do with a message (see [`spec_ollama_handle`]); the message
    /// must start with a command.
    pub fn handle_message(&self, msg: &Message) -> (r: OllamaAction)
        requires
            spec_first_word(msg@) is Some,
        ensures
            r@ == spec_ollama_handle(msg@),
    {
        let cmd = match msg.first_word() {
            Some(c) => c,
            None => {
                return OllamaAction::Stop;
            },
        };
        if has_text(&cmd, "generate") {
            let rest = msg.rest();
            proof {
                lemma_values_of(rest@);
            }
            if rest.len() > 0 {
                match &rest[0] {
                    Value::String(p) => OllamaAction::Generate { prompt: copy_string(p) },
                    _ => OllamaAction::KeepRunning,
                }
            } else {
                OllamaAction::Generate { prompt: text_of("Write a poem about a cat") }
            }
        } else {
            OllamaAction::Stop
        }
    }

    /// The reply that carries a generation's outcome (see
    /// [`spec_generation_reply_value`]).
    pub fn generation_reply(&self, msg: &Message, result: Result<String, String>) -> (r: Option<Outgoing>)
        ensures
            outgoing_view(r) == spec_reply(
                msg@,
                seq![spec_generation_reply_value(
                    match result {
                        Ok(t) => Ok(t@),
                        Err(e) => Err(e@),
                    },
                )],
            ),
    {
        match result {
            Ok(text) => reply_single(msg, Value::String(text)),
            Err(_) => reply_single(msg, Value::Error(RuntimeError::ExternalServiceError)),
        }
    }

    /// The answer in a conversation.
    pub fn handle_conversation(&self) -> (r: Result<String, String>)
        ensures
            r matches Ok(t) && t@ == "Heyo"@,
    {
        Ok(text_of("Heyo"))
    }
}

} // verus!
