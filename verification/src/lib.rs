//! The Komrad language: values, syntax trees, patterns, scopes, an
//! interpreter written as a replayable state machine, and the message
//! handling rules of its built-in agents.
use vstd::prelude::*;

pub mod text;
pub mod number;
pub mod channel;
pub mod value_type;
pub mod error;
pub mod operators;
pub mod ast;
pub mod values;
pub mod convert;
pub mod message;
pub mod sexpr;
pub mod sexpr_laws;
pub mod to_sexpr;
pub mod debug_text;
pub mod scope;
pub mod try_bind;
pub mod eval;
pub mod closure;
pub mod closure_laws;
pub mod run;
pub mod agent;
pub mod list_agent;
pub mod registry;
pub mod io_agent;
pub mod assert_agent;
pub mod fs_agent;
pub mod default_agents;
pub mod dynamic_agent;
pub mod banner;
pub mod conversation;
pub mod execute;
pub mod json_agent;
pub mod ollama_agent;
pub mod replay;
pub mod exec_laws;

verus! {
} // verus!

