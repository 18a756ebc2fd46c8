//! The file-system agent, bound as `Fs`: it reads files and lists
//! directories. Deciding what a message asks for and what the reply says
//! is done here; a runtime does the reading.
use vstd::prelude::*;
use crate::agent::{Outgoing, outgoing_view, reply_single, spec_reply};
use crate::ast::{SpecValue, Value, lemma_values_of, values_of};
use crate::channel::Channel;
use crate::message::{Message, SpecMessage, spec_first_word};
use crate::text::{copy_string, has_text, push_all, text_of};

verus! {

broadcast use vstd::std_specs::vec::group_vec_axioms;

/// What the agent is asked to read.
#[derive(Debug, Clone, Copy, PartialEq, Eq, Structural)]
pub enum FsCommand {
    /// A file's text (`read-all`).
    ReadAll,
    /// A file's bytes (`read-all-binary`).
    ReadAllBinary,
    /// The names of a directory's entries (`list-dir`).
    ListDir,
}

/// A read to perform, on a path, for a message.
#[derive(Debug)]
pub struct FsRequest {
    pub command: FsCommand,
    pub path: String,
    pub reply_to: Option<Channel>,
}

/// What a read gave.
#[derive(Debug)]
pub enum FsResult {
    Text(String),
    Bytes(Vec<u8>),
    Names(Vec<String>),
    /// The read failed; the description of the failure.
    Failed(String),
}

/// The command a word names.
pub open spec fn fs_command(w: Seq<char>) -> Option<FsCommand> {
    if w == "read-all"@ {
        Some(FsCommand::ReadAll)
    } else if w == "read-all-binary"@ {
        Some(FsCommand::ReadAllBinary)
    } else if w == "list-dir"@ {
        Some(FsCommand::ListDir)
    } else {
        None
    }
}

/// The read a message asks for: a known command whose second term is a
/// string, the path; any other message asks for nothing.
pub open spec fn spec_fs_request(msg: SpecMessage) -> Option<(FsCommand, Seq<char>)> {
    match spec_first_word(msg) {
        Some(w) => match fs_command(w) {
            Some(c) => if msg.terms.len() >= 2 && msg.terms[1] is String {
                Some((c, msg.terms[1]->String_0))
            } else {
                None
            },
            None => None,
        },
        None => None,
    }
}

/// The reply to a read: its result as one term, a failure as the string
/// `Error: ` and its description.
pub open spec fn spec_fs_reply_value(result: FsResult) -> SpecValue {
    match result {
        FsResult::Text(s) => SpecValue::String(s@),
        FsResult::Bytes(b) => SpecValue::Bytes(b@),
        FsResult::Names(ns) => SpecValue::List(ns@.map_values(|n: String| SpecValue::String(n@))),
        FsResult::Failed(e) => SpecValue::String("Error: "@ + e@),
    }
}

/// The file-system agent.
#[derive(Debug, Clone, Copy)]
pub struct FsAgent;

impl FsAgent {
    /// The read a message asks for (see [`spec_fs_request`]).
    pub fn handle_message(&self, msg: &Message) -> (r: Option<FsRequest>)
        ensures
            match r {
                Some(q) => spec_fs_request(msg@) == Some((q.command, q.path@)) && q.reply_to == msg.reply_to,
                None => spec_fs_request(msg@) is None,
            },
    {
        proof {
            lemma_values_of(msg.terms@);
        }
        let cmd = match msg.first_word() {
            Some(w) => {
                if has_text(&w, "read-all") {
                    FsCommand::ReadAll
                } else if has_text(&w, "read-all-binary") {
                    FsCommand::ReadAllBinary
                } else if has_text(&w, "list-dir") {
                    FsCommand::ListDir
                } else {
                    return None;
                }
            },
            None => {
                return None;
            },
        };
        if msg.terms.len() < 2 {
            return None;
        }
        match &msg.terms[1] {
            Value::String(p) => Some(FsRequest { command: cmd, path: copy_string(p), reply_to: msg.reply_to }),
            _ => None,
        }
    }

    /// The reply that carries the result of a read (see
    /// [`spec_fs_reply_value`]); none when the request has no reply
    /// channel.
    pub fn reply(&self, request: &FsRequest, result: FsResult) -> (r: Option<Outgoing>)
        ensures
            outgoing_view(r) == spec_reply(
                SpecMessage { terms: Seq::empty(), reply_to: request.reply_to },
                seq![spec_fs_reply_value(result)],
            ),
    {
        let ghost expected = spec_fs_reply_value(result);
        let v = match result {
            FsResult::Text(s) => Value::String(s),
            FsResult::Bytes(b) => Value::Bytes(b),
            FsResult::Names(ns) => {
                let mut vs: Vec<Value> = Vec::new();
                let mut i: usize = 0;
                while i < ns.len()
                    invariant
                        i <= ns@.len(),
                        vs@.len() == i,
                        forall|j: int| 0 <= j < i ==> (#[trigger] vs@[j])@ == SpecValue::String(ns@[j]@),
                    decreases ns@.len() - i,
                {
                    vs.push(Value::String(copy_string(&ns[i])));
                    i += 1;
                }
                proof {
                    lemma_values_of(vs@);
                    assert(values_of(vs@) =~= ns@.map_values(|n: String| SpecValue::String(n@)));
                }
                Value::List(vs)
            },
            FsResult::Failed(e) => {
                let mut s = text_of("Error: ");
                push_all(&mut s, e.as_str());
                Value::String(s)
            },
        };
        let carrier = Message { terms: Vec::new(), reply_to: request.reply_to };
        proof {
            lemma_values_of(carrier.terms@);
        }
        reply_single(&carrier, v)
    }
}

/// Listing a directory: `list-dir p` with a string path asks for the
/// listing of `p`; without a second term, or with one that is not a
/// string, it asks for nothing. The reply to a listing is exactly one
/// list of the names as strings, in the order read; to a failure, exactly
/// the string `Error: ` and the failure's description.
pub proof fn lemma_list_dir(msg: SpecMessage, failure: String)
    ensures
        spec_first_word(msg) == Some("list-dir"@) ==> (spec_fs_request(msg) is Some
            <==> msg.terms.len() >= 2 && msg.terms[1] is String),
        spec_first_word(msg) == Some("list-dir"@) && msg.terms.len() >= 2 && msg.terms[1] is String
            ==> spec_fs_request(msg) == Some((FsCommand::ListDir, msg.terms[1]->String_0)),
        forall|ns: Vec<String>| #[trigger] spec_fs_reply_value(FsResult::Names(ns)) == SpecValue::List(
            ns@.map_values(|n: String| SpecValue::String(n@)),
        ),
        spec_fs_reply_value(FsResult::Failed(failure)) == SpecValue::String("Error: "@ + failure@),
{
    reveal_strlit("list-dir");
    reveal_strlit("read-all");
    reveal_strlit("read-all-binary");
    assert("list-dir"@ != "read-all"@ && "list-dir"@ != "read-all-binary"@) by {
        assert("list-dir"@[0] != "read-all"@[0] && "list-dir"@[0] != "read-all-binary"@[0]);
    }
}

} // verus!
