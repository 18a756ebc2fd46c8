//! The console agent, bound as `Io`: `println` and `print` show their
//! arguments, `shutdown` stops it.
use vstd::prelude::*;
use crate::agent::{Outgoing, SpecOutgoing, outgoing_view, reply_single, spec_reply};
use crate::ast::{SpecValue, Value, lemma_values_of, values_of};
use crate::channel::{channel_label, uuid_text};
use crate::debug_text::{push_value_debug, value_debug};
use crate::message::{Message, SpecMessage, spec_first_word, spec_rest};
use crate::number::number_text;
use crate::text::{copy_string, has_text, push_all, text_of};
use crate::to_sexpr::{bool_text, bool_to_text};

verus! {

broadcast use vstd::std_specs::vec::group_vec_axioms;

/// One write to the console: a text, with or without a line break.
pub enum IoWrite {
    Print(Seq<char>),
    Println(Seq<char>),
}

/// Where the console agent writes. An implementation that keeps, as
/// `written`, the writes made to it in order says so with
/// `obeys_io_spec`; by default an implementation makes no such promise.
pub trait IoInterface {
    open spec fn obeys_io_spec() -> bool {
        false
    }

    open spec fn written(&self) -> Seq<IoWrite> {
        Seq::empty()
    }

    fn print(&mut self, msg: &str)
        ensures
            Self::obeys_io_spec() ==> final(self).written() == old(self).written().push(IoWrite::Print(msg@)),
    ;

    fn println(&mut self, msg: &str)
        ensures
            Self::obeys_io_spec() ==> final(self).written() == old(self).written().push(IoWrite::Println(msg@)),
    ;
}

/// A console that keeps what is written to it, each write as a text and
/// whether a line break followed it.
#[derive(Debug)]
pub struct Transcript {
    pub writes: Vec<(String, bool)>,
}

/// The view of a recorded write.
pub open spec fn recorded_write(w: (String, bool)) -> IoWrite {
    if w.1 { IoWrite::Println(w.0@) } else { IoWrite::Print(w.0@) }
}

impl Transcript {
    /// A transcript with nothing written.
    pub fn new() -> (r: Transcript)
        ensures
            r.written() == Seq::<IoWrite>::empty(),
    {
        let r = Transcript { writes: Vec::new() };
        assert(r.written() =~= Seq::<IoWrite>::empty());
        r
    }
}

impl IoInterface for Transcript {
    open spec fn obeys_io_spec() -> bool {
        true
    }

    open spec fn written(&self) -> Seq<IoWrite> {
        self.writes@.map_values(|w: (String, bool)| recorded_write(w))
    }

    fn print(&mut self, msg: &str) {
        self.writes.push((crate::text::text_of(msg), false));
        assert(self.written() =~= old(self).written().push(IoWrite::Print(msg@)));
    }

    fn println(&mut self, msg: &str) {
        self.writes.push((crate::text::text_of(msg), true));
        assert(self.written() =~= old(self).written().push(IoWrite::Println(msg@)));
    }
}

/// The writes that an action makes: each line of `println` with a line
/// break, each part of `print` without; none for other actions.
pub open spec fn action_writes(a: SpecIoAction) -> Seq<IoWrite> {
    match a {
        SpecIoAction::Println { lines, .. } => lines.map_values(|l: Seq<char>| IoWrite::Println(l)),
        SpecIoAction::Print { parts, .. } => parts.map_values(|p: Seq<char>| IoWrite::Print(p)),
        _ => Seq::empty(),
    }
}

/// How a value inside a list is shown: strings as they are, numbers and
/// booleans as their text, a channel as `Channel: ` and its identity, an
/// embedded block as its text; any other value is shown as
/// `(no formatter: ...)` around its debugging form.
pub open spec fn item_text(v: SpecValue) -> Seq<char> {
    match v {
        SpecValue::String(s) => s,
        SpecValue::Number(n) => number_text(n),
        SpecValue::Boolean(b) => bool_text(b),
        SpecValue::Channel(c) => "Channel: "@ + uuid_text(c.id),
        SpecValue::Embedded(e) => e.text,
        _ => "(no formatter: "@ + value_debug(v) + ")"@,
    }
}

/// The texts of the first `n` values, separated by single spaces.
pub open spec fn joined_items(vs: Seq<SpecValue>, n: int) -> Seq<char>
    decreases n,
{
    if n <= 0 || n > vs.len() {
        Seq::empty()
    } else if n == 1 {
        item_text(vs[0])
    } else {
        joined_items(vs, n - 1) + " "@ + item_text(vs[n - 1])
    }
}

/// How an argument of `println` or `print` is shown: a list as its items
/// between brackets, anything else as [`item_text`] shows it.
pub open spec fn term_text(v: SpecValue) -> Seq<char> {
    match v {
        SpecValue::List(items) => "["@ + joined_items(items, items.len() as int) + "]"@,
        _ => item_text(v),
    }
}

fn item_to_text(v: &Value) -> (r: String)
    ensures
        r@ == item_text(v@),
{
    match v {
        Value::String(s) => copy_string(s),
        Value::Number(n) => n.to_text(),
        Value::Boolean(b) => bool_to_text(*b),
        Value::Channel(c) => {
            let mut s = text_of("Channel: ");
            channel_label(c, &mut s);
            s
        },
        Value::Embedded(e) => copy_string(&e.text),
        _ => {
            let mut s = text_of("(no formatter: ");
            push_value_debug(&mut s, v);
            push_all(&mut s, ")");
            s
        },
    }
}

/// The text that `println` and `print` show for one argument (see
/// [`term_text`]).
pub fn term_to_text(v: &Value) -> (r: String)
    ensures
        r@ == term_text(v@),
{
    match v {
        Value::List(items) => {
            proof {
                lemma_values_of(items@);
            }
            let ghost sv = values_of(items@);
            let mut s = text_of("[");
            let mut i: usize = 0;
            while i < items.len()
                invariant
                    i <= items@.len(),
                    sv == values_of(items@),
                    sv.len() == items@.len(),
                    forall|j: int| 0 <= j < items@.len() ==> #[trigger] sv[j] == items@[j]@,
                    s@ == "["@ + joined_items(sv, i as int),
                decreases items@.len() - i,
            {
                if i > 0 {
                    push_all(&mut s, " ");
                }
                let t = item_to_text(&items[i]);
                push_all(&mut s, t.as_str());
                proof {
                    if i == 0 {
                        assert(joined_items(sv, 0) =~= Seq::<char>::empty());
                    }
                    assert(s@ =~= "["@ + joined_items(sv, i + 1));
                }
                i += 1;
            }
            push_all(&mut s, "]");
            proof {
                assert(v@ == SpecValue::List(sv));
            }
            s
        },
        _ => item_to_text(v),
    }
}

/// The texts of all the arguments: the terms after the command.
pub open spec fn argument_texts(msg: SpecMessage) -> Seq<Seq<char>> {
    spec_rest(msg).map_values(|v: SpecValue| term_text(v))
}

/// What a message asks of the console agent.
#[derive(Debug)]
pub enum IoAction {
    /// Write each text on a line of its own, then send the
    /// acknowledgement, if any.
    Println { lines: Vec<String>, ack: Option<Outgoing> },
    /// Write each text with no line break, then send the acknowledgement,
    /// if any.
    Print { parts: Vec<String>, ack: Option<Outgoing> },
    /// Stop the agent.
    Shutdown,
    /// Nothing to do.
    Ignore,
}

/// The mathematical form of an [`IoAction`].
pub enum SpecIoAction {
    Println { lines: Seq<Seq<char>>, ack: Option<SpecOutgoing> },
    Print { parts: Seq<Seq<char>>, ack: Option<SpecOutgoing> },
    Shutdown,
    Ignore,
}

pub open spec fn strings_of(ss: Seq<String>) -> Seq<Seq<char>> {
    ss.map_values(|s: String| s@)
}

impl View for IoAction {
    type V = SpecIoAction;

    open spec fn view(&self) -> SpecIoAction {
        match self {
            IoAction::Println { lines, ack } => SpecIoAction::Println { lines: strings_of(lines@), ack: outgoing_view(*ack) },
            IoAction::Print { parts, ack } => SpecIoAction::Print { parts: strings_of(parts@), ack: outgoing_view(*ack) },
            IoAction::Shutdown => SpecIoAction::Shutdown,
            IoAction::Ignore => SpecIoAction::Ignore,
        }
    }
}

/// What the console agent does with a message: `println` and `print`
/// show the texts of their arguments and acknowledge with the string
/// `"ack"`; `shutdown` stops the agent; anything else is ignored.
pub open spec fn spec_io_handle(msg: SpecMessage) -> SpecIoAction {
    let ack = spec_reply(msg, seq![SpecValue::String("ack"@)]);
    match spec_first_word(msg) {
        Some(cmd) => {
            if cmd == "println"@ {
                SpecIoAction::Println { lines: argument_texts(msg), ack }
            } else if cmd == "print"@ {
                SpecIoAction::Print { parts: argument_texts(msg), ack }
            } else if cmd == "shutdown"@ {
                SpecIoAction::Shutdown
            } else {
                SpecIoAction::Ignore
            }
        },
        None => SpecIoAction::Ignore,
    }
}

/// The console agent.
#[derive(Debug, Clone, Copy)]
pub struct IoAgent;

impl IoAgent {
    fn texts(msg: &Message) -> (r: Vec<String>)
        ensures
            strings_of(r@) == argument_texts(msg@),
    {
        let rest = msg.rest();
        proof {
            lemma_values_of(rest@);
        }
        let mut out: Vec<String> = Vec::new();
        let mut i: usize = 0;
        while i < rest.len()
            invariant
                i <= rest@.len(),
                values_of(rest@) == spec_rest(msg@),
                values_of(rest@).len() == rest@.len(),
                forall|j: int| 0 <= j < rest@.len() ==> #[trigger] values_of(rest@)[j] == rest@[j]@,
                out@.len() == i,
                forall|j: int| 0 <= j < i ==> (#[trigger] out@[j])@ == term_text(rest@[j]@),
            decreases rest@.len() - i,
        {
            out.push(term_to_text(&rest[i]));
            i += 1;
        }
        proof {
            assert(strings_of(out@) =~= argument_texts(msg@));
        }
        out
    }

    /// What to do with a message (see [`spec_io_handle`]).
    pub fn handle_message(&self, msg: &Message) -> (r: IoAction)
        ensures
            r@ == spec_io_handle(msg@),
    {
        match msg.first_word() {
            Some(cmd) => {
                if has_text(&cmd, "println") {
                    IoAction::Println { lines: Self::texts(msg), ack: reply_single(msg, Value::string("ack")) }
                } else if has_text(&cmd, "print") {
                    IoAction::Print { parts: Self::texts(msg), ack: reply_single(msg, Value::string("ack")) }
                } else if has_text(&cmd, "shutdown") {
                    IoAction::Shutdown
                } else {
                    IoAction::Ignore
                }
            },
            None => IoAction::Ignore,
        }
    }

    /// Writes the texts of a `println` or `print` action to the console.
    pub fn write<I: IoInterface>(&self, action: &IoAction, io: &mut I)
        ensures
            I::obeys_io_spec() ==> final(io).written() == old(io).written() + action_writes(action@),
    {
        match action {
            IoAction::Println { lines, ack: _ } => {
                let mut i: usize = 0;
                while i < lines.len()
                    invariant
                        i <= lines@.len(),
                        I::obeys_io_spec() ==> io.written() == old(io).written() + strings_of(lines@).subrange(0, i as int).map_values(
                            |l: Seq<char>| IoWrite::Println(l),
                        ),
                    decreases lines@.len() - i,
                {
                    io.println(lines[i].as_str());
                    i += 1;
                    proof {
                        assert(strings_of(lines@).subrange(0, i as int).map_values(|l: Seq<char>| IoWrite::Println(l))
                            =~= strings_of(lines@).subrange(0, i - 1).map_values(|l: Seq<char>| IoWrite::Println(l)).push(
                            IoWrite::Println(lines@[i - 1]@),
                        ));
                        assert(I::obeys_io_spec() ==> io.written() =~= old(io).written() + strings_of(lines@).subrange(0, i as int).map_values(
                            |l: Seq<char>| IoWrite::Println(l),
                        ));
                    }
                }
                proof {
                    assert(strings_of(lines@).subrange(0, lines@.len() as int) =~= strings_of(lines@));
                }
            },
            IoAction::Print { parts, ack: _ } => {
                let mut i: usize = 0;
                while i < parts.len()
                    invariant
                        i <= parts@.len(),
                        I::obeys_io_spec() ==> io.written() == old(io).written() + strings_of(parts@).subrange(0, i as int).map_values(
                            |p: Seq<char>| IoWrite::Print(p),
                        ),
                    decreases parts@.len() - i,
                {
                    io.print(parts[i].as_str());
                    i += 1;
                    proof {
                        assert(strings_of(parts@).subrange(0, i as int).map_values(|p: Seq<char>| IoWrite::Print(p))
                            =~= strings_of(parts@).subrange(0, i - 1).map_values(|p: Seq<char>| IoWrite::Print(p)).push(
                            IoWrite::Print(parts@[i - 1]@),
                        ));
                        assert(I::obeys_io_spec() ==> io.written() =~= old(io).written() + strings_of(parts@).subrange(0, i as int).map_values(
                            |p: Seq<char>| IoWrite::Print(p),
                        ));
                    }
                }
                proof {
                    assert(strings_of(parts@).subrange(0, parts@.len() as int) =~= strings_of(parts@));
                }
            },
            _ => {
                assert(old(io).written() + action_writes(action@) =~= old(io).written());
            },
        }
    }
}

/// What the console agent does with a message: `shutdown` stops it, and
/// only `shutdown` does; `println` and `print` show their arguments;
/// anything else, or a message with no command, is ignored.
pub proof fn lemma_io_dispatch(msg: SpecMessage)
    ensures
        spec_io_handle(msg) is Shutdown <==> spec_first_word(msg) == Some("shutdown"@),
        spec_first_word(msg) == Some("println"@) ==> spec_io_handle(msg) is Println,
        spec_first_word(msg) == Some("print"@) ==> spec_io_handle(msg) is Print,
        spec_first_word(msg) is None ==> spec_io_handle(msg) is Ignore,
        (spec_first_word(msg) matches Some(w) && w != "println"@ && w != "print"@ && w != "shutdown"@)
            ==> spec_io_handle(msg) is Ignore,
{
    reveal_strlit("println");
    reveal_strlit("print");
    reveal_strlit("shutdown");
    assert("println"@ != "print"@ && "println"@ != "shutdown"@ && "print"@ != "shutdown"@) by {
        assert("println"@.len() != "print"@.len() && "println"@.len() != "shutdown"@.len()
            && "print"@.len() != "shutdown"@.len());
    }
}

/// `println` writes one line per argument, in order, the i-th the text of
/// the i-th argument (see [`term_text`]); it writes nothing without a
/// line break; then it acknowledges with exactly `["ack"]` when the
/// message has a reply channel. `print` writes the same texts without line
/// breaks.
pub proof fn lemma_println_writes(msg: SpecMessage)
    ensures
        spec_first_word(msg) == Some("println"@) ==> {
            &&& action_writes(spec_io_handle(msg)) == spec_rest(msg).map_values(|v: SpecValue| IoWrite::Println(term_text(v)))
            &&& action_writes(spec_io_handle(msg)).len() == msg.terms.len() - 1
            &&& spec_io_handle(msg)->Println_ack == spec_reply(msg, seq![SpecValue::String("ack"@)])
        },
        spec_first_word(msg) == Some("print"@) ==> {
            &&& action_writes(spec_io_handle(msg)) == spec_rest(msg).map_values(|v: SpecValue| IoWrite::Print(term_text(v)))
            &&& spec_io_handle(msg)->Print_ack == spec_reply(msg, seq![SpecValue::String("ack"@)])
        },
{
    lemma_io_dispatch(msg);
    if spec_first_word(msg) == Some("println"@) {
        assert(action_writes(spec_io_handle(msg)) =~= spec_rest(msg).map_values(|v: SpecValue| IoWrite::Println(term_text(v))));
    }
    if spec_first_word(msg) == Some("print"@) {
        assert(action_writes(spec_io_handle(msg)) =~= spec_rest(msg).map_values(|v: SpecValue| IoWrite::Print(term_text(v))));
    }
}

} // verus!
