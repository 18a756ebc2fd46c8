//! Agents defined in the language: a scope, and the handlers that answer
//! messages.
//!
//! Running code may wait on outside work (see `eval`): a step that waits
//! hands back the run, whose last request a runtime performs before it
//! calls the step again with one more event. Nothing of the agent changes
//! until a step finishes.
use vstd::prelude::*;
use crate::agent::{Outgoing, SpecOutgoing, outgoing_view, reply_single, spec_reply};
use crate::ast::{Block, Handler, SpecBlock, SpecHandler, SpecStatement, SpecValue, Statement, Value, handlers_of, lemma_handlers_of, lemma_statements_of, statements_of};
use crate::channel::Channel;
use crate::default_agents::{DefaultAgentChannels, spec_default_bindings};
use crate::error::{RuntimeError, SpecRuntimeError};
use crate::eval::{SpecEvent, SpecRun, SpecStep, spec_exec, spec_exec_block};
use crate::message::{Message, SpecMessage};
use crate::run::{Event, Outcome, Run, events_of, exec_stmt, run_block};
use crate::scope::{Scope, SpecScope, spec_bind, spec_lookup};
use crate::sexpr::{sexpr_depth, spec_format};
use crate::text::{copy_string, text_of};
use crate::to_sexpr::{message_sexpr, message_to_sexpr};
use crate::try_bind::{TryBind, bind_faults, spec_try_bind, try_bind_context};

verus! {

broadcast use vstd::std_specs::vec::group_vec_axioms;

/// An agent defined in the language.
#[derive(Debug)]
pub struct DynamicAgent {
    pub name: String,
    pub scope: Scope,
    pub handlers: Vec<Handler>,
}

/// The mathematical form of a [`DynamicAgent`].
pub struct SpecDynamic {
    pub name: Seq<char>,
    pub scope: SpecScope,
    pub handlers: Seq<SpecHandler>,
}

impl View for DynamicAgent {
    type V = SpecDynamic;

    open spec fn view(&self) -> SpecDynamic {
        SpecDynamic { name: self.name@, scope: self.scope@, handlers: handlers_of(self.handlers@) }
    }
}

/// The run a fresh step starts from: a scope, no event used, no request
/// made.
pub open spec fn fresh_run(scope: SpecScope) -> SpecRun {
    SpecRun { scope, pos: 0, requests: Seq::empty() }
}

// ------------------------------------------------------------------
// Definition: from a block to an agent
// ------------------------------------------------------------------

/// The scope an agent starts with: the given scope with `me` bound to the
/// agent's own channel and each built-in channel bound under its name.
pub open spec fn spec_with_defaults(s: SpecScope, me: Channel, d: DefaultAgentChannels) -> SpecScope {
    let b = spec_default_bindings(d);
    let s1 = spec_bind(s, "me"@, SpecValue::Channel(me));
    let s2 = spec_bind(s1, b[0].0, SpecValue::Channel(b[0].1));
    let s3 = spec_bind(s2, b[1].0, SpecValue::Channel(b[1].1));
    let s4 = spec_bind(s3, b[2].0, SpecValue::Channel(b[2].1));
    let s5 = spec_bind(s4, b[3].0, SpecValue::Channel(b[3].1));
    let s6 = spec_bind(s5, b[4].0, SpecValue::Channel(b[4].1));
    spec_bind(s6, b[5].0, SpecValue::Channel(b[5].1))
}

/// The handlers among the first `n` statements, in order.
pub open spec fn block_handlers(ss: Seq<SpecStatement>, n: int) -> Seq<SpecHandler>
    decreases n,
{
    if n <= 0 || n > ss.len() {
        Seq::empty()
    } else {
        let prev = block_handlers(ss, n - 1);
        match ss[n - 1] {
            SpecStatement::Handler(h) => prev.push(h),
            _ => prev,
        }
    }
}

/// Runs the statements from index `i` on, each on its own, skipping the
/// handlers: a statement's value is dropped, an error value included.
pub open spec fn spec_run_each(ss: Seq<SpecStatement>, i: int, st: SpecRun, events: Seq<SpecEvent>, fuel: nat) -> SpecStep<SpecValue>
    decreases ss.len() - i,
{
    if i < 0 || i >= ss.len() {
        SpecStep::Done(SpecValue::Empty, st)
    } else if ss[i] is Handler {
        spec_run_each(ss, i + 1, st, events, fuel)
    } else {
        match spec_exec(ss[i], st, events, fuel) {
            SpecStep::Done(_, st1) => spec_run_each(ss, i + 1, st1, events, fuel),
            other => other,
        }
    }
}

/// How far making an agent from a block got.
#[derive(Debug)]
pub enum Setup {
    /// The agent is made.
    Ready(DynamicAgent),
    /// The block's statements wait on the answer to the run's last request.
    Waiting(Run),
    /// The block's statements stopped the program.
    Fault(String),
}

/// The mathematical form of a [`Setup`].
pub enum SpecSetup {
    Ready(SpecDynamic),
    Waiting(SpecRun),
    Fault(Seq<char>),
}

impl View for Setup {
    type V = SpecSetup;

    open spec fn view(&self) -> SpecSetup {
        match self {
            Setup::Ready(a) => SpecSetup::Ready(a@),
            Setup::Waiting(r) => SpecSetup::Waiting(r@),
            Setup::Fault(m) => SpecSetup::Fault(m@),
        }
    }
}

/// Making an agent named `name` from a definition block: its scope starts
/// as the given one with the built-in bindings; its handlers are the
/// block's handler statements, in order; the block's other statements run
/// in its scope, one after the other.
pub open spec fn spec_from_block(
    name: Seq<char>,
    block: SpecBlock,
    scope: SpecScope,
    me: Channel,
    d: DefaultAgentChannels,
    events: Seq<SpecEvent>,
    fuel: nat,
) -> SpecSetup {
    let ss = block.statements;
    match spec_run_each(ss, 0, fresh_run(spec_with_defaults(scope, me, d)), events, fuel) {
        SpecStep::Done(_, st) => SpecSetup::Ready(
            SpecDynamic { name, scope: st.scope, handlers: block_handlers(ss, ss.len() as int) },
        ),
        SpecStep::Wait(st) => SpecSetup::Waiting(st),
        SpecStep::Fault(m, _) => SpecSetup::Fault(m),
    }
}

fn bind_channel(scope: &mut Scope, name: &str, c: Channel)
    ensures
        final(scope)@ == spec_bind(old(scope)@, name@, SpecValue::Channel(c)),
{
    scope.set(text_of(name), Value::Channel(c));
}

fn collect_handlers(ss: &Vec<Statement>) -> (r: Vec<Handler>)
    ensures
        handlers_of(r@) == block_handlers(statements_of(ss@), ss@.len() as int),
{
    proof {
        lemma_statements_of(ss@);
    }
    let ghost sv = statements_of(ss@);
    let mut out: Vec<Handler> = Vec::new();
    let mut i: usize = 0;
    while i < ss.len()
        invariant
            i <= ss@.len(),
            sv == statements_of(ss@),
            sv.len() == ss@.len(),
            forall|j: int| 0 <= j < ss@.len() ==> #[trigger] sv[j] == ss@[j]@,
            handlers_of(out@) == block_handlers(sv, i as int),
        decreases ss@.len() - i,
    {
        let ghost before = out@;
        match &ss[i] {
            Statement::Handler(h) => {
                out.push(h.duplicate());
                proof {
                    lemma_handlers_of(before);
                    lemma_handlers_of(out@);
                    assert(handlers_of(out@) =~= handlers_of(before).push(sv[i as int]->Handler_0));
                }
            },
            _ => {},
        }
        i += 1;
    }
    out
}

/// Runs statement `i` of a definition block: `None` when the setup goes
/// on, with the state after the statement; the setup's outcome when the
/// statement waits or stops the program.
fn run_each_step(ss: &Vec<Statement>, i: usize, run: &mut Run, events: &Vec<Event>, fuel: usize) -> (r: Option<Setup>)
    requires
        i < ss@.len(),
    ensures
        match r {
            None => spec_run_each(statements_of(ss@), i as int, old(run)@, events_of(events@), fuel as nat)
                == spec_run_each(statements_of(ss@), i + 1, final(run)@, events_of(events@), fuel as nat),
            Some(Setup::Waiting(w)) => spec_run_each(statements_of(ss@), i as int, old(run)@, events_of(events@), fuel as nat)
                == SpecStep::<SpecValue>::Wait(w@),
            Some(Setup::Fault(m)) => spec_run_each(statements_of(ss@), i as int, old(run)@, events_of(events@), fuel as nat)
                == SpecStep::<SpecValue>::Fault(m@, final(run)@),
            Some(Setup::Ready(_)) => false,
        },
{
    proof {
        lemma_statements_of(ss@);
    }
    match &ss[i] {
        Statement::Handler(_) => None,
        st => {
            match exec_stmt(st, run, events, fuel) {
                Outcome::Done(_) => None,
                Outcome::Wait => {
                    let mut w = Run::new(Scope::new());
                    std::mem::swap(&mut w, run);
                    Some(Setup::Waiting(w))
                },
                Outcome::Fault(m) => Some(Setup::Fault(m)),
            }
        },
    }
}

impl DynamicAgent {
    /// Makes an agent from a definition block (see [`spec_from_block`]).
    pub fn from_block(
        name: &String,
        block: &Block,
        scope: Scope,
        me: Channel,
        defaults: &DefaultAgentChannels,
        events: &Vec<Event>,
        fuel: usize,
    ) -> (r: Setup)
        ensures
            r@ == spec_from_block(name@, block@, scope@, me, *defaults, events_of(events@), fuel as nat),
    {
        let mut s = scope;
        bind_channel(&mut s, "me", me);
        let chans = defaults.get_channels();
        bind_channel(&mut s, "Io", defaults.io_agent);
        bind_channel(&mut s, "Fs", defaults.fs_agent);
        bind_channel(&mut s, "Registry", defaults.registry_agent);
        bind_channel(&mut s, "agent", defaults.agent_agent);
        bind_channel(&mut s, "spawn", defaults.spawn_agent);
        bind_channel(&mut s, "new", defaults.new_agent);
        let ghost start = s@;
        let ss = &block.statements;
        proof {
            lemma_statements_of(ss@);
            assert(start == spec_with_defaults(scope@, me, *defaults));
        }
        let ghost sv = statements_of(ss@);
        let ghost ev = events_of(events@);
        let mut run = Run::new(s);
        let mut i: usize = 0;
        while i < ss.len()
            invariant
                i <= ss@.len(),
                sv == statements_of(ss@),
                ev == events_of(events@),
                sv == block@.statements,
                start == spec_with_defaults(scope@, me, *defaults),
                spec_run_each(sv, 0, fresh_run(start), ev, fuel as nat) == spec_run_each(sv, i as int, run@, ev, fuel as nat),
            decreases ss@.len() - i,
        {
            match run_each_step(ss, i, &mut run, events, fuel) {
                Some(stop) => {
                    return stop;
                },
                None => {},
            }
            i += 1;
        }
        let handlers = collect_handlers(ss);
        Setup::Ready(DynamicAgent { name: copy_string(name), scope: run.scope, handlers })
    }
}

// ------------------------------------------------------------------
// Answering messages
// ------------------------------------------------------------------

/// Which handler answers a message.
pub enum SpecDispatch {
    /// Handler `k` matches, binding the scope shown.
    Matched(int, SpecScope),
    /// Testing the message against a handler's pattern stops the program.
    BindFault,
    /// No handler matches; the scope that the failed matches left.
    NoMatch(SpecScope),
}

/// The first handler from index `k` on whose pattern matches the message
/// terms, each tried in the scope that the failed matches before it left
/// (see [`try_bind_context`]).
pub open spec fn spec_dispatch(hs: Seq<SpecHandler>, terms: Seq<SpecValue>, scope: SpecScope, k: int) -> SpecDispatch
    decreases hs.len() - k,
{
    if k < 0 || k >= hs.len() {
        SpecDispatch::NoMatch(scope)
    } else if bind_faults(hs[k].pattern, terms) {
        SpecDispatch::BindFault
    } else {
        match spec_try_bind(hs[k].pattern, terms, scope) {
            Some(s) => SpecDispatch::Matched(k, s),
            None => spec_dispatch(hs, terms, try_bind_context(hs[k].pattern, terms, scope), k + 1),
        }
    }
}

/// How answering a message went.
#[derive(Debug)]
pub enum Handled {
    /// No handler matched; the reply that says so.
    NoHandler(Option<Outgoing>),
    /// A handler's block ran to the end with this value; the reply that
    /// carries it.
    Ran { value: Value, reply: Option<Outgoing> },
    /// The handler's block waits on the answer to the run's last request.
    Waiting(Run),
    /// The program stopped.
    Fault(String),
}

/// The mathematical form of a [`Handled`].
pub enum SpecHandled {
    NoHandler(Option<SpecOutgoing>),
    Ran { value: SpecValue, reply: Option<SpecOutgoing> },
    Waiting(SpecRun),
    Fault(Seq<char>),
}

impl View for Handled {
    type V = SpecHandled;

    open spec fn view(&self) -> SpecHandled {
        match self {
            Handled::NoHandler(o) => SpecHandled::NoHandler(outgoing_view(*o)),
            Handled::Ran { value, reply } => SpecHandled::Ran { value: value@, reply: outgoing_view(*reply) },
            Handled::Waiting(r) => SpecHandled::Waiting(r@),
            Handled::Fault(m) => SpecHandled::Fault(m@),
        }
    }
}

/// The description of a fault when a message nests too deeply to print.
pub open spec fn too_deep_text() -> Seq<char> {
    "message nests too deeply to print"@
}

/// How an agent answers a message, and its scope afterwards.
///
/// The first handler whose pattern matches runs its block in the scope
/// that matching bound; when the block finishes, its value is the reply,
/// and the bindings it left are the agent's bindings from then on (the
/// scope it runs in shares the agent's bindings). The holes that failed
/// matches bound before their mismatch stay bound too. When no handler
/// matches, the reply is a `HandlerNotFound` error that shows the message
/// on one line.
pub open spec fn spec_dynamic_handle(a: SpecDynamic, msg: SpecMessage, events: Seq<SpecEvent>, fuel: nat) -> (SpecHandled, SpecScope) {
    match spec_dispatch(a.handlers, msg.terms, a.scope, 0) {
        SpecDispatch::NoMatch(ctx) => {
            if sexpr_depth(message_sexpr(msg)) <= usize::MAX {
                let text = spec_format(message_sexpr(msg), 0, 0);
                (
                    SpecHandled::NoHandler(spec_reply(msg, seq![SpecValue::Error(SpecRuntimeError::HandlerNotFound(text))])),
                    ctx,
                )
            } else {
                (SpecHandled::Fault(too_deep_text()), a.scope)
            }
        },
        SpecDispatch::BindFault => (SpecHandled::Fault("division by zero in a pattern"@), a.scope),
        SpecDispatch::Matched(k, s) => match spec_exec_block(a.handlers[k].block, fresh_run(s), events, fuel) {
            SpecStep::Done(v, st) => (
                SpecHandled::Ran { value: v, reply: spec_reply(msg, seq![v]) },
                SpecScope { bindings: st.scope.bindings, ..a.scope },
            ),
            SpecStep::Wait(st) => (SpecHandled::Waiting(st), a.scope),
            SpecStep::Fault(m, _) => (SpecHandled::Fault(m), a.scope),
        },
    }
}

/// Whether two scopes differ at most in their own bindings.
pub open spec fn same_but_bindings(a: SpecScope, b: SpecScope) -> bool {
    a == (SpecScope { bindings: a.bindings, ..b })
}

impl DynamicAgent {
    /// Answers a message (see [`spec_dynamic_handle`]); only a step that
    /// finishes changes the agent, and only its scope.
    pub fn handle_message(&mut self, msg: &Message, events: &Vec<Event>, fuel: usize) -> (r: Handled)
        ensures
            spec_dynamic_handle(old(self)@, msg@, events_of(events@), fuel as nat) == (r@, final(self)@.scope),
            final(self).name == old(self).name,
            final(self).handlers@ == old(self).handlers@,
    {
        proof {
            lemma_handlers_of(self.handlers@);
        }
        let ghost hs = handlers_of(self.handlers@);
        let ghost s0 = self.scope@;
        let mut ctx = self.scope.duplicate();
        let mut k: usize = 0;
        while k < self.handlers.len()
            invariant
                k <= self.handlers@.len(),
                hs == handlers_of(self.handlers@),
                hs.len() == self.handlers@.len(),
                forall|j: int| 0 <= j < self.handlers@.len() ==> #[trigger] hs[j] == self.handlers@[j]@,
                self.scope@ == s0,
                self.name == old(self).name,
                self.handlers@ == old(self).handlers@,
                s0 == old(self)@.scope,
                same_but_bindings(ctx@, s0),
                spec_dispatch(hs, msg@.terms, s0, 0) == spec_dispatch(hs, msg@.terms, ctx@, k as int),
            decreases self.handlers@.len() - k,
        {
            let pattern = &self.handlers[k].pattern;
            if pattern.bind_would_fault(msg) {
                return Handled::Fault(text_of("division by zero in a pattern"));
            }
            match pattern.try_bind(msg.duplicate(), &mut ctx) {
                Some(bound) => {
                    let (out, run) = run_block(&self.handlers[k].block, bound, events, fuel);
                    match out {
                        Outcome::Done(v) => {
                            let reply = reply_single(msg, v.duplicate());
                            self.scope.adopt_bindings(&run.scope);
                            return Handled::Ran { value: v, reply };
                        },
                        Outcome::Wait => {
                            return Handled::Waiting(run);
                        },
                        Outcome::Fault(m) => {
                            return Handled::Fault(m);
                        },
                    }
                },
                None => {},
            }
            k += 1;
        }
        let sx = message_to_sexpr(msg);
        match sx.depth() {
            Some(_) => {
                let text = sx.format(0);
                self.scope.adopt_bindings(&ctx);
                Handled::NoHandler(reply_single(msg, Value::Error(RuntimeError::HandlerNotFound(text))))
            },
            None => Handled::Fault(text_of("message nests too deeply to print")),
        }
    }
}

/// The handler that answers a message is the first one whose pattern
/// matches it: every handler before it neither matches nor stops the
/// program, and it runs in what its pattern bound in the scope that the
/// earlier, failed matches left.
pub proof fn lemma_first_match_answers(hs: Seq<SpecHandler>, terms: Seq<SpecValue>, scope: SpecScope, k: int)
    requires
        0 <= k,
    ensures
        spec_dispatch(hs, terms, scope, k) matches SpecDispatch::Matched(m, b) ==> {
            &&& k <= m < hs.len()
            &&& spec_try_bind(hs[m].pattern, terms, scope) is Some
            &&& !bind_faults(hs[m].pattern, terms)
            &&& forall|j: int| k <= j < m ==> (#[trigger] spec_try_bind(hs[j].pattern, terms, scope)) is None
                && !bind_faults(hs[j].pattern, terms)
        },
        spec_dispatch(hs, terms, scope, k) is NoMatch ==> forall|j: int| k <= j < hs.len()
            ==> (#[trigger] spec_try_bind(hs[j].pattern, terms, scope)) is None,
    decreases hs.len() - k,
{
    if k < hs.len() && !bind_faults(hs[k].pattern, terms) && spec_try_bind(hs[k].pattern, terms, scope) is None {
        let next = try_bind_context(hs[k].pattern, terms, scope);
        lemma_first_match_answers(hs, terms, next, k + 1);
        assert forall|j: int| k + 1 <= j < hs.len() implies
            (spec_try_bind(hs[j].pattern, terms, next) is None <==> #[trigger] spec_try_bind(hs[j].pattern, terms, scope) is None) by {}
    }
}

/// How an agent answers a message: when the handler at index `k` is the
/// first that matches, with the scope `b` that matching bound, only its
/// block runs, in `b`, and when it finishes with `v` the reply is exactly
/// `[v]`; when no handler matches, the reply is exactly a
/// `HandlerNotFound` error holding the message printed on one line.
pub proof fn lemma_answer(a: SpecDynamic, msg: SpecMessage, events: Seq<SpecEvent>, fuel: nat)
    ensures
        spec_dispatch(a.handlers, msg.terms, a.scope, 0) matches SpecDispatch::Matched(k, b) ==> {
            &&& 0 <= k < a.handlers.len()
            &&& forall|j: int| 0 <= j < k ==> (#[trigger] spec_try_bind(a.handlers[j].pattern, msg.terms, a.scope)) is None
            &&& spec_exec_block(a.handlers[k].block, fresh_run(b), events, fuel) matches SpecStep::Done(v, st) ==> spec_dynamic_handle(a, msg, events, fuel) == (
                SpecHandled::Ran { value: v, reply: spec_reply(msg, seq![v]) },
                SpecScope { bindings: st.scope.bindings, ..a.scope },
            )
        },
        spec_dispatch(a.handlers, msg.terms, a.scope, 0) matches SpecDispatch::NoMatch(ctx) ==> {
            &&& forall|j: int| 0 <= j < a.handlers.len() ==> (#[trigger] spec_try_bind(a.handlers[j].pattern, msg.terms, a.scope)) is None
            &&& sexpr_depth(message_sexpr(msg)) <= usize::MAX ==> spec_dynamic_handle(a, msg, events, fuel) == (
                SpecHandled::NoHandler(spec_reply(msg, seq![SpecValue::Error(SpecRuntimeError::HandlerNotFound(spec_format(message_sexpr(msg), 0, 0)))])),
                ctx,
            )
        },
{
    lemma_first_match_answers(a.handlers, msg.terms, a.scope, 0);
}

/// The scope that the failed matches of the first `k` handlers leave,
/// each tried in what the one before it left (see [`try_bind_context`]).
pub open spec fn failed_matches_context(hs: Seq<SpecHandler>, terms: Seq<SpecValue>, scope: SpecScope, k: int) -> SpecScope
    decreases k,
{
    if k <= 0 {
        scope
    } else {
        try_bind_context(hs[k - 1].pattern, terms, failed_matches_context(hs, terms, scope, k - 1))
    }
}

proof fn lemma_dispatch_reaches(hs: Seq<SpecHandler>, terms: Seq<SpecValue>, scope: SpecScope, k: int, i: int)
    requires
        0 <= i <= k < hs.len(),
        spec_try_bind(hs[k].pattern, terms, scope) is Some,
        forall|j: int| 0 <= j < k ==> (#[trigger] spec_try_bind(hs[j].pattern, terms, scope)) is None,
        forall|j: int| 0 <= j <= k ==> !#[trigger] bind_faults(hs[j].pattern, terms),
    ensures
        spec_dispatch(hs, terms, failed_matches_context(hs, terms, scope, i), i) == SpecDispatch::Matched(
            k,
            spec_try_bind(hs[k].pattern, terms, failed_matches_context(hs, terms, scope, k))->0,
        ),
    decreases k - i,
{
    let ctx = failed_matches_context(hs, terms, scope, i);
    assert(!bind_faults(hs[i].pattern, terms));
    if i < k {
        assert(spec_try_bind(hs[i].pattern, terms, scope) is None);
        assert(spec_try_bind(hs[i].pattern, terms, ctx) is None);
        assert(failed_matches_context(hs, terms, scope, i + 1) == try_bind_context(hs[i].pattern, terms, ctx));
        lemma_dispatch_reaches(hs, terms, scope, k, i + 1);
    } else {
        assert(spec_try_bind(hs[k].pattern, terms, ctx) is Some);
    }
}

proof fn lemma_dispatch_misses(hs: Seq<SpecHandler>, terms: Seq<SpecValue>, scope: SpecScope, i: int)
    requires
        0 <= i <= hs.len(),
        forall|j: int| 0 <= j < hs.len() ==> (#[trigger] spec_try_bind(hs[j].pattern, terms, scope)) is None,
        forall|j: int| 0 <= j < hs.len() ==> !#[trigger] bind_faults(hs[j].pattern, terms),
    ensures
        spec_dispatch(hs, terms, failed_matches_context(hs, terms, scope, i), i) == SpecDispatch::NoMatch(
            failed_matches_context(hs, terms, scope, hs.len() as int),
        ),
    decreases hs.len() - i,
{
    if i < hs.len() {
        let ctx = failed_matches_context(hs, terms, scope, i);
        assert(!bind_faults(hs[i].pattern, terms));
        assert(spec_try_bind(hs[i].pattern, terms, scope) is None);
        assert(spec_try_bind(hs[i].pattern, terms, ctx) is None);
        assert(failed_matches_context(hs, terms, scope, i + 1) == try_bind_context(hs[i].pattern, terms, ctx));
        lemma_dispatch_misses(hs, terms, scope, i + 1);
    }
}

/// Which handler answers, stated over the patterns alone: when the
/// handler at index `k` is the first whose pattern matches the message in
/// the agent's scope, and testing the patterns up to it does not stop the
/// program, exactly that handler answers. Its block runs in what its
/// pattern binds in the scope that the earlier, failed matches left (the
/// agent's scope with the holes they bound before their mismatch), and
/// when the block finishes with `v` the reply is exactly `[v]`.
pub proof fn lemma_first_matching_handler_answers(a: SpecDynamic, msg: SpecMessage, events: Seq<SpecEvent>, fuel: nat, k: int)
    requires
        0 <= k < a.handlers.len(),
        spec_try_bind(a.handlers[k].pattern, msg.terms, a.scope) is Some,
        forall|j: int| 0 <= j < k ==> (#[trigger] spec_try_bind(a.handlers[j].pattern, msg.terms, a.scope)) is None,
        forall|j: int| 0 <= j <= k ==> !#[trigger] bind_faults(a.handlers[j].pattern, msg.terms),
    ensures
        ({
            let b = spec_try_bind(a.handlers[k].pattern, msg.terms, failed_matches_context(a.handlers, msg.terms, a.scope, k))->0;
            &&& spec_dispatch(a.handlers, msg.terms, a.scope, 0) == SpecDispatch::Matched(k, b)
            &&& spec_exec_block(a.handlers[k].block, fresh_run(b), events, fuel) matches SpecStep::Done(v, st)
                ==> spec_dynamic_handle(a, msg, events, fuel) == (
                    SpecHandled::Ran { value: v, reply: spec_reply(msg, seq![v]) },
                    SpecScope { bindings: st.scope.bindings, ..a.scope },
                )
        }),
{
    lemma_dispatch_reaches(a.handlers, msg.terms, a.scope, k, 0);
}

/// When no handler's pattern matches the message, and testing them does
/// not stop the program, the reply is exactly a `HandlerNotFound` error
/// holding the message printed on one line, and the agent keeps the
/// scope that the failed matches left.
pub proof fn lemma_no_matching_handler(a: SpecDynamic, msg: SpecMessage, events: Seq<SpecEvent>, fuel: nat)
    requires
        forall|j: int| 0 <= j < a.handlers.len() ==> (#[trigger] spec_try_bind(a.handlers[j].pattern, msg.terms, a.scope)) is None,
        forall|j: int| 0 <= j < a.handlers.len() ==> !#[trigger] bind_faults(a.handlers[j].pattern, msg.terms),
        sexpr_depth(message_sexpr(msg)) <= usize::MAX,
    ensures
        spec_dynamic_handle(a, msg, events, fuel) == (
            SpecHandled::NoHandler(spec_reply(msg, seq![SpecValue::Error(SpecRuntimeError::HandlerNotFound(spec_format(message_sexpr(msg), 0, 0)))])),
            failed_matches_context(a.handlers, msg.terms, a.scope, a.handlers.len() as int),
        ),
{
    lemma_dispatch_misses(a.handlers, msg.terms, a.scope, 0);
}

/// The names bound in a new agent's scope: `me` to its own channel, and
/// `Io`, `Fs`, `Registry`, `agent`, `spawn` and `new` to the built-in
/// channels; every other name keeps its value.
pub proof fn lemma_with_defaults(s: SpecScope, me: Channel, d: DefaultAgentChannels)
    ensures
        spec_lookup(spec_with_defaults(s, me, d), "me"@) == Some(SpecValue::Channel(me)),
        spec_lookup(spec_with_defaults(s, me, d), "Io"@) == Some(SpecValue::Channel(d.io_agent)),
        spec_lookup(spec_with_defaults(s, me, d), "Fs"@) == Some(SpecValue::Channel(d.fs_agent)),
        spec_lookup(spec_with_defaults(s, me, d), "Registry"@) == Some(SpecValue::Channel(d.registry_agent)),
        spec_lookup(spec_with_defaults(s, me, d), "agent"@) == Some(SpecValue::Channel(d.agent_agent)),
        spec_lookup(spec_with_defaults(s, me, d), "spawn"@) == Some(SpecValue::Channel(d.spawn_agent)),
        spec_lookup(spec_with_defaults(s, me, d), "new"@) == Some(SpecValue::Channel(d.new_agent)),
        forall|k: Seq<char>|
            k != "me"@ && k != "Io"@ && k != "Fs"@ && k != "Registry"@ && k != "agent"@ && k != "spawn"@ && k != "new"@
            ==> #[trigger] spec_lookup(spec_with_defaults(s, me, d), k) == spec_lookup(s, k),
{
    reveal_strlit("me");
    reveal_strlit("Io");
    reveal_strlit("Fs");
    reveal_strlit("Registry");
    reveal_strlit("agent");
    reveal_strlit("spawn");
    reveal_strlit("new");
    let t = spec_with_defaults(s, me, d);
    assert("me"@ != "Io"@ && "me"@ != "Fs"@ && "me"@ != "Registry"@ && "me"@ != "agent"@ && "me"@ != "spawn"@ && "me"@ != "new"@) by {
        assert("me"@[0] != "Io"@[0] && "me"@[0] != "Fs"@[0] && "me"@.len() != "Registry"@.len() && "me"@.len() != "agent"@.len()
            && "me"@.len() != "spawn"@.len() && "me"@.len() != "new"@.len());
    }
    assert("Io"@ != "Fs"@ && "Io"@ != "Registry"@ && "Io"@ != "agent"@ && "Io"@ != "spawn"@ && "Io"@ != "new"@) by {
        assert("Io"@[0] != "Fs"@[0] && "Io"@.len() != "Registry"@.len() && "Io"@.len() != "agent"@.len()
            && "Io"@.len() != "spawn"@.len() && "Io"@.len() != "new"@.len());
    }
    assert("Fs"@ != "Registry"@ && "Fs"@ != "agent"@ && "Fs"@ != "spawn"@ && "Fs"@ != "new"@) by {
        assert("Fs"@.len() != "Registry"@.len() && "Fs"@.len() != "agent"@.len() && "Fs"@.len() != "spawn"@.len()
            && "Fs"@.len() != "new"@.len());
    }
    assert("Registry"@ != "agent"@ && "Registry"@ != "spawn"@ && "Registry"@ != "new"@) by {
        assert("Registry"@.len() != "agent"@.len() && "Registry"@.len() != "spawn"@.len() && "Registry"@.len() != "new"@.len());
    }
    assert("agent"@ != "spawn"@ && "agent"@ != "new"@) by {
        assert("agent"@[0] != "spawn"@[0] && "agent"@.len() != "new"@.len());
    }
    assert("spawn"@ != "new"@) by {
        assert("spawn"@.len() != "new"@.len());
    }
}

/// Making an agent from a block: it gets the given name, and the block's
/// handler statements, in order, as its handlers; the block's other
/// statements run one after another, each once, starting in the given
/// scope with the built-in bindings (see [`lemma_with_defaults`]).
pub proof fn lemma_from_block(
    name: Seq<char>,
    block: SpecBlock,
    scope: SpecScope,
    me: Channel,
    d: DefaultAgentChannels,
    events: Seq<SpecEvent>,
    fuel: nat,
)
    ensures
        spec_from_block(name, block, scope, me, d, events, fuel) matches SpecSetup::Ready(a) ==> {
            &&& a.name == name
            &&& a.handlers == block_handlers(block.statements, block.statements.len() as int)
            &&& spec_run_each(block.statements, 0, fresh_run(spec_with_defaults(scope, me, d)), events, fuel) matches SpecStep::Done(_, st)
                && a.scope == st.scope
        },
        forall|n: int| 0 < n <= block.statements.len() ==> #[trigger] block_handlers(block.statements, n) == match block.statements[n - 1] {
            SpecStatement::Handler(h) => block_handlers(block.statements, n - 1).push(h),
            _ => block_handlers(block.statements, n - 1),
        },
{
}

/// Whether a statement of a definition block is not a handler.
pub open spec fn not_handler() -> spec_fn(SpecStatement) -> bool {
    |st: SpecStatement| !(st is Handler)
}

/// The handler a statement of a definition block declares, if any.
pub open spec fn declared_handler() -> spec_fn(SpecStatement) -> Option<SpecHandler> {
    |st: SpecStatement| match st {
        SpecStatement::Handler(h) => Some(h),
        _ => None,
    }
}

/// Runs every statement, in order, each once, until one does not finish;
/// a statement's value is dropped.
pub open spec fn spec_run_all(ss: Seq<SpecStatement>, st: SpecRun, events: Seq<SpecEvent>, fuel: nat) -> SpecStep<SpecValue>
    decreases ss.len(),
{
    if ss.len() == 0 {
        SpecStep::Done(SpecValue::Empty, st)
    } else {
        match spec_exec(ss[0], st, events, fuel) {
            SpecStep::Done(_, st1) => spec_run_all(ss.drop_first(), st1, events, fuel),
            other => other,
        }
    }
}

proof fn lemma_block_handlers_filter(ss: Seq<SpecStatement>, n: int)
    requires
        0 <= n <= ss.len(),
    ensures
        block_handlers(ss, n) == ss.take(n).filter_map(declared_handler()),
    decreases n,
{
    if n == 0 {
        assert(ss.take(0) =~= Seq::<SpecStatement>::empty());
    } else {
        lemma_block_handlers_filter(ss, n - 1);
        ss.lemma_filter_map_take_succ(declared_handler(), n - 1);
        let prev = ss.take(n - 1).filter_map(declared_handler());
        match ss[n - 1] {
            SpecStatement::Handler(h) => {
                assert(prev.push(h) =~= prev + seq![h]);
            },
            _ => {
                assert(prev =~= prev + Seq::<SpecHandler>::empty());
            },
        }
    }
}

proof fn lemma_run_each_filter(ss: Seq<SpecStatement>, i: int, st: SpecRun, events: Seq<SpecEvent>, fuel: nat)
    requires
        0 <= i <= ss.len(),
    ensures
        spec_run_each(ss, i, st, events, fuel) == spec_run_all(ss.subrange(i, ss.len() as int).filter(not_handler()), st, events, fuel),
    decreases ss.len() - i,
{
    let rest = ss.subrange(i, ss.len() as int);
    if i == ss.len() {
        assert(rest =~= Seq::<SpecStatement>::empty());
        rest.lemma_filter_len(not_handler());
        assert(rest.filter(not_handler()).len() == 0);
    } else {
        let tail = ss.subrange(i + 1, ss.len() as int);
        assert(rest =~= seq![ss[i]] + tail);
        tail.lemma_filter_prepend(ss[i], not_handler());
        let tf = tail.filter(not_handler());
        if ss[i] is Handler {
            assert(rest.filter(not_handler()) =~= tf);
            lemma_run_each_filter(ss, i + 1, st, events, fuel);
        } else {
            let f = seq![ss[i]] + tf;
            assert(rest.filter(not_handler()) == f);
            assert(f[0] == ss[i]);
            assert(f.drop_first() =~= tf);
            match spec_exec(ss[i], st, events, fuel) {
                SpecStep::Done(_, st1) => lemma_run_each_filter(ss, i + 1, st1, events, fuel),
                _ => {},
            }
        }
    }
}

/// Making an agent from a definition block, stated over the block's
/// statements: the agent gets the given name, and as its handlers the
/// handlers the block declares, in the block's order; the block's other
/// statements run once each, in order, starting in the given scope with
/// `me` and the built-in channels bound (see [`lemma_with_defaults`]),
/// and the scope they leave is the agent's. When one of them waits or
/// stops the program, so does making the agent.
pub proof fn lemma_setup_from_statements(
    name: Seq<char>,
    block: SpecBlock,
    scope: SpecScope,
    me: Channel,
    d: DefaultAgentChannels,
    events: Seq<SpecEvent>,
    fuel: nat,
)
    ensures
        spec_from_block(name, block, scope, me, d, events, fuel) == match spec_run_all(
            block.statements.filter(not_handler()),
            fresh_run(spec_with_defaults(scope, me, d)),
            events,
            fuel,
        ) {
            SpecStep::Done(_, st) => SpecSetup::Ready(
                SpecDynamic { name, scope: st.scope, handlers: block.statements.filter_map(declared_handler()) },
            ),
            SpecStep::Wait(st) => SpecSetup::Waiting(st),
            SpecStep::Fault(m, _) => SpecSetup::Fault(m),
        },
{
    let ss = block.statements;
    lemma_run_each_filter(ss, 0, fresh_run(spec_with_defaults(scope, me, d)), events, fuel);
    assert(ss.subrange(0, ss.len() as int) =~= ss);
    lemma_block_handlers_filter(ss, ss.len() as int);
    assert(ss.take(ss.len() as int) =~= ss);
}

} // verus!
