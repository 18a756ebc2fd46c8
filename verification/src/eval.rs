//! The meaning of running code, stated as a replayable computation.
//!
//! Running a block needs outside work now and then: a message is sent, a
//! reply is awaited, a list agent is spawned, a member is read from an
//! agent. The computation here records every such [`SpecRequest`] in
//! order and takes the answer to the `k`-th request from the `k`-th entry
//! of a list of events. When the list runs out, the computation stops
//! and waits: the runtime performs the last request, appends its answer,
//! and runs the same code again from the start. Since the computation is
//! a function of the code, the starting scope and the events, the second
//! run repeats the first and goes one step further.
use vstd::prelude::*;
use crate::ast::{SpecBlock, SpecExpr, SpecStatement, SpecTypeExpr, SpecValue};
use crate::channel::{Channel, uuid_text};
use crate::debug_text::{first_debug, type_expr_debug, value_debug, values_debug};
use crate::error::{SpecRuntimeError, runtime_error_text};
use crate::number::{NumOp, Number, number_text, spec_arith};
use crate::operators::BinaryOp;
use crate::scope::{SpecScope, spec_bind, spec_lookup};
use crate::to_sexpr::bool_text;
use crate::value_type::{SpecValueType, spec_value_subtype};
use crate::values::{spec_type_of, spec_value_eq};

verus! {

/// Outside work that running code asks for.
pub enum SpecRequest {
    /// Deliver a message without a reply channel.
    Send { target: Channel, terms: Seq<SpecValue> },
    /// Deliver a message with a fresh reply channel and await one reply.
    Ask { target: Channel, terms: Seq<SpecValue> },
    /// Spawn a list agent that holds the items.
    SpawnList { items: Seq<SpecValue> },
    /// Read the member `name` of the agent behind `target`.
    Fetch { target: Channel, name: Seq<char> },
}

/// The answer to a request.
pub enum SpecEvent {
    Sent,
    SendFailed,
    Replied(Seq<SpecValue>),
    ReceiveFailed,
    Spawned(Channel),
    Fetched(Option<SpecValue>),
}

/// The state of a run: the scope, how many events have been used, and the
/// requests made so far.
pub struct SpecRun {
    pub scope: SpecScope,
    pub pos: nat,
    pub requests: Seq<SpecRequest>,
}

/// How far a computation got.
pub enum SpecStep<T> {
    /// It finished with a result.
    Done(T, SpecRun),
    /// It needs the answer to its last request.
    Wait(SpecRun),
    /// It stopped the program, for the reason given.
    Fault(Seq<char>, SpecRun),
}

/// A step that did not finish, carried over to another result type.
pub open spec fn carry<A, B>(s: SpecStep<A>) -> SpecStep<B> {
    match s {
        SpecStep::Wait(st) => SpecStep::Wait(st),
        SpecStep::Fault(m, st) => SpecStep::Fault(m, st),
        SpecStep::Done(_, st) => SpecStep::Wait(st),
    }
}

/// Makes a request: it is recorded, and its answer is the next unused
/// event, if there is one.
pub open spec fn spec_request(st: SpecRun, events: Seq<SpecEvent>, req: SpecRequest) -> (Option<SpecEvent>, SpecRun) {
    let recorded = SpecRun { requests: st.requests.push(req), ..st };
    if st.pos < events.len() {
        (Some(events[st.pos as int]), SpecRun { pos: st.pos + 1, ..recorded })
    } else {
        (None, recorded)
    }
}

/// The reason given when an answer does not fit its request.
pub open spec fn mismatched_event_text() -> Seq<char> {
    "event does not answer the request"@
}

/// The reason given when a reply holds other than one term.
pub open spec fn reply_arity_text() -> Seq<char> {
    "Expected a single term in reply"@
}

/// The reason given when an expansion names a bound variable.
pub open spec fn bound_expansion_text() -> Seq<char> {
    "Expander should not be called with a bound variable"@
}

/// The reason given when block expansions nest deeper than allowed.
pub open spec fn depth_exceeded_text() -> Seq<char> {
    "block expansion nested too deeply"@
}

/// The reason given when arithmetic stops the program.
pub open spec fn arith_fault_text(op: NumOp) -> Seq<char> {
    match op {
        NumOp::Add => "Cannot add these numbers"@,
        NumOp::Sub => "Cannot subtract these numbers"@,
        NumOp::Mul => "Cannot multiply these numbers"@,
        NumOp::Div => "Cannot divide these numbers"@,
        NumOp::Rem => "Cannot take the remainder of these numbers"@,
    }
}

/// The text that `Display` shows for a value in error messages.
pub open spec fn value_display_text(v: SpecValue) -> Seq<char> {
    match v {
        SpecValue::Empty => "Empty"@,
        SpecValue::Error(e) => "Error: "@ + runtime_error_text(e),
        SpecValue::Channel(c) => "Channel: "@ + uuid_text(c.id),
        SpecValue::Boolean(b) => "Boolean: "@ + bool_text(b),
        SpecValue::Word(w) => "Word: "@ + w,
        SpecValue::String(s) => "String: "@ + s,
        SpecValue::Number(n) => "Number: "@ + number_text(n),
        SpecValue::List(vs) => "List: "@ + values_debug(vs),
        SpecValue::Block(_) => "Block"@,
        SpecValue::Bytes(_) => "Bytes"@,
        SpecValue::Embedded(_) => "EmbeddedBlock"@,
    }
}

/// The type relation between pattern terms: `Empty` is below every term,
/// types compare by the subtype relation of value types, and the other
/// terms are below equal terms of their own kind.
pub open spec fn spec_type_expr_subtype(a: SpecTypeExpr, b: SpecTypeExpr) -> bool {
    match (a, b) {
        (SpecTypeExpr::Empty, _) => true,
        (SpecTypeExpr::Type(x), SpecTypeExpr::Type(y)) => spec_value_subtype(x, y),
        (SpecTypeExpr::Word(x), SpecTypeExpr::Word(y)) => x == y,
        (SpecTypeExpr::Hole(x), SpecTypeExpr::Hole(y)) => x == y,
        (SpecTypeExpr::BlockHole(x), SpecTypeExpr::BlockHole(y)) => x == y,
        (SpecTypeExpr::Value(x), SpecTypeExpr::Value(y)) => spec_value_eq(x, y),
        _ => false,
    }
}

/// The message of the error that a field declaration gives for a value of
/// the wrong type.
pub open spec fn field_mismatch_text(expected: SpecTypeExpr, found: SpecValueType) -> Seq<char> {
    "Expected type "@ + type_expr_debug(expected) + ", found "@ + type_expr_debug(SpecTypeExpr::Type(found))
}

pub open spec fn type_mismatch(msg: Seq<char>) -> SpecValue {
    SpecValue::Error(SpecRuntimeError::TypeMismatch(msg))
}

/// The error for a member read through a name bound to something other
/// than a channel.
pub open spec fn not_a_channel(v: SpecValue) -> SpecValue {
    type_mismatch("Expected a channel, found "@ + value_debug(v))
}

/// The error for a member read whose operands are neither a channel and
/// a word nor two words.
pub open spec fn bad_access(l: SpecValue, r: SpecValue) -> SpecValue {
    type_mismatch("Expected a channel or word, found "@ + value_debug(l) + " "@ + value_debug(r))
}

/// The error for a channel's items that do not start with a channel.
pub open spec fn items_without_target(list: Seq<SpecValue>) -> SpecValue {
    type_mismatch("Expected a channel, found "@ + first_debug(list))
}

/// The error for a channel whose items are not a list.
pub open spec fn items_not_a_list(v: SpecValue) -> SpecValue {
    type_mismatch("Expected a list, found "@ + value_debug(v))
}

/// The error for an expanded list that does not start with a channel.
pub open spec fn list_without_target(list: Seq<SpecValue>) -> SpecValue {
    type_mismatch("Expected a channel or word, found "@ + first_debug(list))
}

/// The error for expanding a value that is neither a word, a block, a
/// list nor a channel.
pub open spec fn not_expandable(v: SpecValue) -> SpecValue {
    type_mismatch("Expected a word or block, found "@ + value_debug(v))
}

/// A number operation inside running code: its result, or a fault where
/// the number operators stop the program.
pub open spec fn arith_step(op: NumOp, a: Number, b: Number, st: SpecRun) -> SpecStep<SpecValue> {
    match spec_arith(op, a, b) {
        Some(n) => SpecStep::Done(SpecValue::Number(n), st),
        None => SpecStep::Fault(arith_fault_text(op), st),
    }
}

/// Reads a member of an agent; `missing` is the result when the agent
/// has no such member.
pub open spec fn fetch_step(target: Channel, name: Seq<char>, missing: SpecValue, st: SpecRun, events: Seq<SpecEvent>) -> SpecStep<SpecValue> {
    let (ev, st1) = spec_request(st, events, SpecRequest::Fetch { target, name });
    match ev {
        None => SpecStep::Wait(st1),
        Some(SpecEvent::Fetched(Some(v))) => SpecStep::Done(v, st1),
        Some(SpecEvent::Fetched(None)) => SpecStep::Done(missing, st1),
        Some(_) => SpecStep::Fault(mismatched_event_text(), st1),
    }
}

/// A binary operator applied to two evaluated operands.
pub open spec fn spec_binary(op: BinaryOp, l: SpecValue, r: SpecValue, st: SpecRun, events: Seq<SpecEvent>) -> SpecStep<SpecValue> {
    match op {
        BinaryOp::Add => match (l, r) {
            (SpecValue::Number(a), SpecValue::Number(b)) => arith_step(NumOp::Add, a, b, st),
            (SpecValue::String(a), SpecValue::String(b)) => SpecStep::Done(SpecValue::String(a + b), st),
            (SpecValue::String(a), SpecValue::Channel(c)) => SpecStep::Done(SpecValue::String(a + uuid_text(c.id)), st),
            (SpecValue::String(a), SpecValue::Empty) => SpecStep::Done(SpecValue::String(a + "EMPTY"@), st),
            (SpecValue::String(a), SpecValue::Number(n)) => SpecStep::Done(SpecValue::String(a + number_text(n)), st),
            (SpecValue::Embedded(e), SpecValue::String(b)) => SpecStep::Done(
                SpecValue::Embedded(crate::ast::SpecEmbedded { text: e.text + b, ..e }),
                st,
            ),
            (SpecValue::String(a), SpecValue::Embedded(e)) => SpecStep::Done(
                SpecValue::Embedded(crate::ast::SpecEmbedded { text: a + e.text, ..e }),
                st,
            ),
            _ => SpecStep::Done(
                type_mismatch("Unsupported binary operation: "@ + value_display_text(l) + " "@ + value_display_text(r)),
                st,
            ),
        },
        BinaryOp::Sub => match (l, r) {
            (SpecValue::Number(a), SpecValue::Number(b)) => arith_step(NumOp::Sub, a, b, st),
            _ => SpecStep::Done(SpecValue::Empty, st),
        },
        BinaryOp::Mul => match (l, r) {
            (SpecValue::Number(a), SpecValue::Number(b)) => arith_step(NumOp::Mul, a, b, st),
            _ => SpecStep::Done(SpecValue::Empty, st),
        },
        BinaryOp::Div => match (l, r) {
            (SpecValue::Number(a), SpecValue::Number(b)) => if crate::number::num_value(b) == 0 {
                SpecStep::Done(SpecValue::Error(SpecRuntimeError::DivisionByZero), st)
            } else {
                arith_step(NumOp::Div, a, b, st)
            },
            _ => SpecStep::Done(SpecValue::Empty, st),
        },
        BinaryOp::Mod => match (l, r) {
            (SpecValue::Number(a), SpecValue::Number(b)) => if crate::number::num_value(b) == 0 {
                SpecStep::Done(SpecValue::Error(SpecRuntimeError::DivisionByZero), st)
            } else {
                arith_step(NumOp::Rem, a, b, st)
            },
            _ => SpecStep::Done(SpecValue::Empty, st),
        },
        BinaryOp::And => match (l, r) {
            (SpecValue::Boolean(a), SpecValue::Boolean(b)) => SpecStep::Done(SpecValue::Boolean(a && b), st),
            _ => SpecStep::Done(SpecValue::Empty, st),
        },
        BinaryOp::Or => match (l, r) {
            (SpecValue::Boolean(a), SpecValue::Boolean(b)) => SpecStep::Done(SpecValue::Boolean(a || b), st),
            _ => SpecStep::Done(SpecValue::Empty, st),
        },
        BinaryOp::Eq => SpecStep::Done(SpecValue::Boolean(spec_value_eq(l, r)), st),
        BinaryOp::Ne => SpecStep::Done(SpecValue::Boolean(!spec_value_eq(l, r)), st),
        BinaryOp::Access => match (l, r) {
            (SpecValue::Channel(c), SpecValue::Word(w)) => fetch_step(
                c,
                w,
                SpecValue::Error(SpecRuntimeError::NameNotFound(w)),
                st,
                events,
            ),
            (SpecValue::Word(w), SpecValue::Word(m)) => match spec_lookup(st.scope, w) {
                Some(SpecValue::Channel(c)) => fetch_step(c, m, SpecValue::Empty, st, events),
                Some(v) => SpecStep::Done(not_a_channel(v), st),
                None => SpecStep::Done(SpecValue::Error(SpecRuntimeError::NameNotFound(w)), st),
            },
            _ => SpecStep::Done(bad_access(l, r), st),
        },
    }
}

/// A message sent without awaiting a reply: `Empty` once delivered, a send
/// error otherwise, and a send error at once when the target is not a
/// channel.
pub open spec fn spec_call_send(target: SpecValue, args: Seq<SpecValue>, st: SpecRun, events: Seq<SpecEvent>) -> SpecStep<SpecValue> {
    match target {
        SpecValue::Channel(c) => {
            let (ev, st1) = spec_request(st, events, SpecRequest::Send { target: c, terms: args });
            match ev {
                None => SpecStep::Wait(st1),
                Some(SpecEvent::Sent) => SpecStep::Done(SpecValue::Empty, st1),
                Some(SpecEvent::SendFailed) => SpecStep::Done(SpecValue::Error(SpecRuntimeError::SendError), st1),
                Some(_) => SpecStep::Fault(mismatched_event_text(), st1),
            }
        },
        _ => SpecStep::Done(SpecValue::Error(SpecRuntimeError::SendError), st),
    }
}

/// The value of a reply, or why there is none.
pub open spec fn reply_step(ev: Option<SpecEvent>, st1: SpecRun) -> SpecStep<SpecValue> {
    match ev {
        None => SpecStep::Wait(st1),
        Some(SpecEvent::Replied(terms)) => if terms.len() == 1 {
            SpecStep::Done(terms[0], st1)
        } else {
            SpecStep::Fault(reply_arity_text(), st1)
        },
        Some(SpecEvent::SendFailed) => SpecStep::Done(SpecValue::Error(SpecRuntimeError::SendError), st1),
        Some(SpecEvent::ReceiveFailed) => SpecStep::Done(SpecValue::Error(SpecRuntimeError::ReceiveError), st1),
        Some(_) => SpecStep::Fault(mismatched_event_text(), st1),
    }
}

/// A message sent with a reply channel: the single term of the reply,
/// a send or receive error, and a send error at once when the target is
/// not a channel.
pub open spec fn spec_call_ask(target: SpecValue, args: Seq<SpecValue>, st: SpecRun, events: Seq<SpecEvent>) -> SpecStep<SpecValue> {
    match target {
        SpecValue::Channel(c) => {
            let (ev, st1) = spec_request(st, events, SpecRequest::Ask { target: c, terms: args });
            reply_step(ev, st1)
        },
        _ => SpecStep::Done(SpecValue::Error(SpecRuntimeError::SendError), st),
    }
}

/// A list whose first item is a channel, treated as a call: the rest are
/// the arguments.
pub open spec fn spec_call_list(list: Seq<SpecValue>, otherwise: SpecValue, st: SpecRun, events: Seq<SpecEvent>) -> SpecStep<SpecValue> {
    if list.len() > 0 && list[0] is Channel {
        spec_call_ask(list[0], list.subrange(1, list.len() as int), st, events)
    } else {
        SpecStep::Done(otherwise, st)
    }
}

/// Expanding a channel: its `items` are asked for, and the list they form
/// is called.
pub open spec fn spec_expand_channel(c: Channel, st: SpecRun, events: Seq<SpecEvent>) -> SpecStep<SpecValue> {
    let items_word = seq![SpecValue::Word("items"@)];
    let (ev, st1) = spec_request(st, events, SpecRequest::Ask { target: c, terms: items_word });
    match reply_step(ev, st1) {
        SpecStep::Done(items, st2) => match items {
            SpecValue::List(list) => spec_call_list(list, items_without_target(list), st2, events),
            _ => SpecStep::Done(items_not_a_list(items), st2),
        },
        other => other,
    }
}

/// The closure of an expression: variables bound in the scope are
/// replaced by their values, inside nested blocks too.
pub open spec fn closure_expr(e: SpecExpr, s: SpecScope) -> SpecExpr
    decreases e, 0int,
{
    match e {
        SpecExpr::Value(_) => e,
        SpecExpr::Variable(n) => match spec_lookup(s, n) {
            Some(v) => SpecExpr::Value(v),
            None => e,
        },
        SpecExpr::Binary(op, l, r) => SpecExpr::Binary(op, Box::new(closure_expr(*l, s)), Box::new(closure_expr(*r, s))),
        SpecExpr::Call(t, args) => SpecExpr::Call(Box::new(closure_expr(*t, s)), closure_exprs(args, args.len() as int, s)),
        SpecExpr::Block(b) => SpecExpr::Block(closure_block(b, s)),
        SpecExpr::List(items) => SpecExpr::List(closure_exprs(items, items.len() as int, s)),
    }
}

/// The closures of the first `n` expressions.
pub open spec fn closure_exprs(es: Seq<SpecExpr>, n: int, s: SpecScope) -> Seq<SpecExpr>
    decreases es, n,
{
    if n <= 0 || n > es.len() {
        Seq::empty()
    } else {
        closure_exprs(es, n - 1, s).push(closure_expr(es[n - 1], s))
    }
}

pub open spec fn closure_block(b: SpecBlock, s: SpecScope) -> SpecBlock
    decreases b, 0int,
{
    SpecBlock { statements: closure_stmts(b.statements, b.statements.len() as int, s) }
}

/// The closures of the first `n` statements.
pub open spec fn closure_stmts(ss: Seq<SpecStatement>, n: int, s: SpecScope) -> Seq<SpecStatement>
    decreases ss, n,
{
    if n <= 0 || n > ss.len() {
        Seq::empty()
    } else {
        closure_stmts(ss, n - 1, s).push(closure_stmt(ss[n - 1], s))
    }
}

pub open spec fn closure_stmt(st: SpecStatement, s: SpecScope) -> SpecStatement
    decreases st, 0int,
{
    match st {
        SpecStatement::Expr(e) => SpecStatement::Expr(closure_expr(e, s)),
        SpecStatement::Assignment(n, e) => SpecStatement::Assignment(n, closure_expr(e, s)),
        SpecStatement::Field(n, t, Some(e)) => SpecStatement::Field(n, t, Some(closure_expr(e, s))),
        SpecStatement::Expander(e) => SpecStatement::Expander(closure_expr(e, s)),
        _ => st,
    }
}

/// Evaluates an expression.
pub open spec fn spec_eval(e: SpecExpr, st: SpecRun, events: Seq<SpecEvent>, fuel: nat) -> SpecStep<SpecValue>
    decreases fuel, e, 0int,
{
    match e {
        SpecExpr::Value(v) => SpecStep::Done(v, st),
        SpecExpr::Variable(n) => match spec_lookup(st.scope, n) {
            Some(v) => SpecStep::Done(v, st),
            None => SpecStep::Done(SpecValue::Word(n), st),
        },
        SpecExpr::Binary(op, l, r) => match spec_eval(*l, st, events, fuel) {
            SpecStep::Done(lv, st1) => match spec_eval(*r, st1, events, fuel) {
                SpecStep::Done(rv, st2) => spec_binary(op, lv, rv, st2, events),
                other => other,
            },
            other => other,
        },
        SpecExpr::Call(t, args) => match spec_eval_all(args, args.len() as int, st, events, fuel) {
            SpecStep::Done(avs, st1) => match spec_eval(*t, st1, events, fuel) {
                SpecStep::Done(tv, st2) => spec_call_send(tv, avs, st2, events),
                other => other,
            },
            other => carry(other),
        },
        SpecExpr::Block(b) => SpecStep::Done(SpecValue::Block(closure_block(b, st.scope)), st),
        SpecExpr::List(items) => match spec_eval_all(items, items.len() as int, st, events, fuel) {
            SpecStep::Done(vs, st1) => {
                let (ev, st2) = spec_request(st1, events, SpecRequest::SpawnList { items: vs });
                match ev {
                    None => SpecStep::Wait(st2),
                    Some(SpecEvent::Spawned(c)) => SpecStep::Done(SpecValue::Channel(c), st2),
                    Some(_) => SpecStep::Fault(mismatched_event_text(), st2),
                }
            },
            other => carry(other),
        },
    }
}

/// Evaluates the first `n` expressions, left to right.
pub open spec fn spec_eval_all(es: Seq<SpecExpr>, n: int, st: SpecRun, events: Seq<SpecEvent>, fuel: nat) -> SpecStep<Seq<SpecValue>>
    decreases fuel, es, n,
{
    if n <= 0 || n > es.len() {
        SpecStep::Done(Seq::empty(), st)
    } else {
        match spec_eval_all(es, n - 1, st, events, fuel) {
            SpecStep::Done(vs, st1) => match spec_eval(es[n - 1], st1, events, fuel) {
                SpecStep::Done(v, st2) => SpecStep::Done(vs.push(v), st2),
                other => carry(other),
            },
            other => other,
        }
    }
}

/// Sends a call and awaits its reply, as an assignment of a call does.
pub open spec fn spec_eval_ask(t: SpecExpr, args: Seq<SpecExpr>, st: SpecRun, events: Seq<SpecEvent>, fuel: nat) -> SpecStep<SpecValue>
    decreases fuel, t, 1int,
{
    match spec_eval_all(args, args.len() as int, st, events, fuel) {
        SpecStep::Done(avs, st1) => match spec_eval(t, st1, events, fuel) {
            SpecStep::Done(tv, st2) => spec_call_ask(tv, avs, st2, events),
            other => other,
        },
        other => carry(other),
    }
}

/// Runs a statement.
pub open spec fn spec_exec(s: SpecStatement, st: SpecRun, events: Seq<SpecEvent>, fuel: nat) -> SpecStep<SpecValue>
    decreases fuel, s, 0int,
{
    match s {
        SpecStatement::Assignment(name, e) => {
            let r = match e {
                SpecExpr::Call(t, args) => spec_eval_ask(*t, args, st, events, fuel),
                _ => spec_eval(e, st, events, fuel),
            };
            match r {
                SpecStep::Done(v, st1) => SpecStep::Done(v, SpecRun { scope: spec_bind(st1.scope, name, v), ..st1 }),
                other => other,
            }
        },
        SpecStatement::Expr(e) => spec_eval(e, st, events, fuel),
        SpecStatement::Field(name, typ, Some(e)) => {
            let r = match spec_lookup(st.scope, name) {
                Some(v) => SpecStep::Done(v, st),
                None => spec_eval(e, st, events, fuel),
            };
            match r {
                SpecStep::Done(v, st1) => if spec_type_expr_subtype(SpecTypeExpr::Type(spec_type_of(v)), typ) {
                    SpecStep::Done(v, SpecRun { scope: spec_bind(st1.scope, name, v), ..st1 })
                } else {
                    SpecStep::Done(type_mismatch(field_mismatch_text(typ, spec_type_of(v))), st1)
                },
                other => other,
            }
        },
        SpecStatement::Expander(e) => match spec_eval(e, st, events, fuel) {
            SpecStep::Done(n, st1) => match n {
                SpecValue::Word(w) => match spec_lookup(st1.scope, w) {
                    Some(_) => SpecStep::Fault(bound_expansion_text(), st1),
                    None => SpecStep::Done(SpecValue::Error(SpecRuntimeError::NameNotFound(w)), st1),
                },
                SpecValue::Block(b) => if fuel == 0 {
                    SpecStep::Fault(depth_exceeded_text(), st1)
                } else {
                    spec_exec_block(b, st1, events, (fuel - 1) as nat)
                },
                SpecValue::List(list) => spec_call_list(list, list_without_target(list), st1, events),
                SpecValue::Channel(c) => spec_expand_channel(c, st1, events),
                _ => SpecStep::Done(not_expandable(n), st1),
            },
            other => other,
        },
        _ => SpecStep::Done(SpecValue::Empty, st),
    }
}

/// Runs a block: the value of its last statement that ran, skipping
/// no-ops and comments, and stopping after a statement whose value is an
/// error; `Empty` when nothing ran.
pub open spec fn spec_exec_block(b: SpecBlock, st: SpecRun, events: Seq<SpecEvent>, fuel: nat) -> SpecStep<SpecValue>
    decreases fuel, b, 0int,
{
    spec_exec_from(b.statements, 0, SpecValue::Empty, st, events, fuel)
}

/// Runs the statements from index `i` on, `last` being the value so far.
pub open spec fn spec_exec_from(
    ss: Seq<SpecStatement>,
    i: int,
    last: SpecValue,
    st: SpecRun,
    events: Seq<SpecEvent>,
    fuel: nat,
) -> SpecStep<SpecValue>
    decreases fuel, ss, ss.len() - i,
{
    if i < 0 || i >= ss.len() {
        SpecStep::Done(last, st)
    } else if ss[i] is NoOp || ss[i] is Comment {
        spec_exec_from(ss, i + 1, last, st, events, fuel)
    } else {
        match spec_exec(ss[i], st, events, fuel) {
            SpecStep::Done(v, st1) => if v is Error {
                SpecStep::Done(v, st1)
            } else {
                spec_exec_from(ss, i + 1, v, st1, events, fuel)
            },
            other => other,
        }
    }
}

} // verus!
