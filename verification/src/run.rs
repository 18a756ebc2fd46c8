//! Running code: the executable side of the computation that `eval`
//! states, with its requests and events.
use vstd::prelude::*;
use crate::ast::{EmbeddedBlock, SpecValue, Value, lemma_values_of, values_of};
use crate::channel::{Channel, channel_label};
use crate::debug_text::{first_debug, push_first_debug, push_type_expr_debug, push_value_debug, push_values_debug, value_debug};
use crate::error::RuntimeError;
use crate::eval::{SpecEvent, SpecRequest, SpecRun, SpecStep, arith_fault_text, arith_step, fetch_step, reply_step, spec_binary, spec_call_ask, spec_call_list, spec_call_send, spec_expand_channel, spec_request, value_display_text};
use crate::number::{NumOp, Number};
use crate::operators::BinaryOp;
use crate::scope::Scope;
use crate::text::{copy_string, push_all, text_of};
use crate::to_sexpr::bool_to_text;

verus! {

broadcast use vstd::std_specs::vec::group_vec_axioms;

/// Outside work that running code asks for (see [`SpecRequest`]).
#[derive(Debug)]
pub enum Request {
    Send { target: Channel, terms: Vec<Value> },
    Ask { target: Channel, terms: Vec<Value> },
    SpawnList { items: Vec<Value> },
    Fetch { target: Channel, name: String },
}

impl View for Request {
    type V = SpecRequest;

    open spec fn view(&self) -> SpecRequest {
        match self {
            Request::Send { target, terms } => SpecRequest::Send { target: *target, terms: values_of(terms@) },
            Request::Ask { target, terms } => SpecRequest::Ask { target: *target, terms: values_of(terms@) },
            Request::SpawnList { items } => SpecRequest::SpawnList { items: values_of(items@) },
            Request::Fetch { target, name } => SpecRequest::Fetch { target: *target, name: name@ },
        }
    }
}

/// The answer to a request (see [`SpecEvent`]).
#[derive(Debug)]
pub enum Event {
    Sent,
    SendFailed,
    Replied(Vec<Value>),
    ReceiveFailed,
    Spawned(Channel),
    Fetched(Option<Value>),
}

impl View for Event {
    type V = SpecEvent;

    open spec fn view(&self) -> SpecEvent {
        match self {
            Event::Sent => SpecEvent::Sent,
            Event::SendFailed => SpecEvent::SendFailed,
            Event::Replied(terms) => SpecEvent::Replied(values_of(terms@)),
            Event::ReceiveFailed => SpecEvent::ReceiveFailed,
            Event::Spawned(c) => SpecEvent::Spawned(*c),
            Event::Fetched(v) => SpecEvent::Fetched(
                match v {
                    Some(x) => Some(x@),
                    None => None,
                },
            ),
        }
    }
}

pub open spec fn requests_of(rs: Seq<Request>) -> Seq<SpecRequest> {
    rs.map_values(|r: Request| r@)
}

pub open spec fn events_of(es: Seq<Event>) -> Seq<SpecEvent> {
    es.map_values(|e: Event| e@)
}

/// The state of a run (see [`SpecRun`]).
#[derive(Debug)]
pub struct Run {
    pub scope: Scope,
    pub pos: usize,
    pub requests: Vec<Request>,
}

impl View for Run {
    type V = SpecRun;

    open spec fn view(&self) -> SpecRun {
        SpecRun { scope: self.scope@, pos: self.pos as nat, requests: requests_of(self.requests@) }
    }
}

/// How far a computation got (see [`SpecStep`]).
#[derive(Debug)]
pub enum Outcome<T> {
    Done(T),
    Wait,
    Fault(String),
}

/// The step that an outcome with a value denotes, in the final state.
pub open spec fn value_step(r: Outcome<Value>, st: SpecRun) -> SpecStep<SpecValue> {
    match r {
        Outcome::Done(v) => SpecStep::Done(v@, st),
        Outcome::Wait => SpecStep::Wait(st),
        Outcome::Fault(m) => SpecStep::Fault(m@, st),
    }
}

/// The step that an outcome with values denotes, in the final state.
pub open spec fn values_step(r: Outcome<Vec<Value>>, st: SpecRun) -> SpecStep<Seq<SpecValue>> {
    match r {
        Outcome::Done(vs) => SpecStep::Done(values_of(vs@), st),
        Outcome::Wait => SpecStep::Wait(st),
        Outcome::Fault(m) => SpecStep::Fault(m@, st),
    }
}

impl Run {
    /// A run that starts in the given scope, with no event used and no
    /// request made.
    pub fn new(scope: Scope) -> (r: Run)
        ensures
            r@ == (SpecRun { scope: scope@, pos: 0, requests: Seq::empty() }),
    {
        let r = Run { scope, pos: 0, requests: Vec::new() };
        assert(requests_of(r.requests@) =~= Seq::<SpecRequest>::empty());
        r
    }
}

/// Makes a request (see [`spec_request`]).
pub fn request<'a>(run: &mut Run, events: &'a Vec<Event>, req: Request) -> (r: Option<&'a Event>)
    ensures
        final(run)@ == spec_request(old(run)@, events_of(events@), req@).1,
        match r {
            Some(e) => spec_request(old(run)@, events_of(events@), req@).0 == Some(e@),
            None => spec_request(old(run)@, events_of(events@), req@).0 is None,
        },
{
    let ghost old_reqs = run.requests@;
    let ghost rv = req@;
    run.requests.push(req);
    proof {
        assert(requests_of(run.requests@) =~= requests_of(old_reqs).push(rv));
    }
    if run.pos < events.len() {
        let e = &events[run.pos];
        run.pos = run.pos + 1;
        Some(e)
    } else {
        None
    }
}

fn fault_text(s: &str) -> (r: Outcome<Value>)
    ensures
        r matches Outcome::Fault(m) && m@ == s@,
{
    Outcome::Fault(text_of(s))
}

/// The text `Display` shows for a value in error messages.
pub fn value_display(v: &Value) -> (r: String)
    ensures
        r@ == value_display_text(v@),
{
    match v {
        Value::Empty => text_of("Empty"),
        Value::Error(e) => {
            let mut s = text_of("Error: ");
            let t = e.to_text();
            push_all(&mut s, t.as_str());
            s
        },
        Value::Channel(c) => {
            let mut s = text_of("Channel: ");
            channel_label(c, &mut s);
            s
        },
        Value::Boolean(b) => {
            let mut s = text_of("Boolean: ");
            let t = bool_to_text(*b);
            push_all(&mut s, t.as_str());
            s
        },
        Value::Word(w) => {
            let mut s = text_of("Word: ");
            push_all(&mut s, w.as_str());
            s
        },
        Value::String(x) => {
            let mut s = text_of("String: ");
            push_all(&mut s, x.as_str());
            s
        },
        Value::Number(n) => {
            let mut s = text_of("Number: ");
            n.write_text(&mut s);
            s
        },
        Value::List(vs) => {
            let mut s = text_of("List: ");
            push_values_debug(&mut s, vs);
            s
        },
        Value::Block(_) => text_of("Block"),
        Value::Bytes(_) => text_of("Bytes"),
        Value::Embedded(_) => text_of("EmbeddedBlock"),
    }
}

fn arith_fault(op: NumOp) -> (r: String)
    ensures
        r@ == arith_fault_text(op),
{
    match op {
        NumOp::Add => text_of("Cannot add these numbers"),
        NumOp::Sub => text_of("Cannot subtract these numbers"),
        NumOp::Mul => text_of("Cannot multiply these numbers"),
        NumOp::Div => text_of("Cannot divide these numbers"),
        NumOp::Rem => text_of("Cannot take the remainder of these numbers"),
    }
}

/// A number operation inside running code (see [`arith_step`]).
fn arith(op: NumOp, a: Number, b: Number) -> (r: Outcome<Value>)
    ensures
        forall|st: SpecRun| value_step(r, st) == arith_step(op, a, b, st),
{
    match a.arith(op, b) {
        Some(n) => Outcome::Done(Value::Number(n)),
        None => Outcome::Fault(arith_fault(op)),
    }
}

/// Reads a member of an agent (see [`fetch_step`]).
fn fetch(target: Channel, name: String, missing: Value, run: &mut Run, events: &Vec<Event>) -> (r: Outcome<Value>)
    ensures
        value_step(r, final(run)@) == fetch_step(target, name@, missing@, old(run)@, events_of(events@)),
{
    match request(run, events, Request::Fetch { target, name }) {
        None => Outcome::Wait,
        Some(Event::Fetched(Some(v))) => Outcome::Done(v.duplicate()),
        Some(Event::Fetched(None)) => Outcome::Done(missing),
        Some(_) => fault_text("event does not answer the request"),
    }
}

fn add_values(l: Value, r: Value) -> (out: Outcome<Value>)
    ensures
        forall|st: SpecRun, ev: Seq<SpecEvent>| value_step(out, st) == spec_binary(BinaryOp::Add, l@, r@, st, ev),
{
    match (l, r) {
        (Value::Number(a), Value::Number(b)) => arith(NumOp::Add, a, b),
        (Value::String(a), Value::String(b)) => {
            let mut s = a;
            push_all(&mut s, b.as_str());
            Outcome::Done(Value::String(s))
        },
        (Value::String(a), Value::Channel(c)) => {
            let mut s = a;
            channel_label(&c, &mut s);
            Outcome::Done(Value::String(s))
        },
        (Value::String(a), Value::Empty) => {
            let mut s = a;
            push_all(&mut s, "EMPTY");
            Outcome::Done(Value::String(s))
        },
        (Value::String(a), Value::Number(n)) => {
            let mut s = a;
            n.write_text(&mut s);
            Outcome::Done(Value::String(s))
        },
        (Value::Embedded(e), Value::String(b)) => {
            let mut t = e.text;
            push_all(&mut t, b.as_str());
            Outcome::Done(Value::Embedded(EmbeddedBlock { tags: e.tags, text: t }))
        },
        (Value::String(a), Value::Embedded(e)) => {
            let mut t = a;
            push_all(&mut t, e.text.as_str());
            Outcome::Done(Value::Embedded(EmbeddedBlock { tags: e.tags, text: t }))
        },
        (l, r) => {
            let mut m = text_of("Unsupported binary operation: ");
            let lt = value_display(&l);
            push_all(&mut m, lt.as_str());
            push_all(&mut m, " ");
            let rt = value_display(&r);
            push_all(&mut m, rt.as_str());
            Outcome::Done(Value::Error(RuntimeError::TypeMismatch(m)))
        },
    }
}

/// A type mismatch whose message is `prefix` and the debugging form of
/// `v`.
fn mismatch_showing(prefix: &str, v: &Value) -> (r: Value)
    ensures
        r@ == crate::eval::type_mismatch(prefix@ + value_debug(v@)),
{
    let mut m = text_of(prefix);
    push_value_debug(&mut m, v);
    Value::Error(RuntimeError::TypeMismatch(m))
}

/// A type mismatch whose message is `prefix` and the debugging form of
/// the first of `vs`.
fn mismatch_showing_first(prefix: &str, vs: &Vec<Value>) -> (r: Value)
    ensures
        r@ == crate::eval::type_mismatch(prefix@ + first_debug(values_of(vs@))),
{
    let mut m = text_of(prefix);
    push_first_debug(&mut m, vs);
    Value::Error(RuntimeError::TypeMismatch(m))
}

fn access_values(l: Value, r: Value, run: &mut Run, events: &Vec<Event>) -> (out: Outcome<Value>)
    ensures
        value_step(out, final(run)@) == spec_binary(BinaryOp::Access, l@, r@, old(run)@, events_of(events@)),
{
    match (l, r) {
        (Value::Channel(c), Value::Word(w)) => {
            let missing = Value::Error(RuntimeError::NameNotFound(copy_string(&w)));
            fetch(c, w, missing, run, events)
        },
        (Value::Word(w), Value::Word(m)) => match run.scope.get(&w) {
            Some(Value::Channel(c)) => fetch(c, m, Value::Empty, run, events),
            Some(v) => Outcome::Done(mismatch_showing("Expected a channel, found ", &v)),
            None => Outcome::Done(Value::Error(RuntimeError::NameNotFound(w))),
        },
        (l, r) => {
            let mut m = text_of("Expected a channel or word, found ");
            push_value_debug(&mut m, &l);
            push_all(&mut m, " ");
            push_value_debug(&mut m, &r);
            Outcome::Done(Value::Error(RuntimeError::TypeMismatch(m)))
        },
    }
}

/// A binary operator applied to two evaluated operands (see [`spec_binary`]).
pub fn apply_binary(op: BinaryOp, l: Value, r: Value, run: &mut Run, events: &Vec<Event>) -> (out: Outcome<Value>)
    ensures
        value_step(out, final(run)@) == spec_binary(op, l@, r@, old(run)@, events_of(events@)),
{
    match op {
        BinaryOp::Add => add_values(l, r),
        BinaryOp::Sub => match (l, r) {
            (Value::Number(a), Value::Number(b)) => arith(NumOp::Sub, a, b),
            _ => Outcome::Done(Value::Empty),
        },
        BinaryOp::Mul => match (l, r) {
            (Value::Number(a), Value::Number(b)) => arith(NumOp::Mul, a, b),
            _ => Outcome::Done(Value::Empty),
        },
        BinaryOp::Div => match (l, r) {
            (Value::Number(a), Value::Number(b)) => if b.is_zero() {
                Outcome::Done(Value::Error(RuntimeError::DivisionByZero))
            } else {
                arith(NumOp::Div, a, b)
            },
            _ => Outcome::Done(Value::Empty),
        },
        BinaryOp::Mod => match (l, r) {
            (Value::Number(a), Value::Number(b)) => if b.is_zero() {
                Outcome::Done(Value::Error(RuntimeError::DivisionByZero))
            } else {
                arith(NumOp::Rem, a, b)
            },
            _ => Outcome::Done(Value::Empty),
        },
        BinaryOp::And => match (l, r) {
            (Value::Boolean(a), Value::Boolean(b)) => Outcome::Done(Value::Boolean(a && b)),
            _ => Outcome::Done(Value::Empty),
        },
        BinaryOp::Or => match (l, r) {
            (Value::Boolean(a), Value::Boolean(b)) => Outcome::Done(Value::Boolean(a || b)),
            _ => Outcome::Done(Value::Empty),
        },
        BinaryOp::Eq => Outcome::Done(Value::Boolean(l.equals(&r))),
        BinaryOp::Ne => Outcome::Done(Value::Boolean(!l.equals(&r))),
        BinaryOp::Access => access_values(l, r, run, events),
    }
}

/// Sends a message without awaiting a reply (see [`spec_call_send`]).
pub fn call_send(target: Value, args: Vec<Value>, run: &mut Run, events: &Vec<Event>) -> (out: Outcome<Value>)
    ensures
        value_step(out, final(run)@) == spec_call_send(target@, values_of(args@), old(run)@, events_of(events@)),
{
    match target {
        Value::Channel(c) => match request(run, events, Request::Send { target: c, terms: args }) {
            None => Outcome::Wait,
            Some(Event::Sent) => Outcome::Done(Value::Empty),
            Some(Event::SendFailed) => Outcome::Done(Value::Error(RuntimeError::SendError)),
            Some(_) => fault_text("event does not answer the request"),
        },
        _ => Outcome::Done(Value::Error(RuntimeError::SendError)),
    }
}

/// The value of a reply (see [`reply_step`]).
fn reply(ev: Option<&Event>) -> (out: Outcome<Value>)
    ensures
        forall|st: SpecRun| value_step(out, st) == reply_step(
            match ev {
                Some(e) => Some(e@),
                None => None,
            },
            st,
        ),
{
    match ev {
        None => Outcome::Wait,
        Some(Event::Replied(terms)) => {
            proof {
                lemma_values_of(terms@);
            }
            if terms.len() == 1 {
                Outcome::Done(terms[0].duplicate())
            } else {
                fault_text("Expected a single term in reply")
            }
        },
        Some(Event::SendFailed) => Outcome::Done(Value::Error(RuntimeError::SendError)),
        Some(Event::ReceiveFailed) => Outcome::Done(Value::Error(RuntimeError::ReceiveError)),
        Some(_) => fault_text("event does not answer the request"),
    }
}

/// Sends a message and awaits its reply (see [`spec_call_ask`]).
pub fn call_ask(target: Value, args: Vec<Value>, run: &mut Run, events: &Vec<Event>) -> (out: Outcome<Value>)
    ensures
        value_step(out, final(run)@) == spec_call_ask(target@, values_of(args@), old(run)@, events_of(events@)),
{
    match target {
        Value::Channel(c) => {
            let ev = request(run, events, Request::Ask { target: c, terms: args });
            reply(ev)
        },
        _ => Outcome::Done(Value::Error(RuntimeError::SendError)),
    }
}

/// Calls a list whose first item is a channel (see [`spec_call_list`]).
pub fn call_list(list: Vec<Value>, otherwise: Value, run: &mut Run, events: &Vec<Event>) -> (out: Outcome<Value>)
    ensures
        value_step(out, final(run)@) == spec_call_list(values_of(list@), otherwise@, old(run)@, events_of(events@)),
{
    proof {
        lemma_values_of(list@);
    }
    if list.len() > 0 {
        match &list[0] {
            Value::Channel(c) => {
                let target = Value::Channel(*c);
                let mut rest: Vec<Value> = Vec::new();
                let mut i: usize = 1;
                while i < list.len()
                    invariant
                        1 <= i <= list@.len(),
                        rest@.len() == i - 1,
                        forall|j: int| 0 <= j < rest@.len() ==> (#[trigger] rest@[j])@ == list@[j + 1]@,
                    decreases list@.len() - i,
                {
                    rest.push(list[i].duplicate());
                    i += 1;
                }
                proof {
                    lemma_values_of(rest@);
                    assert(values_of(rest@) =~= values_of(list@).subrange(1, values_of(list@).len() as int));
                }
                return call_ask(target, rest, run, events);
            },
            _ => {},
        }
    }
    Outcome::Done(otherwise)
}

/// Expands a channel: asks for its items and calls them (see
/// [`spec_expand_channel`]).
pub fn expand_channel(c: Channel, run: &mut Run, events: &Vec<Event>) -> (out: Outcome<Value>)
    ensures
        value_step(out, final(run)@) == spec_expand_channel(c, old(run)@, events_of(events@)),
{
    let mut terms: Vec<Value> = Vec::new();
    terms.push(Value::word("items"));
    proof {
        lemma_values_of(terms@);
        assert(values_of(terms@) =~= seq![SpecValue::Word("items"@)]);
    }
    let ev = request(run, events, Request::Ask { target: c, terms });
    let res = reply(ev);
    let ghost evv = match ev {
        Some(e) => Some(e@),
        None => None,
    };
    assert(value_step(res, run@) == reply_step(evv, run@));
    match res {
        Outcome::Done(items) => match items {
            Value::List(list) => {
                let otherwise = mismatch_showing_first("Expected a channel, found ", &list);
                call_list(list, otherwise, run, events)
            },
            other => Outcome::Done(mismatch_showing("Expected a list, found ", &other)),
        },
        other => other,
    }
}

} // verus!

verus! {

use crate::ast::{Block, Expr, Statement, TypeExpr, boxed_exprs_of, exprs_of, lemma_boxed_exprs_of, lemma_exprs_of, lemma_statements_of, statements_of, SpecExpr, SpecStatement, SpecTypeExpr};
use crate::closure::close_block;
use crate::eval::{field_mismatch_text, spec_eval, spec_eval_all, spec_eval_ask, spec_exec, spec_exec_block, spec_exec_from, spec_type_expr_subtype};
use crate::value_type::Typed;
use crate::values::spec_type_of;

impl Typed for TypeExpr {
    fn is_same_type(&self, other: &Self) -> (r: bool)
        ensures
            r == (match (self@, other@) {
                (SpecTypeExpr::Empty, SpecTypeExpr::Empty) => true,
                (SpecTypeExpr::Type(x), SpecTypeExpr::Type(y)) => x == y,
                (SpecTypeExpr::Word(x), SpecTypeExpr::Word(y)) => x == y,
                (SpecTypeExpr::Hole(x), SpecTypeExpr::Hole(y)) => x == y,
                (SpecTypeExpr::BlockHole(x), SpecTypeExpr::BlockHole(y)) => x == y,
                (SpecTypeExpr::Value(x), SpecTypeExpr::Value(y)) => crate::values::spec_value_eq(x, y),
                _ => false,
            }),
    {
        match (self, other) {
            (TypeExpr::Empty, TypeExpr::Empty) => true,
            (TypeExpr::Type(x), TypeExpr::Type(y)) => x.is_same_type(y),
            (TypeExpr::Word(x), TypeExpr::Word(y)) => *x == *y,
            (TypeExpr::Hole(x), TypeExpr::Hole(y)) => *x == *y,
            (TypeExpr::BlockHole(x), TypeExpr::BlockHole(y)) => *x == *y,
            (TypeExpr::Value(x), TypeExpr::Value(y)) => x.equals(y),
            _ => false,
        }
    }

    fn is_subtype_of(&self, other: &Self) -> (r: bool)
        ensures
            r == spec_type_expr_subtype(self@, other@),
    {
        match (self, other) {
            (TypeExpr::Empty, _) => true,
            (TypeExpr::Type(x), TypeExpr::Type(y)) => x.is_subtype_of(y),
            (TypeExpr::Word(x), TypeExpr::Word(y)) => *x == *y,
            (TypeExpr::Hole(x), TypeExpr::Hole(y)) => *x == *y,
            (TypeExpr::BlockHole(x), TypeExpr::BlockHole(y)) => *x == *y,
            (TypeExpr::Value(x), TypeExpr::Value(y)) => x.equals(y),
            _ => false,
        }
    }
}

/// Once a prefix of a list of expressions fails to finish, so does every
/// longer prefix, in the same way.
pub proof fn lemma_eval_all_stuck(
    es: Seq<SpecExpr>,
    k: int,
    n: int,
    st: SpecRun,
    events: Seq<SpecEvent>,
    fuel: nat,
)
    requires
        0 <= k <= n <= es.len(),
        !(spec_eval_all(es, k, st, events, fuel) is Done),
    ensures
        spec_eval_all(es, n, st, events, fuel) == spec_eval_all(es, k, st, events, fuel),
    decreases n - k,
{
    if n > k {
        lemma_eval_all_stuck(es, k, n - 1, st, events, fuel);
    }
}

/// Evaluates an expression (see [`spec_eval`]).
pub fn eval_expr(e: &Expr, run: &mut Run, events: &Vec<Event>, fuel: usize) -> (r: Outcome<Value>)
    ensures
        value_step(r, final(run)@) == spec_eval(e@, old(run)@, events_of(events@), fuel as nat),
    decreases fuel, *e, 0int,
{
    match e {
        Expr::Value(v) => Outcome::Done(v.duplicate()),
        Expr::Variable(n) => match run.scope.get(n) {
            Some(v) => Outcome::Done(v),
            None => Outcome::Done(Value::Word(copy_string(n))),
        },
        Expr::Binary(b) => {
            match eval_expr(&b.left, run, events, fuel) {
                Outcome::Done(lv) => match eval_expr(&b.right, run, events, fuel) {
                    Outcome::Done(rv) => apply_binary(b.op, lv, rv, run, events),
                    other => other,
                },
                other => other,
            }
        },
        Expr::Call(c) => {
            match eval_all_boxed(&c.args, run, events, fuel) {
                Outcome::Done(avs) => match eval_expr(&c.target, run, events, fuel) {
                    Outcome::Done(tv) => call_send(tv, avs, run, events),
                    other => other,
                },
                Outcome::Wait => Outcome::Wait,
                Outcome::Fault(m) => Outcome::Fault(m),
            }
        },
        Expr::Block(b) => Outcome::Done(Value::Block(Box::new(close_block(b, &run.scope)))),
        Expr::List(items) => {
            match eval_all_plain(items, run, events, fuel) {
                Outcome::Done(vs) => {
                    match request(run, events, Request::SpawnList { items: vs }) {
                        None => Outcome::Wait,
                        Some(Event::Spawned(c)) => Outcome::Done(Value::Channel(*c)),
                        Some(_) => fault_text("event does not answer the request"),
                    }
                },
                Outcome::Wait => Outcome::Wait,
                Outcome::Fault(m) => Outcome::Fault(m),
            }
        },
    }
}

/// Evaluates the expressions of a vector, left to right.
pub fn eval_all_plain(es: &Vec<Expr>, run: &mut Run, events: &Vec<Event>, fuel: usize) -> (r: Outcome<Vec<Value>>)
    ensures
        values_step(r, final(run)@) == spec_eval_all(exprs_of(es@), exprs_of(es@).len() as int, old(run)@, events_of(events@), fuel as nat),
    decreases fuel, *es, 0int,
{
    let ghost ex = exprs_of(es@);
    let ghost ev = events_of(events@);
    let ghost st0 = run@;
    proof {
        lemma_exprs_of(es@);
    }
    let mut vals: Vec<Value> = Vec::new();
    proof {
        lemma_values_of(vals@);
        assert(values_of(vals@) =~= Seq::<SpecValue>::empty());
    }
    let mut i: usize = 0;
    while i < es.len()
        invariant
            i <= es@.len(),
            ex == exprs_of(es@),
            ev == events_of(events@),
            ex.len() == es@.len(),
            forall|j: int| 0 <= j < es@.len() ==> #[trigger] ex[j] == es@[j]@,
            st0 == old(run)@,
            spec_eval_all(ex, i as int, st0, ev, fuel as nat) == SpecStep::Done(values_of(vals@), run@),
        decreases es@.len() - i,
    {
        let ghost vals_before = vals@;
        let ghost before = run@;
        match eval_expr(&es[i], run, events, fuel) {
            Outcome::Done(v) => {
                vals.push(v);
                proof {
                    lemma_values_of(vals_before);
                    lemma_values_of(vals@);
                    assert(values_of(vals@) =~= values_of(vals_before).push(v@));
                }
            },
            Outcome::Wait => {
                proof {
                    assert(spec_eval(ex[i as int], before, ev, fuel as nat) == SpecStep::<SpecValue>::Wait(run@));
                    assert(spec_eval_all(ex, i + 1, st0, ev, fuel as nat) == SpecStep::<Seq<SpecValue>>::Wait(run@));
                    lemma_eval_all_stuck(ex, i + 1, ex.len() as int, st0, ev, fuel as nat);
                }
                return Outcome::Wait;
            },
            Outcome::Fault(m) => {
                proof {
                    assert(spec_eval(ex[i as int], before, ev, fuel as nat) == SpecStep::<SpecValue>::Fault(m@, run@));
                    assert(spec_eval_all(ex, i + 1, st0, ev, fuel as nat) == SpecStep::<Seq<SpecValue>>::Fault(m@, run@));
                    lemma_eval_all_stuck(ex, i + 1, ex.len() as int, st0, ev, fuel as nat);
                }
                return Outcome::Fault(m);
            },
        }
        i += 1;
    }
    Outcome::Done(vals)
}

/// Evaluates the boxed expressions of a vector, left to right.
pub fn eval_all_boxed(es: &Vec<Box<Expr>>, run: &mut Run, events: &Vec<Event>, fuel: usize) -> (r: Outcome<Vec<Value>>)
    ensures
        values_step(r, final(run)@) == spec_eval_all(boxed_exprs_of(es@), boxed_exprs_of(es@).len() as int, old(run)@, events_of(events@), fuel as nat),
    decreases fuel, *es, 0int,
{
    let ghost ex = boxed_exprs_of(es@);
    let ghost ev = events_of(events@);
    let ghost st0 = run@;
    proof {
        lemma_boxed_exprs_of(es@);
    }
    let mut vals: Vec<Value> = Vec::new();
    proof {
        lemma_values_of(vals@);
        assert(values_of(vals@) =~= Seq::<SpecValue>::empty());
    }
    let mut i: usize = 0;
    while i < es.len()
        invariant
            i <= es@.len(),
            ex == boxed_exprs_of(es@),
            ev == events_of(events@),
            ex.len() == es@.len(),
            forall|j: int| 0 <= j < es@.len() ==> #[trigger] ex[j] == (*es@[j])@,
            st0 == old(run)@,
            spec_eval_all(ex, i as int, st0, ev, fuel as nat) == SpecStep::Done(values_of(vals@), run@),
        decreases es@.len() - i,
    {
        let ghost vals_before = vals@;
        let ghost before = run@;
        let e: &Expr = &es[i];
        match eval_expr(e, run, events, fuel) {
            Outcome::Done(v) => {
                vals.push(v);
                proof {
                    lemma_values_of(vals_before);
                    lemma_values_of(vals@);
                    assert(values_of(vals@) =~= values_of(vals_before).push(v@));
                }
            },
            Outcome::Wait => {
                proof {
                    assert(spec_eval(ex[i as int], before, ev, fuel as nat) == SpecStep::<SpecValue>::Wait(run@));
                    assert(spec_eval_all(ex, i + 1, st0, ev, fuel as nat) == SpecStep::<Seq<SpecValue>>::Wait(run@));
                    lemma_eval_all_stuck(ex, i + 1, ex.len() as int, st0, ev, fuel as nat);
                }
                return Outcome::Wait;
            },
            Outcome::Fault(m) => {
                proof {
                    assert(spec_eval(ex[i as int], before, ev, fuel as nat) == SpecStep::<SpecValue>::Fault(m@, run@));
                    assert(spec_eval_all(ex, i + 1, st0, ev, fuel as nat) == SpecStep::<Seq<SpecValue>>::Fault(m@, run@));
                    lemma_eval_all_stuck(ex, i + 1, ex.len() as int, st0, ev, fuel as nat);
                }
                return Outcome::Fault(m);
            },
        }
        i += 1;
    }
    Outcome::Done(vals)
}

/// Evaluates a call and awaits its reply (see [`spec_eval_ask`]).
pub fn eval_ask(t: &Expr, args: &Vec<Box<Expr>>, run: &mut Run, events: &Vec<Event>, fuel: usize) -> (r: Outcome<Value>)
    ensures
        value_step(r, final(run)@) == spec_eval_ask(t@, boxed_exprs_of(args@), old(run)@, events_of(events@), fuel as nat),
{
    match eval_all_boxed(args, run, events, fuel) {
        Outcome::Done(avs) => match eval_expr(t, run, events, fuel) {
            Outcome::Done(tv) => call_ask(tv, avs, run, events),
            other => other,
        },
        Outcome::Wait => Outcome::Wait,
        Outcome::Fault(m) => Outcome::Fault(m),
    }
}

/// Binds a name to a value in the run's scope.
fn bind(run: &mut Run, name: &String, v: &Value)
    ensures
        final(run)@ == (SpecRun { scope: crate::scope::spec_bind(old(run)@.scope, name@, v@), ..old(run)@ }),
{
    run.scope.set(copy_string(name), v.duplicate());
}

/// Runs a field declaration with a default value.
fn exec_field(name: &String, typ: &TypeExpr, e: &Expr, run: &mut Run, events: &Vec<Event>, fuel: usize) -> (r: Outcome<Value>)
    ensures
        value_step(r, final(run)@) == spec_exec(
            SpecStatement::Field(name@, typ@, Some(e@)),
            old(run)@,
            events_of(events@),
            fuel as nat,
        ),
{
    let found = match run.scope.get(name) {
        Some(v) => Outcome::Done(v),
        None => eval_expr(e, run, events, fuel),
    };
    match found {
        Outcome::Done(v) => {
            let vt = v.get_type_expr();
            if vt.is_subtype_of(typ) {
                bind(run, name, &v);
                Outcome::Done(v)
            } else {
                let mut m = text_of("Expected type ");
                push_type_expr_debug(&mut m, typ);
                push_all(&mut m, ", found ");
                push_type_expr_debug(&mut m, &vt);
                proof {
                    assert(m@ == field_mismatch_text(typ@, spec_type_of(v@)));
                }
                Outcome::Done(Value::Error(RuntimeError::TypeMismatch(m)))
            }
        },
        other => other,
    }
}

/// Runs a statement (see [`spec_exec`]).
pub fn exec_stmt(s: &Statement, run: &mut Run, events: &Vec<Event>, fuel: usize) -> (r: Outcome<Value>)
    ensures
        value_step(r, final(run)@) == spec_exec(s@, old(run)@, events_of(events@), fuel as nat),
    decreases fuel, *s, 0int,
{
    match s {
        Statement::Assignment(name, e) => {
            let res = match e {
                Expr::Call(c) => eval_ask(&c.target, &c.args, run, events, fuel),
                _ => eval_expr(e, run, events, fuel),
            };
            match res {
                Outcome::Done(v) => {
                    bind(run, name, &v);
                    Outcome::Done(v)
                },
                other => other,
            }
        },
        Statement::Expr(e) => eval_expr(e, run, events, fuel),
        Statement::Field(name, typ, Some(e)) => exec_field(name, typ, e, run, events, fuel),
        Statement::Expander(e) => {
            match eval_expr(e, run, events, fuel) {
                Outcome::Done(n) => match n {
                    Value::Word(w) => match run.scope.get(&w) {
                        Some(_) => fault_text("Expander should not be called with a bound variable"),
                        None => Outcome::Done(Value::Error(RuntimeError::NameNotFound(w))),
                    },
                    Value::Block(b) => if fuel == 0 {
                        fault_text("block expansion nested too deeply")
                    } else {
                        exec_block(&b, run, events, fuel - 1)
                    },
                    Value::List(list) => {
                        let otherwise = mismatch_showing_first("Expected a channel or word, found ", &list);
                        call_list(list, otherwise, run, events)
                    },
                    Value::Channel(c) => expand_channel(c, run, events),
                    other => Outcome::Done(mismatch_showing("Expected a word or block, found ", &other)),
                },
                other => other,
            }
        },
        _ => Outcome::Done(Value::Empty),
    }
}

/// Runs a block (see [`spec_exec_block`]).
pub fn exec_block(b: &Block, run: &mut Run, events: &Vec<Event>, fuel: usize) -> (r: Outcome<Value>)
    ensures
        value_step(r, final(run)@) == spec_exec_block(b@, old(run)@, events_of(events@), fuel as nat),
    decreases fuel, *b, 0int,
{
    exec_statements(&b.statements, run, events, fuel)
}

/// Runs statement `i` of a vector as a block does: `Ok` with the new
/// value so far when the block goes on, `Err` with the block's outcome when
/// it stops.
fn exec_step(ss: &Vec<Statement>, i: usize, last: Value, run: &mut Run, events: &Vec<Event>, fuel: usize) -> (r: Result<Value, Outcome<Value>>)
    requires
        i < ss@.len(),
    ensures
        match r {
            Ok(v) => spec_exec_from(statements_of(ss@), i as int, last@, old(run)@, events_of(events@), fuel as nat)
                == spec_exec_from(statements_of(ss@), i + 1, v@, final(run)@, events_of(events@), fuel as nat),
            Err(o) => value_step(o, final(run)@)
                == spec_exec_from(statements_of(ss@), i as int, last@, old(run)@, events_of(events@), fuel as nat),
        },
    decreases fuel, *ss, 0int,
{
    proof {
        lemma_statements_of(ss@);
    }
    let s = &ss[i];
    match s {
        Statement::NoOp | Statement::Comment(_) => Ok(last),
        _ => {
            match exec_stmt(s, run, events, fuel) {
                Outcome::Done(v) => {
                    if v.is_error() {
                        Err(Outcome::Done(v))
                    } else {
                        Ok(v)
                    }
                },
                other => Err(other),
            }
        },
    }
}

/// Runs the statements of a vector as a block does.
pub fn exec_statements(ss: &Vec<Statement>, run: &mut Run, events: &Vec<Event>, fuel: usize) -> (r: Outcome<Value>)
    ensures
        value_step(r, final(run)@) == spec_exec_from(statements_of(ss@), 0, SpecValue::Empty, old(run)@, events_of(events@), fuel as nat),
    decreases fuel, *ss, 1int,
{
    let ghost sv = statements_of(ss@);
    let ghost ev = events_of(events@);
    let ghost st0 = run@;
    let mut last = Value::Empty;
    let mut i: usize = 0;
    while i < ss.len()
        invariant
            i <= ss@.len(),
            sv == statements_of(ss@),
            ev == events_of(events@),
            st0 == old(run)@,
            spec_exec_from(sv, 0, SpecValue::Empty, st0, ev, fuel as nat) == spec_exec_from(sv, i as int, last@, run@, ev, fuel as nat),
        decreases ss@.len() - i,
    {
        match exec_step(ss, i, last, run, events, fuel) {
            Ok(v) => {
                last = v;
            },
            Err(o) => {
                return o;
            },
        }
        i += 1;
    }
    proof {
        lemma_statements_of(ss@);
    }
    Outcome::Done(last)
}

/// Runs a block in a scope with the given events, from the start: the
/// outcome, and the run's final state with every request made.
pub fn run_block(block: &Block, scope: Scope, events: &Vec<Event>, fuel: usize) -> (r: (Outcome<Value>, Run))
    ensures
        value_step(r.0, r.1@) == spec_exec_block(
            block@,
            SpecRun { scope: scope@, pos: 0, requests: Seq::empty() },
            events_of(events@),
            fuel as nat,
        ),
{
    let mut run = Run::new(scope);
    let out = exec_block(block, &mut run, events, fuel);
    (out, run)
}

} // verus!
