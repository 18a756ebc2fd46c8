//! The request protocol of running code: a run uses the events in order,
//! one per request, and it waits only when it has used them all and made
//! exactly one request more. A runtime that answers the last request of a
//! waiting run therefore answers the request that the run is waiting on.
use vstd::prelude::*;
use crate::ast::{SpecBlock, SpecExpr, SpecStatement, SpecValue};
use crate::channel::Channel;
use crate::eval::{SpecEvent, SpecRequest, SpecRun, SpecStep, carry, fetch_step, reply_step, spec_binary, spec_call_ask, spec_call_list, spec_call_send, spec_eval, spec_eval_all, spec_eval_ask, spec_exec, spec_exec_block, spec_exec_from, spec_expand_channel, spec_request};
use crate::operators::BinaryOp;
use crate::dynamic_agent::spec_run_each;
use crate::scope::SpecScope;

verus! {

/// Every request made so far was answered by an event, and no event
/// beyond those given was used.
pub open spec fn answered(st: SpecRun, events: Seq<SpecEvent>) -> bool {
    st.requests.len() == st.pos && st.pos <= events.len()
}

/// How a step ends with respect to the events: finished or stopped with
/// every request answered; waiting with every event used and exactly one
/// request unanswered.
pub open spec fn protocol_kept<T>(s: SpecStep<T>, events: Seq<SpecEvent>) -> bool {
    match s {
        SpecStep::Done(_, st) => answered(st, events),
        SpecStep::Fault(_, st) => answered(st, events),
        SpecStep::Wait(st) => st.requests.len() == st.pos + 1 && st.pos == events.len(),
    }
}

proof fn lemma_request(st: SpecRun, events: Seq<SpecEvent>, req: SpecRequest)
    requires
        answered(st, events),
    ensures
        ({
            let (ev, st1) = spec_request(st, events, req);
            &&& st1.scope == st.scope
            &&& (ev is Some ==> answered(st1, events))
            &&& (ev is None ==> st1.requests.len() == st1.pos + 1 && st1.pos == events.len())
        }),
{
}

proof fn lemma_fetch(c: Channel, name: Seq<char>, missing: SpecValue, st: SpecRun, events: Seq<SpecEvent>)
    requires
        answered(st, events),
    ensures
        protocol_kept(fetch_step(c, name, missing, st, events), events),
{
    lemma_request(st, events, SpecRequest::Fetch { target: c, name });
}

proof fn lemma_binary(op: BinaryOp, l: SpecValue, r: SpecValue, st: SpecRun, events: Seq<SpecEvent>)
    requires
        answered(st, events),
    ensures
        protocol_kept(spec_binary(op, l, r, st, events), events),
{
    match op {
        BinaryOp::Access => match (l, r) {
            (SpecValue::Channel(c), SpecValue::Word(w)) => {
                lemma_fetch(c, w, SpecValue::Error(crate::error::SpecRuntimeError::NameNotFound(w)), st, events);
            },
            (SpecValue::Word(w), SpecValue::Word(m)) => match crate::scope::spec_lookup(st.scope, w) {
                Some(SpecValue::Channel(c)) => {
                    lemma_fetch(c, m, SpecValue::Empty, st, events);
                },
                _ => {},
            },
            _ => {},
        },
        _ => {},
    }
}

proof fn lemma_call_send(t: SpecValue, args: Seq<SpecValue>, st: SpecRun, events: Seq<SpecEvent>)
    requires
        answered(st, events),
    ensures
        protocol_kept(spec_call_send(t, args, st, events), events),
{
    match t {
        SpecValue::Channel(c) => lemma_request(st, events, SpecRequest::Send { target: c, terms: args }),
        _ => {},
    }
}

proof fn lemma_call_ask(t: SpecValue, args: Seq<SpecValue>, st: SpecRun, events: Seq<SpecEvent>)
    requires
        answered(st, events),
    ensures
        protocol_kept(spec_call_ask(t, args, st, events), events),
{
    match t {
        SpecValue::Channel(c) => lemma_request(st, events, SpecRequest::Ask { target: c, terms: args }),
        _ => {},
    }
}

proof fn lemma_call_list(list: Seq<SpecValue>, otherwise: SpecValue, st: SpecRun, events: Seq<SpecEvent>)
    requires
        answered(st, events),
    ensures
        protocol_kept(spec_call_list(list, otherwise, st, events), events),
{
    if list.len() > 0 && list[0] is Channel {
        lemma_call_ask(list[0], list.subrange(1, list.len() as int), st, events);
    }
}

proof fn lemma_expand_channel(c: Channel, st: SpecRun, events: Seq<SpecEvent>)
    requires
        answered(st, events),
    ensures
        protocol_kept(spec_expand_channel(c, st, events), events),
{
    let items_word = seq![SpecValue::Word("items"@)];
    lemma_request(st, events, SpecRequest::Ask { target: c, terms: items_word });
    let (ev, st1) = spec_request(st, events, SpecRequest::Ask { target: c, terms: items_word });
    match reply_step(ev, st1) {
        SpecStep::Done(items, st2) => match items {
            SpecValue::List(list) => {
                lemma_call_list(list, crate::eval::items_without_target(list), st2, events);
            },
            _ => {},
        },
        _ => {},
    }
}

proof fn lemma_eval(e: SpecExpr, st: SpecRun, events: Seq<SpecEvent>, fuel: nat)
    requires
        answered(st, events),
    ensures
        protocol_kept(spec_eval(e, st, events, fuel), events),
    decreases fuel, e, 0int,
{
    match e {
        SpecExpr::Binary(op, l, r) => {
            lemma_eval(*l, st, events, fuel);
            match spec_eval(*l, st, events, fuel) {
                SpecStep::Done(lv, st1) => {
                    lemma_eval(*r, st1, events, fuel);
                    match spec_eval(*r, st1, events, fuel) {
                        SpecStep::Done(rv, st2) => lemma_binary(op, lv, rv, st2, events),
                        _ => {},
                    }
                },
                _ => {},
            }
        },
        SpecExpr::Call(t, args) => {
            lemma_eval_all(args, args.len() as int, st, events, fuel);
            match spec_eval_all(args, args.len() as int, st, events, fuel) {
                SpecStep::Done(avs, st1) => {
                    lemma_eval(*t, st1, events, fuel);
                    match spec_eval(*t, st1, events, fuel) {
                        SpecStep::Done(tv, st2) => lemma_call_send(tv, avs, st2, events),
                        _ => {},
                    }
                },
                _ => {},
            }
        },
        SpecExpr::List(items) => {
            lemma_eval_all(items, items.len() as int, st, events, fuel);
            match spec_eval_all(items, items.len() as int, st, events, fuel) {
                SpecStep::Done(vs, st1) => {
                    lemma_request(st1, events, SpecRequest::SpawnList { items: vs });
                },
                _ => {},
            }
        },
        _ => {},
    }
}

proof fn lemma_eval_all(es: Seq<SpecExpr>, n: int, st: SpecRun, events: Seq<SpecEvent>, fuel: nat)
    requires
        answered(st, events),
    ensures
        protocol_kept(spec_eval_all(es, n, st, events, fuel), events),
    decreases fuel, es, n,
{
    if !(n <= 0 || n > es.len()) {
        lemma_eval_all(es, n - 1, st, events, fuel);
        match spec_eval_all(es, n - 1, st, events, fuel) {
            SpecStep::Done(vs, st1) => {
                lemma_eval(es[n - 1], st1, events, fuel);
            },
            _ => {},
        }
    }
}

proof fn lemma_eval_ask(t: SpecExpr, args: Seq<SpecExpr>, st: SpecRun, events: Seq<SpecEvent>, fuel: nat)
    requires
        answered(st, events),
    ensures
        protocol_kept(spec_eval_ask(t, args, st, events, fuel), events),
    decreases fuel, t, 1int,
{
    lemma_eval_all(args, args.len() as int, st, events, fuel);
    match spec_eval_all(args, args.len() as int, st, events, fuel) {
        SpecStep::Done(avs, st1) => {
            lemma_eval(t, st1, events, fuel);
            match spec_eval(t, st1, events, fuel) {
                SpecStep::Done(tv, st2) => lemma_call_ask(tv, avs, st2, events),
                _ => {},
            }
        },
        _ => {},
    }
}

proof fn lemma_exec(s: SpecStatement, st: SpecRun, events: Seq<SpecEvent>, fuel: nat)
    requires
        answered(st, events),
    ensures
        protocol_kept(spec_exec(s, st, events, fuel), events),
    decreases fuel, s, 0int,
{
    match s {
        SpecStatement::Assignment(name, e) => match e {
            SpecExpr::Call(t, args) => lemma_eval_ask(*t, args, st, events, fuel),
            _ => lemma_eval(e, st, events, fuel),
        },
        SpecStatement::Expr(e) => lemma_eval(e, st, events, fuel),
        SpecStatement::Field(name, typ, Some(e)) => {
            if crate::scope::spec_lookup(st.scope, name) is None {
                lemma_eval(e, st, events, fuel);
            }
        },
        SpecStatement::Expander(e) => {
            lemma_eval(e, st, events, fuel);
            match spec_eval(e, st, events, fuel) {
                SpecStep::Done(n, st1) => match n {
                    SpecValue::Block(b) => {
                        if fuel > 0 {
                            lemma_exec_block(b, st1, events, (fuel - 1) as nat);
                        }
                    },
                    SpecValue::List(list) => {
                        lemma_call_list(list, crate::eval::list_without_target(list), st1, events);
                    },
                    SpecValue::Channel(c) => lemma_expand_channel(c, st1, events),
                    _ => {},
                },
                _ => {},
            }
        },
        _ => {},
    }
}

proof fn lemma_exec_block(b: SpecBlock, st: SpecRun, events: Seq<SpecEvent>, fuel: nat)
    requires
        answered(st, events),
    ensures
        protocol_kept(spec_exec_block(b, st, events, fuel), events),
    decreases fuel, b, 0int,
{
    lemma_exec_from(b.statements, 0, SpecValue::Empty, st, events, fuel);
}

proof fn lemma_exec_from(
    ss: Seq<SpecStatement>,
    i: int,
    last: SpecValue,
    st: SpecRun,
    events: Seq<SpecEvent>,
    fuel: nat,
)
    requires
        answered(st, events),
    ensures
        protocol_kept(spec_exec_from(ss, i, last, st, events, fuel), events),
    decreases fuel, ss, ss.len() - i,
{
    if !(i < 0 || i >= ss.len()) {
        if ss[i] is NoOp || ss[i] is Comment {
            lemma_exec_from(ss, i + 1, last, st, events, fuel);
        } else {
            lemma_exec(ss[i], st, events, fuel);
            match spec_exec(ss[i], st, events, fuel) {
                SpecStep::Done(v, st1) => {
                    if !(v is Error) {
                        lemma_exec_from(ss, i + 1, v, st1, events, fuel);
                    }
                },
                _ => {},
            }
        }
    }
}

/// A run of a block from a scope, with no request made and no event used
/// yet, keeps the request protocol: it finishes or stops with every
/// request answered, or waits with every event used and exactly one
/// request, its last, unanswered.
pub proof fn lemma_block_keeps_protocol(b: SpecBlock, scope: SpecScope, events: Seq<SpecEvent>, fuel: nat)
    ensures
        protocol_kept(
            spec_exec_block(b, SpecRun { scope, pos: 0, requests: Seq::empty() }, events, fuel),
            events,
        ),
{
    lemma_exec_block(b, SpecRun { scope, pos: 0, requests: Seq::empty() }, events, fuel);
}

/// Every statement keeps the request protocol from a state in which every
/// request is answered.
pub proof fn lemma_statement_keeps_protocol(s: SpecStatement, st: SpecRun, events: Seq<SpecEvent>, fuel: nat)
    requires
        answered(st, events),
    ensures
        protocol_kept(spec_exec(s, st, events, fuel), events),
{
    lemma_exec(s, st, events, fuel);
}

// ------------------------------------------------------------------
// Replaying with more events
// ------------------------------------------------------------------

/// The state a step ends in.
pub open spec fn final_state<T>(s: SpecStep<T>) -> SpecRun {
    match s {
        SpecStep::Done(_, st) => st,
        SpecStep::Wait(st) => st,
        SpecStep::Fault(_, st) => st,
    }
}

/// The requests of `b` start with those of `a`.
pub open spec fn extends(a: SpecRun, b: SpecRun) -> bool {
    a.requests.len() <= b.requests.len() && b.requests.subrange(0, a.requests.len() as int) == a.requests
}

/// The events of `longer` start with those of `shorter`.
pub open spec fn events_extend(shorter: Seq<SpecEvent>, longer: Seq<SpecEvent>) -> bool {
    shorter.len() <= longer.len() && forall|i: int| 0 <= i < shorter.len() ==> #[trigger] longer[i] == shorter[i]
}

/// What running again with more events gives, against what the first
/// run gave: the same step when the first run finished or stopped; a
/// step whose requests start with those of the first run when it waited.
pub open spec fn replays<T>(first: SpecStep<T>, again: SpecStep<T>) -> bool {
    match first {
        SpecStep::Wait(st) => extends(st, final_state(again)),
        _ => again == first,
    }
}

/// The facts about a step that the replay lemmas give.
pub open spec fn replay_facts<T>(st: SpecRun, first: SpecStep<T>, again: SpecStep<T>) -> bool {
    &&& extends(st, final_state(first))
    &&& extends(st, final_state(again))
    &&& replays(first, again)
}

proof fn lemma_extends_trans(a: SpecRun, b: SpecRun, c: SpecRun)
    requires
        extends(a, b),
        extends(b, c),
    ensures
        extends(a, c),
{
    assert(c.requests.subrange(0, a.requests.len() as int) =~= a.requests) by {
        assert forall|i: int| 0 <= i < a.requests.len() implies c.requests[i] == a.requests[i] by {
            assert(c.requests.subrange(0, b.requests.len() as int)[i] == b.requests[i]);
            assert(b.requests.subrange(0, a.requests.len() as int)[i] == a.requests[i]);
        }
    }
}

proof fn lemma_extends_refl(a: SpecRun)
    ensures
        extends(a, a),
{
    assert(a.requests.subrange(0, a.requests.len() as int) =~= a.requests);
}

proof fn lemma_request_replay(st: SpecRun, events: Seq<SpecEvent>, more: Seq<SpecEvent>, req: SpecRequest)
    requires
        events_extend(events, more),
    ensures
        ({
            let (e1, s1) = spec_request(st, events, req);
            let (e2, s2) = spec_request(st, more, req);
            &&& extends(st, s1)
            &&& extends(st, s2)
            &&& s1.scope == st.scope && s2.scope == st.scope
            &&& (e1 is Some ==> e1 == e2 && s1 == s2)
            &&& (e1 is None ==> s1.requests == s2.requests)
        }),
{
    let recorded = SpecRun { requests: st.requests.push(req), ..st };
    assert(recorded.requests.subrange(0, st.requests.len() as int) =~= st.requests);
}

/// A step made of a request and the answer it gets.
proof fn lemma_answer_replay<T>(
    st: SpecRun,
    events: Seq<SpecEvent>,
    more: Seq<SpecEvent>,
    req: SpecRequest,
    first: SpecStep<T>,
    again: SpecStep<T>,
)
    requires
        events_extend(events, more),
        final_state(first) == spec_request(st, events, req).1,
        final_state(again) == spec_request(st, more, req).1,
        spec_request(st, events, req).0 is Some ==> first == again,
        spec_request(st, events, req).0 is None ==> first is Wait,
    ensures
        replay_facts(st, first, again),
{
    lemma_request_replay(st, events, more, req);
    lemma_extends_refl(final_state(first));
    let s1 = spec_request(st, events, req).1;
    if spec_request(st, events, req).0 is None {
        assert(extends(s1, final_state(again))) by {
            lemma_extends_refl(s1);
        }
    }
}

proof fn lemma_fetch_replay(c: Channel, name: Seq<char>, missing: SpecValue, st: SpecRun, events: Seq<SpecEvent>, more: Seq<SpecEvent>)
    requires
        events_extend(events, more),
    ensures
        replay_facts(st, fetch_step(c, name, missing, st, events), fetch_step(c, name, missing, st, more)),
{
    lemma_answer_replay(
        st,
        events,
        more,
        SpecRequest::Fetch { target: c, name },
        fetch_step(c, name, missing, st, events),
        fetch_step(c, name, missing, st, more),
    );
}

proof fn lemma_binary_replay(op: BinaryOp, l: SpecValue, r: SpecValue, st: SpecRun, events: Seq<SpecEvent>, more: Seq<SpecEvent>)
    requires
        events_extend(events, more),
    ensures
        replay_facts(st, spec_binary(op, l, r, st, events), spec_binary(op, l, r, st, more)),
{
    lemma_extends_refl(st);
    match op {
        BinaryOp::Access => match (l, r) {
            (SpecValue::Channel(c), SpecValue::Word(w)) => {
                lemma_fetch_replay(c, w, SpecValue::Error(crate::error::SpecRuntimeError::NameNotFound(w)), st, events, more);
            },
            (SpecValue::Word(w), SpecValue::Word(m)) => match crate::scope::spec_lookup(st.scope, w) {
                Some(SpecValue::Channel(c)) => {
                    lemma_fetch_replay(c, m, SpecValue::Empty, st, events, more);
                },
                _ => {},
            },
            _ => {},
        },
        _ => {},
    }
}

proof fn lemma_call_send_replay(t: SpecValue, args: Seq<SpecValue>, st: SpecRun, events: Seq<SpecEvent>, more: Seq<SpecEvent>)
    requires
        events_extend(events, more),
    ensures
        replay_facts(st, spec_call_send(t, args, st, events), spec_call_send(t, args, st, more)),
{
    lemma_extends_refl(st);
    match t {
        SpecValue::Channel(c) => lemma_answer_replay(
            st,
            events,
            more,
            SpecRequest::Send { target: c, terms: args },
            spec_call_send(t, args, st, events),
            spec_call_send(t, args, st, more),
        ),
        _ => {},
    }
}

proof fn lemma_call_ask_replay(t: SpecValue, args: Seq<SpecValue>, st: SpecRun, events: Seq<SpecEvent>, more: Seq<SpecEvent>)
    requires
        events_extend(events, more),
    ensures
        replay_facts(st, spec_call_ask(t, args, st, events), spec_call_ask(t, args, st, more)),
{
    lemma_extends_refl(st);
    match t {
        SpecValue::Channel(c) => lemma_answer_replay(
            st,
            events,
            more,
            SpecRequest::Ask { target: c, terms: args },
            spec_call_ask(t, args, st, events),
            spec_call_ask(t, args, st, more),
        ),
        _ => {},
    }
}

proof fn lemma_call_list_replay(list: Seq<SpecValue>, otherwise: SpecValue, st: SpecRun, events: Seq<SpecEvent>, more: Seq<SpecEvent>)
    requires
        events_extend(events, more),
    ensures
        replay_facts(st, spec_call_list(list, otherwise, st, events), spec_call_list(list, otherwise, st, more)),
{
    lemma_extends_refl(st);
    if list.len() > 0 && list[0] is Channel {
        lemma_call_ask_replay(list[0], list.subrange(1, list.len() as int), st, events, more);
    }
}

/// Two steps that follow a first step: when the first step finished the
/// same way in both runs, the facts about the follow-up carry over; when
/// it waited, the second run still extends where the first stopped.
proof fn lemma_then_replay<A, B>(
    st: SpecRun,
    first1: SpecStep<A>,
    first2: SpecStep<A>,
    whole1: SpecStep<B>,
    whole2: SpecStep<B>,
)
    requires
        replay_facts(st, first1, first2),
        !(first1 is Done) ==> whole1 == carry::<A, B>(first1),
        first1 is Done ==> replay_facts(final_state(first1), whole1, whole2),
        !(first2 is Done) ==> whole2 == carry::<A, B>(first2),
        first2 is Done ==> extends(final_state(first2), final_state(whole2)),
    ensures
        replay_facts(st, whole1, whole2),
{
    if first1 is Done {
        lemma_extends_trans(st, final_state(first1), final_state(whole1));
        lemma_extends_trans(st, final_state(first1), final_state(whole2));
    } else {
        if first2 is Done {
            lemma_extends_trans(st, final_state(first2), final_state(whole2));
            if first1 is Wait {
                lemma_extends_trans(final_state(first1), final_state(first2), final_state(whole2));
            }
        } else {
            if first1 is Wait {
            }
        }
    }
}

proof fn lemma_expand_channel_replay(c: Channel, st: SpecRun, events: Seq<SpecEvent>, more: Seq<SpecEvent>)
    requires
        events_extend(events, more),
    ensures
        replay_facts(st, spec_expand_channel(c, st, events), spec_expand_channel(c, st, more)),
{
    let items_word = seq![SpecValue::Word("items"@)];
    let req = SpecRequest::Ask { target: c, terms: items_word };
    let (e1, s1) = spec_request(st, events, req);
    let (e2, s2) = spec_request(st, more, req);
    lemma_answer_replay(st, events, more, req, reply_step(e1, s1), reply_step(e2, s2));
    let f1 = reply_step(e1, s1);
    let f2 = reply_step(e2, s2);
    match f1 {
        SpecStep::Done(items, st2) => {
            lemma_extends_refl(st2);
            match items {
                SpecValue::List(list) => lemma_call_list_replay(list, crate::eval::items_without_target(list), st2, events, more),
                _ => {},
            }
        },
        _ => {},
    }
    match f2 {
        SpecStep::Done(items, st2) => {
            lemma_extends_refl(st2);
            match items {
                SpecValue::List(list) => lemma_call_list_replay(list, crate::eval::items_without_target(list), st2, more, more),
                _ => {},
            }
        },
        _ => {},
    }
    lemma_then_replay(st, f1, f2, spec_expand_channel(c, st, events), spec_expand_channel(c, st, more));
}

proof fn lemma_eval_replay(e: SpecExpr, st: SpecRun, events: Seq<SpecEvent>, more: Seq<SpecEvent>, fuel: nat)
    requires
        events_extend(events, more),
    ensures
        replay_facts(st, spec_eval(e, st, events, fuel), spec_eval(e, st, more, fuel)),
    decreases fuel, e, 0int,
{
    lemma_extends_refl(st);
    match e {
        SpecExpr::Binary(op, l, r) => {
            lemma_eval_replay(*l, st, events, more, fuel);
            let f1 = spec_eval(*l, st, events, fuel);
            let f2 = spec_eval(*l, st, more, fuel);
            match f1 {
                SpecStep::Done(lv, st1) => {
                    lemma_eval_replay(*r, st1, events, more, fuel);
                    let g1 = spec_eval(*r, st1, events, fuel);
                    let g2 = spec_eval(*r, st1, more, fuel);
                    match g1 {
                        SpecStep::Done(rv, st2) => lemma_binary_replay(op, lv, rv, st2, events, more),
                        _ => {},
                    }
                    match g2 {
                        SpecStep::Done(rv, st2) => lemma_binary_replay(op, lv, rv, st2, more, more),
                        _ => {},
                    }
                    lemma_then_replay(
                        st1,
                        g1,
                        g2,
                        match g1 {
                            SpecStep::Done(rv, st2) => spec_binary(op, lv, rv, st2, events),
                            other => other,
                        },
                        match g2 {
                            SpecStep::Done(rv, st2) => spec_binary(op, lv, rv, st2, more),
                            other => other,
                        },
                    );
                },
                _ => {},
            }
            match f2 {
                SpecStep::Done(lv, st1) => {
                    lemma_eval_replay(*r, st1, more, more, fuel);
                    let g = spec_eval(*r, st1, more, fuel);
                    match g {
                        SpecStep::Done(rv, st2) => lemma_binary_replay(op, lv, rv, st2, more, more),
                        _ => {},
                    }
                    let w = match g {
                        SpecStep::Done(rv, st2) => spec_binary(op, lv, rv, st2, more),
                        other => other,
                    };
                    lemma_then_replay(st1, g, g, w, w);
                },
                _ => {},
            }
            lemma_then_replay(st, f1, f2, spec_eval(e, st, events, fuel), spec_eval(e, st, more, fuel));
        },
        SpecExpr::Call(t, args) => {
            lemma_eval_all_replay(args, args.len() as int, st, events, more, fuel);
            let f1 = spec_eval_all(args, args.len() as int, st, events, fuel);
            let f2 = spec_eval_all(args, args.len() as int, st, more, fuel);
            match f1 {
                SpecStep::Done(avs, st1) => {
                    lemma_eval_replay(*t, st1, events, more, fuel);
                    let g1 = spec_eval(*t, st1, events, fuel);
                    let g2 = spec_eval(*t, st1, more, fuel);
                    match g1 {
                        SpecStep::Done(tv, st2) => lemma_call_send_replay(tv, avs, st2, events, more),
                        _ => {},
                    }
                    match g2 {
                        SpecStep::Done(tv, st2) => lemma_call_send_replay(tv, avs, st2, more, more),
                        _ => {},
                    }
                    lemma_then_replay(
                        st1,
                        g1,
                        g2,
                        match g1 {
                            SpecStep::Done(tv, st2) => spec_call_send(tv, avs, st2, events),
                            other => other,
                        },
                        match g2 {
                            SpecStep::Done(tv, st2) => spec_call_send(tv, avs, st2, more),
                            other => other,
                        },
                    );
                },
                _ => {},
            }
            match f2 {
                SpecStep::Done(avs, st1) => {
                    lemma_eval_replay(*t, st1, more, more, fuel);
                    let g = spec_eval(*t, st1, more, fuel);
                    match g {
                        SpecStep::Done(tv, st2) => lemma_call_send_replay(tv, avs, st2, more, more),
                        _ => {},
                    }
                    let w = match g {
                        SpecStep::Done(tv, st2) => spec_call_send(tv, avs, st2, more),
                        other => other,
                    };
                    lemma_then_replay(st1, g, g, w, w);
                },
                _ => {},
            }
            lemma_then_replay(st, f1, f2, spec_eval(e, st, events, fuel), spec_eval(e, st, more, fuel));
        },
        SpecExpr::List(items) => {
            lemma_eval_all_replay(items, items.len() as int, st, events, more, fuel);
            let f1 = spec_eval_all(items, items.len() as int, st, events, fuel);
            let f2 = spec_eval_all(items, items.len() as int, st, more, fuel);
            match f1 {
                SpecStep::Done(vs, st1) => {
                    let req = SpecRequest::SpawnList { items: vs };
                    let (a1, b1) = spec_request(st1, events, req);
                    let (a2, b2) = spec_request(st1, more, req);
                    lemma_answer_replay(
                        st1,
                        events,
                        more,
                        req,
                        match a1 {
                            None => SpecStep::Wait(b1),
                            Some(SpecEvent::Spawned(c)) => SpecStep::Done(SpecValue::Channel(c), b1),
                            Some(_) => SpecStep::Fault(crate::eval::mismatched_event_text(), b1),
                        },
                        match a2 {
                            None => SpecStep::Wait(b2),
                            Some(SpecEvent::Spawned(c)) => SpecStep::Done(SpecValue::Channel(c), b2),
                            Some(_) => SpecStep::Fault(crate::eval::mismatched_event_text(), b2),
                        },
                    );
                },
                _ => {},
            }
            match f2 {
                SpecStep::Done(vs, st1) => {
                    lemma_request_replay(st1, more, more, SpecRequest::SpawnList { items: vs });
                },
                _ => {},
            }
            lemma_then_replay(st, f1, f2, spec_eval(e, st, events, fuel), spec_eval(e, st, more, fuel));
        },
        _ => {},
    }
}

proof fn lemma_eval_all_replay(es: Seq<SpecExpr>, n: int, st: SpecRun, events: Seq<SpecEvent>, more: Seq<SpecEvent>, fuel: nat)
    requires
        events_extend(events, more),
    ensures
        replay_facts(st, spec_eval_all(es, n, st, events, fuel), spec_eval_all(es, n, st, more, fuel)),
    decreases fuel, es, n,
{
    lemma_extends_refl(st);
    if !(n <= 0 || n > es.len()) {
        lemma_eval_all_replay(es, n - 1, st, events, more, fuel);
        let f1 = spec_eval_all(es, n - 1, st, events, fuel);
        let f2 = spec_eval_all(es, n - 1, st, more, fuel);
        match f1 {
            SpecStep::Done(vs, st1) => {
                lemma_eval_replay(es[n - 1], st1, events, more, fuel);
                let g1 = spec_eval(es[n - 1], st1, events, fuel);
                let g2 = spec_eval(es[n - 1], st1, more, fuel);
                match g1 {
                    SpecStep::Done(v, st2) => lemma_extends_refl(st2),
                    _ => {},
                }
                match g2 {
                    SpecStep::Done(v, st2) => lemma_extends_refl(st2),
                    _ => {},
                }
                lemma_then_replay(
                    st1,
                    g1,
                    g2,
                    match g1 {
                        SpecStep::Done(v, st2) => SpecStep::Done(vs.push(v), st2),
                        other => carry(other),
                    },
                    match g2 {
                        SpecStep::Done(v, st2) => SpecStep::Done(vs.push(v), st2),
                        other => carry(other),
                    },
                );
            },
            _ => {},
        }
        match f2 {
            SpecStep::Done(vs, st1) => {
                lemma_eval_replay(es[n - 1], st1, more, more, fuel);
                let g = spec_eval(es[n - 1], st1, more, fuel);
                match g {
                    SpecStep::Done(v, st2) => lemma_extends_refl(st2),
                    _ => {},
                }
                let w = match g {
                    SpecStep::Done(v, st2) => SpecStep::Done(vs.push(v), st2),
                    other => carry(other),
                };
                lemma_then_replay(st1, g, g, w, w);
            },
            _ => {},
        }
        lemma_then_replay(st, f1, f2, spec_eval_all(es, n, st, events, fuel), spec_eval_all(es, n, st, more, fuel));
    }
}

proof fn lemma_eval_ask_replay(t: SpecExpr, args: Seq<SpecExpr>, st: SpecRun, events: Seq<SpecEvent>, more: Seq<SpecEvent>, fuel: nat)
    requires
        events_extend(events, more),
    ensures
        replay_facts(st, spec_eval_ask(t, args, st, events, fuel), spec_eval_ask(t, args, st, more, fuel)),
{
    lemma_extends_refl(st);
    lemma_eval_all_replay(args, args.len() as int, st, events, more, fuel);
    let f1 = spec_eval_all(args, args.len() as int, st, events, fuel);
    let f2 = spec_eval_all(args, args.len() as int, st, more, fuel);
    match f1 {
        SpecStep::Done(avs, st1) => {
            lemma_eval_replay(t, st1, events, more, fuel);
            let g1 = spec_eval(t, st1, events, fuel);
            let g2 = spec_eval(t, st1, more, fuel);
            match g1 {
                SpecStep::Done(tv, st2) => lemma_call_ask_replay(tv, avs, st2, events, more),
                _ => {},
            }
            match g2 {
                SpecStep::Done(tv, st2) => lemma_call_ask_replay(tv, avs, st2, more, more),
                _ => {},
            }
            lemma_then_replay(
                st1,
                g1,
                g2,
                match g1 {
                    SpecStep::Done(tv, st2) => spec_call_ask(tv, avs, st2, events),
                    other => other,
                },
                match g2 {
                    SpecStep::Done(tv, st2) => spec_call_ask(tv, avs, st2, more),
                    other => other,
                },
            );
        },
        _ => {},
    }
    match f2 {
        SpecStep::Done(avs, st1) => {
            lemma_eval_replay(t, st1, more, more, fuel);
            let g = spec_eval(t, st1, more, fuel);
            match g {
                SpecStep::Done(tv, st2) => lemma_call_ask_replay(tv, avs, st2, more, more),
                _ => {},
            }
            let w = match g {
                SpecStep::Done(tv, st2) => spec_call_ask(tv, avs, st2, more),
                other => other,
            };
            lemma_then_replay(st1, g, g, w, w);
        },
        _ => {},
    }
    lemma_then_replay(st, f1, f2, spec_eval_ask(t, args, st, events, fuel), spec_eval_ask(t, args, st, more, fuel));
}

/// The value an expander's evaluated operand leads to (see `spec_exec`).
pub open spec fn expand_step(n: SpecValue, st1: SpecRun, events: Seq<SpecEvent>, fuel: nat) -> SpecStep<SpecValue> {
    match n {
        SpecValue::Word(w) => match crate::scope::spec_lookup(st1.scope, w) {
            Some(_) => SpecStep::Fault(crate::eval::bound_expansion_text(), st1),
            None => SpecStep::Done(SpecValue::Error(crate::error::SpecRuntimeError::NameNotFound(w)), st1),
        },
        SpecValue::Block(b) => if fuel == 0 {
            SpecStep::Fault(crate::eval::depth_exceeded_text(), st1)
        } else {
            spec_exec_block(b, st1, events, (fuel - 1) as nat)
        },
        SpecValue::List(list) => spec_call_list(list, crate::eval::list_without_target(list), st1, events),
        SpecValue::Channel(c) => spec_expand_channel(c, st1, events),
        _ => SpecStep::Done(crate::eval::not_expandable(n), st1),
    }
}

proof fn lemma_exec_replay(s: SpecStatement, st: SpecRun, events: Seq<SpecEvent>, more: Seq<SpecEvent>, fuel: nat)
    requires
        events_extend(events, more),
    ensures
        replay_facts(st, spec_exec(s, st, events, fuel), spec_exec(s, st, more, fuel)),
    decreases fuel, s, 0int,
{
    lemma_extends_refl(st);
    match s {
        SpecStatement::Assignment(name, e) => {
            let f1 = match e {
                SpecExpr::Call(t, args) => spec_eval_ask(*t, args, st, events, fuel),
                _ => spec_eval(e, st, events, fuel),
            };
            let f2 = match e {
                SpecExpr::Call(t, args) => spec_eval_ask(*t, args, st, more, fuel),
                _ => spec_eval(e, st, more, fuel),
            };
            match e {
                SpecExpr::Call(t, args) => lemma_eval_ask_replay(*t, args, st, events, more, fuel),
                _ => lemma_eval_replay(e, st, events, more, fuel),
            }
            match f1 {
                SpecStep::Done(v, st1) => {
                    lemma_extends_refl(st1);
                    assert(extends(st1, SpecRun { scope: crate::scope::spec_bind(st1.scope, name, v), ..st1 }));
                },
                _ => {},
            }
            match f2 {
                SpecStep::Done(v, st1) => {
                    lemma_extends_refl(st1);
                    assert(extends(st1, SpecRun { scope: crate::scope::spec_bind(st1.scope, name, v), ..st1 }));
                },
                _ => {},
            }
            lemma_then_replay(st, f1, f2, spec_exec(s, st, events, fuel), spec_exec(s, st, more, fuel));
        },
        SpecStatement::Expr(e) => lemma_eval_replay(e, st, events, more, fuel),
        SpecStatement::Field(name, typ, Some(e)) => {
            let f1 = match crate::scope::spec_lookup(st.scope, name) {
                Some(v) => SpecStep::Done(v, st),
                None => spec_eval(e, st, events, fuel),
            };
            let f2 = match crate::scope::spec_lookup(st.scope, name) {
                Some(v) => SpecStep::Done(v, st),
                None => spec_eval(e, st, more, fuel),
            };
            if crate::scope::spec_lookup(st.scope, name) is None {
                lemma_eval_replay(e, st, events, more, fuel);
            }
            match f1 {
                SpecStep::Done(v, st1) => {
                    lemma_extends_refl(st1);
                    assert(extends(st1, SpecRun { scope: crate::scope::spec_bind(st1.scope, name, v), ..st1 }));
                },
                _ => {},
            }
            match f2 {
                SpecStep::Done(v, st1) => {
                    lemma_extends_refl(st1);
                    assert(extends(st1, SpecRun { scope: crate::scope::spec_bind(st1.scope, name, v), ..st1 }));
                },
                _ => {},
            }
            lemma_then_replay(st, f1, f2, spec_exec(s, st, events, fuel), spec_exec(s, st, more, fuel));
        },
        SpecStatement::Expander(e) => {
            lemma_eval_replay(e, st, events, more, fuel);
            let f1 = spec_eval(e, st, events, fuel);
            let f2 = spec_eval(e, st, more, fuel);
            match f1 {
                SpecStep::Done(n, st1) => {
                    lemma_extends_refl(st1);
                    match n {
                        SpecValue::Block(b) => {
                            if fuel > 0 {
                                lemma_exec_block_replay(b, st1, events, more, (fuel - 1) as nat);
                            }
                        },
                        SpecValue::List(list) => {
                            lemma_call_list_replay(list, crate::eval::list_without_target(list), st1, events, more);
                        },
                        SpecValue::Channel(c) => lemma_expand_channel_replay(c, st1, events, more),
                        _ => {},
                    }
                },
                _ => {},
            }
            match f2 {
                SpecStep::Done(n, st1) => {
                    lemma_extends_refl(st1);
                    match n {
                        SpecValue::Block(b) => {
                            if fuel > 0 {
                                lemma_exec_block_replay(b, st1, more, more, (fuel - 1) as nat);
                            }
                        },
                        SpecValue::List(list) => {
                            lemma_call_list_replay(list, crate::eval::list_without_target(list), st1, more, more);
                        },
                        SpecValue::Channel(c) => lemma_expand_channel_replay(c, st1, more, more),
                        _ => {},
                    }
                },
                _ => {},
            }
            lemma_then_replay(
                st,
                f1,
                f2,
                match f1 {
                    SpecStep::Done(n, st1) => expand_step(n, st1, events, fuel),
                    other => other,
                },
                match f2 {
                    SpecStep::Done(n, st1) => expand_step(n, st1, more, fuel),
                    other => other,
                },
            );
        },
        _ => {},
    }
}

proof fn lemma_exec_block_replay(b: SpecBlock, st: SpecRun, events: Seq<SpecEvent>, more: Seq<SpecEvent>, fuel: nat)
    requires
        events_extend(events, more),
    ensures
        replay_facts(st, spec_exec_block(b, st, events, fuel), spec_exec_block(b, st, more, fuel)),
    decreases fuel, b, 0int,
{
    lemma_exec_from_replay(b.statements, 0, SpecValue::Empty, st, events, more, fuel);
}

proof fn lemma_exec_from_replay(
    ss: Seq<SpecStatement>,
    i: int,
    last: SpecValue,
    st: SpecRun,
    events: Seq<SpecEvent>,
    more: Seq<SpecEvent>,
    fuel: nat,
)
    requires
        events_extend(events, more),
    ensures
        replay_facts(st, spec_exec_from(ss, i, last, st, events, fuel), spec_exec_from(ss, i, last, st, more, fuel)),
    decreases fuel, ss, ss.len() - i,
{
    lemma_extends_refl(st);
    if !(i < 0 || i >= ss.len()) {
        if ss[i] is NoOp || ss[i] is Comment {
            lemma_exec_from_replay(ss, i + 1, last, st, events, more, fuel);
        } else {
            lemma_exec_replay(ss[i], st, events, more, fuel);
            let f1 = spec_exec(ss[i], st, events, fuel);
            let f2 = spec_exec(ss[i], st, more, fuel);
            match f1 {
                SpecStep::Done(v, st1) => {
                    lemma_extends_refl(st1);
                    if !(v is Error) {
                        lemma_exec_from_replay(ss, i + 1, v, st1, events, more, fuel);
                    }
                },
                _ => {},
            }
            match f2 {
                SpecStep::Done(v, st1) => {
                    lemma_extends_refl(st1);
                    if !(v is Error) {
                        lemma_exec_from_replay(ss, i + 1, v, st1, more, more, fuel);
                    }
                },
                _ => {},
            }
            lemma_then_replay(
                st,
                f1,
                f2,
                spec_exec_from(ss, i, last, st, events, fuel),
                spec_exec_from(ss, i, last, st, more, fuel),
            );
        }
    }
}

/// Running a block again with more events repeats the first run: when
/// the first run finished or stopped, the second gives the same result in
/// the same state; when it waited, the requests of the second run start
/// with the requests of the first.
pub proof fn lemma_replay_repeats(b: SpecBlock, scope: SpecScope, events: Seq<SpecEvent>, more: Seq<SpecEvent>, fuel: nat)
    requires
        events_extend(events, more),
    ensures
        replays(
            spec_exec_block(b, SpecRun { scope, pos: 0, requests: Seq::empty() }, events, fuel),
            spec_exec_block(b, SpecRun { scope, pos: 0, requests: Seq::empty() }, more, fuel),
        ),
{
    lemma_exec_block_replay(b, SpecRun { scope, pos: 0, requests: Seq::empty() }, events, more, fuel);
}

/// Running the statements of a definition block one by one keeps the
/// request protocol from a state in which every request is answered.
pub proof fn lemma_setup_keeps_protocol(ss: Seq<SpecStatement>, i: int, st: SpecRun, events: Seq<SpecEvent>, fuel: nat)
    requires
        answered(st, events),
    ensures
        protocol_kept(spec_run_each(ss, i, st, events, fuel), events),
    decreases ss.len() - i,
{
    if !(i < 0 || i >= ss.len()) {
        if ss[i] is Handler {
            lemma_setup_keeps_protocol(ss, i + 1, st, events, fuel);
        } else {
            lemma_exec(ss[i], st, events, fuel);
            match spec_exec(ss[i], st, events, fuel) {
                SpecStep::Done(_, st1) => lemma_setup_keeps_protocol(ss, i + 1, st1, events, fuel),
                _ => {},
            }
        }
    }
}

/// Running the statements of a definition block again with more events
/// repeats the first run (see [`replays`]).
pub proof fn lemma_setup_replays(
    ss: Seq<SpecStatement>,
    i: int,
    st: SpecRun,
    events: Seq<SpecEvent>,
    more: Seq<SpecEvent>,
    fuel: nat,
)
    requires
        events_extend(events, more),
    ensures
        replay_facts(st, spec_run_each(ss, i, st, events, fuel), spec_run_each(ss, i, st, more, fuel)),
    decreases ss.len() - i,
{
    lemma_extends_refl(st);
    if !(i < 0 || i >= ss.len()) {
        if ss[i] is Handler {
            lemma_setup_replays(ss, i + 1, st, events, more, fuel);
        } else {
            lemma_exec_replay(ss[i], st, events, more, fuel);
            let f1 = spec_exec(ss[i], st, events, fuel);
            let f2 = spec_exec(ss[i], st, more, fuel);
            match f1 {
                SpecStep::Done(_, st1) => lemma_setup_replays(ss, i + 1, st1, events, more, fuel),
                _ => {},
            }
            match f2 {
                SpecStep::Done(_, st1) => lemma_setup_replays(ss, i + 1, st1, more, more, fuel),
                _ => {},
            }
            lemma_then_replay(st, f1, f2, spec_run_each(ss, i, st, events, fuel), spec_run_each(ss, i, st, more, fuel));
        }
    }
}

} // verus!
