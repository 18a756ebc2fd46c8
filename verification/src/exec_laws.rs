//! Laws of running statements: what an assignment, a field declaration,
//! a block and a call awaiting its reply do.
use vstd::prelude::*;
use crate::ast::{SpecBlock, SpecExpr, SpecStatement, SpecTypeExpr, SpecValue};
use crate::channel::Channel;
use crate::error::SpecRuntimeError;
use crate::eval::{
    SpecEvent, SpecRequest, SpecRun, SpecStep, field_mismatch_text, fetch_step, reply_step, spec_binary,
    spec_call_ask, spec_call_send, spec_eval, spec_eval_all, spec_eval_ask, spec_exec, spec_exec_block,
    spec_exec_from, spec_request, spec_type_expr_subtype, type_mismatch,
};
use crate::replay::final_state;
use crate::scope::{spec_bind, spec_lookup, lemma_lookup_after_bind, lemma_lookup_other_after_bind};
use crate::values::spec_type_of;

verus! {

// ------------------------------------------------------------------
// Evaluating an expression never changes the scope
// ------------------------------------------------------------------

proof fn lemma_binary_keeps_scope(op: crate::operators::BinaryOp, l: SpecValue, r: SpecValue, st: SpecRun, events: Seq<SpecEvent>)
    ensures
        final_state(spec_binary(op, l, r, st, events)).scope == st.scope,
{
}

proof fn lemma_eval_keeps_scope_rec(e: SpecExpr, st: SpecRun, events: Seq<SpecEvent>, fuel: nat)
    ensures
        final_state(spec_eval(e, st, events, fuel)).scope == st.scope,
    decreases fuel, e, 0int,
{
    match e {
        SpecExpr::Binary(op, l, r) => {
            lemma_eval_keeps_scope_rec(*l, st, events, fuel);
            match spec_eval(*l, st, events, fuel) {
                SpecStep::Done(lv, st1) => {
                    lemma_eval_keeps_scope_rec(*r, st1, events, fuel);
                    match spec_eval(*r, st1, events, fuel) {
                        SpecStep::Done(rv, st2) => lemma_binary_keeps_scope(op, lv, rv, st2, events),
                        _ => {},
                    }
                },
                _ => {},
            }
        },
        SpecExpr::Call(t, args) => {
            lemma_eval_all_keeps_scope(args, args.len() as int, st, events, fuel);
            match spec_eval_all(args, args.len() as int, st, events, fuel) {
                SpecStep::Done(avs, st1) => {
                    lemma_eval_keeps_scope_rec(*t, st1, events, fuel);
                },
                _ => {},
            }
        },
        SpecExpr::List(items) => {
            lemma_eval_all_keeps_scope(items, items.len() as int, st, events, fuel);
        },
        _ => {},
    }
}

proof fn lemma_eval_all_keeps_scope(es: Seq<SpecExpr>, n: int, st: SpecRun, events: Seq<SpecEvent>, fuel: nat)
    ensures
        final_state(spec_eval_all(es, n, st, events, fuel)).scope == st.scope,
    decreases fuel, es, n,
{
    if !(n <= 0 || n > es.len()) {
        lemma_eval_all_keeps_scope(es, n - 1, st, events, fuel);
        match spec_eval_all(es, n - 1, st, events, fuel) {
            SpecStep::Done(vs, st1) => lemma_eval_keeps_scope_rec(es[n - 1], st1, events, fuel),
            _ => {},
        }
    }
}

/// Evaluating an expression, or a call that awaits its reply, reads the
/// scope and never changes it.
pub proof fn lemma_eval_keeps_scope(e: SpecExpr, st: SpecRun, events: Seq<SpecEvent>, fuel: nat)
    ensures
        final_state(spec_eval(e, st, events, fuel)).scope == st.scope,
        e matches SpecExpr::Call(t, args) ==> final_state(spec_eval_ask(*t, args, st, events, fuel)).scope == st.scope,
{
    lemma_eval_keeps_scope_rec(e, st, events, fuel);
    match e {
        SpecExpr::Call(t, args) => {
            lemma_eval_all_keeps_scope(args, args.len() as int, st, events, fuel);
            match spec_eval_all(args, args.len() as int, st, events, fuel) {
                SpecStep::Done(avs, st1) => lemma_eval_keeps_scope_rec(*t, st1, events, fuel),
                _ => {},
            }
        },
        _ => {},
    }
}

/// The value that the right-hand side of an assignment gives: a call
/// awaits its reply, any other expression is evaluated.
pub open spec fn assigned(e: SpecExpr, st: SpecRun, events: Seq<SpecEvent>, fuel: nat) -> SpecStep<SpecValue> {
    match e {
        SpecExpr::Call(t, args) => spec_eval_ask(*t, args, st, events, fuel),
        _ => spec_eval(e, st, events, fuel),
    }
}

/// An assignment gives the value of its right-hand side and binds its
/// name to it in the scope's own bindings, shadowing an enclosing
/// binding; every other name keeps its value, and the scope is marked
/// dirty. When the right-hand side does not finish, neither does the
/// assignment, and nothing is bound.
pub proof fn lemma_assignment(name: Seq<char>, e: SpecExpr, st: SpecRun, events: Seq<SpecEvent>, fuel: nat)
    ensures
        assigned(e, st, events, fuel) matches SpecStep::Done(v, st1) ==> {
            let after = spec_exec(SpecStatement::Assignment(name, e), st, events, fuel);
            &&& after is Done
            &&& after->Done_0 == v
            &&& spec_lookup(final_state(after).scope, name) == Some(v)
            &&& forall|k: Seq<char>| k != name ==> #[trigger] spec_lookup(final_state(after).scope, k) == spec_lookup(st.scope, k)
            &&& final_state(after).scope.dirty
            &&& final_state(after).requests == st1.requests
        },
        !(assigned(e, st, events, fuel) is Done) ==> spec_exec(SpecStatement::Assignment(name, e), st, events, fuel) == assigned(e, st, events, fuel),
{
    lemma_eval_keeps_scope(e, st, events, fuel);
    match assigned(e, st, events, fuel) {
        SpecStep::Done(v, st1) => {
            lemma_lookup_after_bind(st1.scope, name, v);
            assert forall|k: Seq<char>| k != name implies #[trigger] spec_lookup(spec_bind(st1.scope, name, v), k) == spec_lookup(st.scope, k) by {
                lemma_lookup_other_after_bind(st1.scope, name, k, v);
            }
        },
        _ => {},
    }
}

/// The value a field declaration with a default starts from: the value
/// the name already has, if any (then the default is not evaluated),
/// else the default's value.
pub open spec fn field_source(name: Seq<char>, e: SpecExpr, st: SpecRun, events: Seq<SpecEvent>, fuel: nat) -> SpecStep<SpecValue> {
    match spec_lookup(st.scope, name) {
        Some(v) => SpecStep::Done(v, st),
        None => spec_eval(e, st, events, fuel),
    }
}

/// A field declaration with a default: when the value it starts from has
/// a type under the declared one, it binds the name to that value and
/// gives it; otherwise it gives a `TypeMismatch` error and binds nothing.
/// A field declaration without a default gives `Empty` and changes
/// nothing.
pub proof fn lemma_field(name: Seq<char>, typ: SpecTypeExpr, e: SpecExpr, st: SpecRun, events: Seq<SpecEvent>, fuel: nat)
    ensures
        field_source(name, e, st, events, fuel) matches SpecStep::Done(v, st1) ==> {
            let after = spec_exec(SpecStatement::Field(name, typ, Some(e)), st, events, fuel);
            if spec_type_expr_subtype(SpecTypeExpr::Type(spec_type_of(v)), typ) {
                &&& after is Done && after->Done_0 == v
                &&& spec_lookup(final_state(after).scope, name) == Some(v)
                &&& forall|k: Seq<char>| k != name ==> #[trigger] spec_lookup(final_state(after).scope, k) == spec_lookup(st.scope, k)
            } else {
                &&& after is Done
                &&& after->Done_0 == type_mismatch(field_mismatch_text(typ, spec_type_of(v)))
                &&& final_state(after).scope == st.scope
            }
        },
        !(field_source(name, e, st, events, fuel) is Done) ==> spec_exec(SpecStatement::Field(name, typ, Some(e)), st, events, fuel)
            == field_source(name, e, st, events, fuel),
        spec_exec(SpecStatement::Field(name, typ, None), st, events, fuel) == SpecStep::Done(SpecValue::Empty, st),
{
    lemma_eval_keeps_scope(e, st, events, fuel);
    match field_source(name, e, st, events, fuel) {
        SpecStep::Done(v, st1) => {
            lemma_lookup_after_bind(st1.scope, name, v);
            assert forall|k: Seq<char>| k != name implies #[trigger] spec_lookup(spec_bind(st1.scope, name, v), k) == spec_lookup(st.scope, k) by {
                lemma_lookup_other_after_bind(st1.scope, name, k, v);
            }
        },
        _ => {},
    }
}

// ------------------------------------------------------------------
// Blocks
// ------------------------------------------------------------------

/// Whether a statement is one that a block skips.
pub open spec fn skipped(s: SpecStatement) -> bool {
    s is NoOp || s is Comment
}

/// How a block runs, statement by statement: no-ops and comments are
/// skipped; a statement that does not finish ends the block with its
/// step; a statement whose value is an error ends the block with that
/// error, and no later statement runs; any other value goes on to the
/// next statement as the value so far; at the end the block gives the
/// value so far, `Empty` when no statement ran.
pub proof fn lemma_block_step(ss: Seq<SpecStatement>, i: int, last: SpecValue, st: SpecRun, events: Seq<SpecEvent>, fuel: nat)
    requires
        0 <= i,
    ensures
        i >= ss.len() ==> spec_exec_from(ss, i, last, st, events, fuel) == SpecStep::Done(last, st),
        i < ss.len() && skipped(ss[i]) ==> spec_exec_from(ss, i, last, st, events, fuel) == spec_exec_from(ss, i + 1, last, st, events, fuel),
        i < ss.len() && !skipped(ss[i]) ==> spec_exec_from(ss, i, last, st, events, fuel) == match spec_exec(ss[i], st, events, fuel) {
            SpecStep::Done(v, st1) => if v is Error {
                SpecStep::Done(v, st1)
            } else {
                spec_exec_from(ss, i + 1, v, st1, events, fuel)
            },
            other => other,
        },
        forall|b: SpecBlock| b.statements == ss ==> #[trigger] spec_exec_block(b, st, events, fuel) == spec_exec_from(ss, 0, SpecValue::Empty, st, events, fuel),
{
}

/// A block all of whose statements are skipped gives `Empty` and changes
/// nothing.
pub proof fn lemma_block_of_skips(ss: Seq<SpecStatement>, i: int, last: SpecValue, st: SpecRun, events: Seq<SpecEvent>, fuel: nat)
    requires
        0 <= i,
        forall|j: int| i <= j < ss.len() ==> skipped(#[trigger] ss[j]),
    ensures
        spec_exec_from(ss, i, last, st, events, fuel) == SpecStep::Done(last, st),
    decreases ss.len() - i,
{
    if i < ss.len() {
        lemma_block_of_skips(ss, i + 1, last, st, events, fuel);
    }
}

/// Whether a statement is one that a block runs.
pub open spec fn not_skipped() -> spec_fn(SpecStatement) -> bool {
    |s: SpecStatement| !skipped(s)
}

/// Runs the statements in order from the first, `last` being the value so
/// far: the first statement whose value is an error ends the run with it,
/// and none after it runs; a statement that does not finish ends the run
/// with its step; otherwise the value of the last statement, `last` when
/// there is none.
pub open spec fn spec_run_statements(ss: Seq<SpecStatement>, last: SpecValue, st: SpecRun, events: Seq<SpecEvent>, fuel: nat) -> SpecStep<SpecValue>
    decreases ss.len(),
{
    if ss.len() == 0 {
        SpecStep::Done(last, st)
    } else {
        match spec_exec(ss[0], st, events, fuel) {
            SpecStep::Done(v, st1) => if v is Error {
                SpecStep::Done(v, st1)
            } else {
                spec_run_statements(ss.drop_first(), v, st1, events, fuel)
            },
            other => other,
        }
    }
}

proof fn lemma_exec_from_filter(ss: Seq<SpecStatement>, i: int, last: SpecValue, st: SpecRun, events: Seq<SpecEvent>, fuel: nat)
    requires
        0 <= i <= ss.len(),
    ensures
        spec_exec_from(ss, i, last, st, events, fuel)
            == spec_run_statements(ss.subrange(i, ss.len() as int).filter(not_skipped()), last, st, events, fuel),
    decreases ss.len() - i,
{
    let rest = ss.subrange(i, ss.len() as int);
    if i == ss.len() {
        assert(rest =~= Seq::<SpecStatement>::empty());
        rest.lemma_filter_len(not_skipped());
    } else {
        let tail = ss.subrange(i + 1, ss.len() as int);
        assert(rest =~= seq![ss[i]] + tail);
        tail.lemma_filter_prepend(ss[i], not_skipped());
        let tf = tail.filter(not_skipped());
        if skipped(ss[i]) {
            assert(rest.filter(not_skipped()) =~= tf);
            lemma_exec_from_filter(ss, i + 1, last, st, events, fuel);
        } else {
            let f = seq![ss[i]] + tf;
            assert(rest.filter(not_skipped()) == f);
            assert(f[0] == ss[i]);
            assert(f.drop_first() =~= tf);
            match spec_exec(ss[i], st, events, fuel) {
                SpecStep::Done(v, st1) => {
                    if !(v is Error) {
                        lemma_exec_from_filter(ss, i + 1, v, st1, events, fuel);
                    }
                },
                _ => {},
            }
        }
    }
}

/// How a whole block runs: its statements other than no-ops and comments
/// run in order; the first whose value is an error ends the block with
/// that error, and no statement after it runs (it binds nothing and sends
/// nothing); a statement that does not finish ends the block with its
/// step; otherwise the block's value is that of its last statement, or
/// `Empty` when it has none.
pub proof fn lemma_block_runs_in_order(b: SpecBlock, st: SpecRun, events: Seq<SpecEvent>, fuel: nat)
    ensures
        spec_exec_block(b, st, events, fuel)
            == spec_run_statements(b.statements.filter(not_skipped()), SpecValue::Empty, st, events, fuel),
{
    lemma_exec_from_filter(b.statements, 0, SpecValue::Empty, st, events, fuel);
    assert(b.statements.subrange(0, b.statements.len() as int) =~= b.statements);
}

// ------------------------------------------------------------------
// Awaiting a reply
// ------------------------------------------------------------------

/// A call that awaits its reply, once its target and arguments are
/// evaluated: to a channel it makes one request, to send the arguments
/// with a reply channel, and gives the single term of the reply, a
/// `SendError` when the send failed or a `ReceiveError` when no reply
/// came; to anything else it sends nothing and gives a `SendError`.
pub proof fn lemma_ask(t: SpecValue, args: Seq<SpecValue>, st: SpecRun, events: Seq<SpecEvent>)
    ensures
        t matches SpecValue::Channel(c) ==> {
            let after = spec_call_ask(t, args, st, events);
            &&& final_state(after).requests == st.requests.push(SpecRequest::Ask { target: c, terms: args })
            &&& final_state(after).scope == st.scope
            &&& (st.pos < events.len() ==> (events[st.pos as int] matches SpecEvent::Replied(terms) ==> (terms.len() == 1
                ==> after == SpecStep::Done(terms[0], SpecRun { pos: st.pos + 1, requests: st.requests.push(SpecRequest::Ask { target: c, terms: args }), ..st }))))
            &&& (st.pos < events.len() && events[st.pos as int] is SendFailed
                ==> after is Done && after->Done_0 == SpecValue::Error(SpecRuntimeError::SendError))
            &&& (st.pos < events.len() && events[st.pos as int] is ReceiveFailed
                ==> after is Done && after->Done_0 == SpecValue::Error(SpecRuntimeError::ReceiveError))
            &&& (st.pos >= events.len() ==> after is Wait)
        },
        !(t is Channel) ==> spec_call_ask(t, args, st, events) == SpecStep::Done(SpecValue::Error(SpecRuntimeError::SendError), st),
{
}

/// The logical operators on two booleans are boolean `and` and `or`, and
/// `==` and `!=` compare the booleans; none of them changes the run.
pub proof fn lemma_logical_operators(a: bool, b: bool, st: SpecRun, events: Seq<SpecEvent>)
    ensures
        spec_binary(crate::operators::BinaryOp::And, SpecValue::Boolean(a), SpecValue::Boolean(b), st, events)
            == SpecStep::Done(SpecValue::Boolean(a && b), st),
        spec_binary(crate::operators::BinaryOp::Or, SpecValue::Boolean(a), SpecValue::Boolean(b), st, events)
            == SpecStep::Done(SpecValue::Boolean(a || b), st),
        spec_binary(crate::operators::BinaryOp::Eq, SpecValue::Boolean(a), SpecValue::Boolean(b), st, events)
            == SpecStep::Done(SpecValue::Boolean(a == b), st),
        spec_binary(crate::operators::BinaryOp::Ne, SpecValue::Boolean(a), SpecValue::Boolean(b), st, events)
            == SpecStep::Done(SpecValue::Boolean(a != b), st),
        spec_binary(crate::operators::BinaryOp::Or, SpecValue::Boolean(true), SpecValue::Boolean(b), st, events)
            == SpecStep::Done(SpecValue::Boolean(true), st),
        spec_binary(crate::operators::BinaryOp::And, SpecValue::Boolean(false), SpecValue::Boolean(b), st, events)
            == SpecStep::Done(SpecValue::Boolean(false), st),
{
}

/// The arithmetic operators on two integers compute the sum, the
/// difference (left minus right) and the product when the result fits;
/// on two unsigned numbers, division and remainder by a non-zero divisor
/// are the quotient and remainder of left by right. `+` on two strings
/// joins them, left first.
pub proof fn lemma_arithmetic_operators(x: i64, y: i64, a: u64, b: u64, s: Seq<char>, t: Seq<char>, st: SpecRun, events: Seq<SpecEvent>)
    ensures
        i64::MIN <= x + y <= i64::MAX ==> spec_binary(crate::operators::BinaryOp::Add, SpecValue::Number(crate::number::Number::Int(x)),
            SpecValue::Number(crate::number::Number::Int(y)), st, events)
            == SpecStep::Done(SpecValue::Number(crate::number::Number::Int((x + y) as i64)), st),
        i64::MIN <= x - y <= i64::MAX ==> spec_binary(crate::operators::BinaryOp::Sub, SpecValue::Number(crate::number::Number::Int(x)),
            SpecValue::Number(crate::number::Number::Int(y)), st, events)
            == SpecStep::Done(SpecValue::Number(crate::number::Number::Int((x - y) as i64)), st),
        i64::MIN <= x * y <= i64::MAX ==> spec_binary(crate::operators::BinaryOp::Mul, SpecValue::Number(crate::number::Number::Int(x)),
            SpecValue::Number(crate::number::Number::Int(y)), st, events)
            == SpecStep::Done(SpecValue::Number(crate::number::Number::Int((x * y) as i64)), st),
        b != 0 ==> spec_binary(crate::operators::BinaryOp::Div, SpecValue::Number(crate::number::Number::UInt(a)),
            SpecValue::Number(crate::number::Number::UInt(b)), st, events)
            == SpecStep::Done(SpecValue::Number(crate::number::Number::UInt(a / b)), st),
        b != 0 ==> spec_binary(crate::operators::BinaryOp::Mod, SpecValue::Number(crate::number::Number::UInt(a)),
            SpecValue::Number(crate::number::Number::UInt(b)), st, events)
            == SpecStep::Done(SpecValue::Number(crate::number::Number::UInt(a % b)), st),
        spec_binary(crate::operators::BinaryOp::Add, SpecValue::String(s), SpecValue::String(t), st, events)
            == SpecStep::Done(SpecValue::String(s + t), st),
{
}

} // verus!
