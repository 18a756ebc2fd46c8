//! Running syntax trees as the language's `Execute` protocol names it:
//! blocks, statements and expressions run, and a call can await its reply.
use vstd::prelude::*;
use crate::ast::{Block, CallExpr, Expr, Statement, Value, boxed_exprs_of};
use crate::eval::{spec_eval, spec_eval_ask, spec_exec, spec_exec_block};
use crate::run::{Event, Outcome, Run, eval_ask, eval_expr, events_of, exec_block, exec_stmt, value_step};

verus! {

/// Running a piece of syntax in a run, with the events answered so far.
pub trait Execute {
    type Output;

    fn execute(&self, run: &mut Run, events: &Vec<Event>, fuel: usize) -> Self::Output;
}

/// Running a call and waiting for its reply.
pub trait ExecuteWithReply {
    type Output;

    fn execute_with_reply(&self, run: &mut Run, events: &Vec<Event>, fuel: usize) -> Self::Output;
}

impl Execute for Block {
    type Output = Outcome<Value>;

    fn execute(&self, run: &mut Run, events: &Vec<Event>, fuel: usize) -> (r: Outcome<Value>)
        ensures
            value_step(r, final(run)@) == spec_exec_block(self@, old(run)@, events_of(events@), fuel as nat),
    {
        exec_block(self, run, events, fuel)
    }
}

impl Execute for Statement {
    type Output = Outcome<Value>;

    fn execute(&self, run: &mut Run, events: &Vec<Event>, fuel: usize) -> (r: Outcome<Value>)
        ensures
            value_step(r, final(run)@) == spec_exec(self@, old(run)@, events_of(events@), fuel as nat),
    {
        exec_stmt(self, run, events, fuel)
    }
}

impl Execute for Expr {
    type Output = Outcome<Value>;

    fn execute(&self, run: &mut Run, events: &Vec<Event>, fuel: usize) -> (r: Outcome<Value>)
        ensures
            value_step(r, final(run)@) == spec_eval(self@, old(run)@, events_of(events@), fuel as nat),
    {
        eval_expr(self, run, events, fuel)
    }
}

impl ExecuteWithReply for CallExpr {
    type Output = Outcome<Value>;

    fn execute_with_reply(&self, run: &mut Run, events: &Vec<Event>, fuel: usize) -> (r: Outcome<Value>)
        ensures
            value_step(r, final(run)@) == spec_eval_ask(
                (*self.target)@,
                boxed_exprs_of(self.args@),
                old(run)@,
                events_of(events@),
                fuel as nat,
            ),
    {
        eval_ask(&self.target, &self.args, run, events, fuel)
    }
}

} // verus!
