//! Turning values, statements and blocks into one another's syntax.
use vstd::prelude::*;
use crate::ast::{Block, Expr, SpecExpr, SpecStatement, SpecValue, Statement, Value, lemma_statements_of, statements_of};
use crate::channel::Channel;
use crate::number::Number;
use crate::values::dup_statements;

verus! {

broadcast use vstd::std_specs::vec::group_vec_axioms;

pub trait ToStatement {
    fn to_statement(&self) -> Statement;
}

pub trait ToExpr {
    fn to_expr(&self) -> Expr;
}

pub trait ToValue {
    fn to_value(&self) -> Value;
}

pub trait ToBlock {
    fn to_block(&self) -> Block;
}

pub trait ToBoxedExpr {
    fn to_boxed_expr(&self) -> Box<Expr>;
}

impl ToStatement for Value {
    /// The value as a statement that evaluates it.
    fn to_statement(&self) -> (r: Statement)
        ensures
            r@ == SpecStatement::Expr(SpecExpr::Value(self@)),
    {
        Statement::Expr(Expr::Value(self.duplicate()))
    }
}

impl ToExpr for Value {
    /// The value as an expression.
    fn to_expr(&self) -> (r: Expr)
        ensures
            r@ == SpecExpr::Value(self@),
    {
        Expr::Value(self.duplicate())
    }
}

impl ToBlock for Vec<Statement> {
    /// A block of copies of the statements.
    fn to_block(&self) -> (r: Block)
        ensures
            r@.statements == statements_of(self@),
    {
        Block { statements: dup_statements(self) }
    }
}

impl ToBlock for Statement {
    /// A block holding this one statement.
    fn to_block(&self) -> (r: Block)
        ensures
            r@.statements == seq![self@],
    {
        let mut v: Vec<Statement> = Vec::new();
        v.push(self.duplicate());
        proof {
            lemma_statements_of(v@);
            assert(statements_of(v@) =~= seq![self@]);
        }
        Block { statements: v }
    }
}

impl ToExpr for Block {
    /// The block as an expression.
    fn to_expr(&self) -> (r: Expr)
        ensures
            r@ == SpecExpr::Block(self@),
    {
        Expr::Block(Box::new(self.duplicate()))
    }
}

impl ToValue for Block {
    /// The block as a value.
    fn to_value(&self) -> (r: Value)
        ensures
            r@ == SpecValue::Block(self@),
    {
        Value::Block(Box::new(self.duplicate()))
    }
}

impl ToBoxedExpr for Block {
    /// The block as a boxed expression.
    fn to_boxed_expr(&self) -> (r: Box<Expr>)
        ensures
            (*r)@ == SpecExpr::Block(self@),
    {
        Box::new(Expr::Block(Box::new(self.duplicate())))
    }
}

impl From<String> for Value {
    fn from(v: String) -> (r: Value) {
        Value::String(v)
    }
}

impl vstd::std_specs::convert::FromSpecImpl<String> for Value {
    open spec fn obeys_from_spec() -> bool {
        true
    }

    open spec fn from_spec(v: String) -> Value {
        Value::String(v)
    }
}

impl From<bool> for Value {
    fn from(v: bool) -> (r: Value) {
        Value::Boolean(v)
    }
}

impl vstd::std_specs::convert::FromSpecImpl<bool> for Value {
    open spec fn obeys_from_spec() -> bool {
        true
    }

    open spec fn from_spec(v: bool) -> Value {
        Value::Boolean(v)
    }
}

impl From<Channel> for Value {
    fn from(v: Channel) -> (r: Value) {
        Value::Channel(v)
    }
}

impl vstd::std_specs::convert::FromSpecImpl<Channel> for Value {
    open spec fn obeys_from_spec() -> bool {
        true
    }

    open spec fn from_spec(v: Channel) -> Value {
        Value::Channel(v)
    }
}

impl From<Number> for Value {
    fn from(v: Number) -> (r: Value) {
        Value::Number(v)
    }
}

impl vstd::std_specs::convert::FromSpecImpl<Number> for Value {
    open spec fn obeys_from_spec() -> bool {
        true
    }

    open spec fn from_spec(v: Number) -> Value {
        Value::Number(v)
    }
}

impl From<Vec<Value>> for Value {
    fn from(v: Vec<Value>) -> (r: Value) {
        Value::List(v)
    }
}

impl vstd::std_specs::convert::FromSpecImpl<Vec<Value>> for Value {
    open spec fn obeys_from_spec() -> bool {
        true
    }

    open spec fn from_spec(v: Vec<Value>) -> Value {
        Value::List(v)
    }
}

impl From<i64> for Value {
    fn from(v: i64) -> (r: Value) {
        Value::Number(Number::Int(v))
    }
}

impl vstd::std_specs::convert::FromSpecImpl<i64> for Value {
    open spec fn obeys_from_spec() -> bool {
        true
    }

    open spec fn from_spec(v: i64) -> Value {
        Value::Number(Number::Int(v))
    }
}

impl From<u64> for Value {
    fn from(v: u64) -> (r: Value) {
        Value::Number(Number::UInt(v))
    }
}

impl vstd::std_specs::convert::FromSpecImpl<u64> for Value {
    open spec fn obeys_from_spec() -> bool {
        true
    }

    open spec fn from_spec(v: u64) -> Value {
        Value::Number(Number::UInt(v))
    }
}

} // verus!
