//! Values and syntax trees of the language, with their mathematical forms.
//!
//! Every executable type here has a view (`@`) into a `Spec` type in which
//! strings are character sequences and vectors are sequences; contracts
//! speak of these views.
use vstd::prelude::*;
use crate::channel::Channel;
use crate::error::{RuntimeError, SpecRuntimeError};
use crate::number::Number;
use crate::operators::{BinaryOp, ComparisonOp, UnaryOp};

use crate::value_type::{ValueType, SpecValueType};

verus! {

broadcast use vstd::std_specs::vec::group_vec_axioms;

/// A block of embedded text with tags.
#[derive(Debug, Clone, Hash)]
pub struct EmbeddedBlock {
    pub tags: Vec<String>,
    pub text: String,
}

/// A value of the language.
#[derive(Debug)]
pub enum Value {
    Empty,
    Error(RuntimeError),
    Channel(Channel),
    Boolean(bool),
    Word(String),
    String(String),
    Number(Number),
    List(Vec<Value>),
    Block(Box<Block>),
    Bytes(Vec<u8>),
    Embedded(EmbeddedBlock),
}

/// A binary expression.
#[derive(Debug)]
pub struct BinaryExpr {
    pub op: BinaryOp,
    pub left: Box<Expr>,
    pub right: Box<Expr>,
}

/// A unary expression.
#[derive(Debug)]
pub struct UnaryExpr {
    pub op: UnaryOp,
    pub expr: Box<Expr>,
}

/// A message send: a target and arguments.
#[derive(Debug)]
pub struct CallExpr {
    pub target: Box<Expr>,
    pub args: Vec<Box<Expr>>,
}

/// An expression.
#[derive(Debug)]
pub enum Expr {
    Value(Value),
    Variable(String),
    Binary(BinaryExpr),
    Call(CallExpr),
    Block(Box<Block>),
    List(Vec<Expr>),
}

/// A statement.
#[derive(Debug)]
pub enum Statement {
    NoOp,
    Comment(String),
    Expr(Expr),
    Assignment(String, Expr),
    Field(String, TypeExpr, Option<Expr>),
    Handler(Box<Handler>),
    Expander(Expr),
}

/// A sequence of statements.
#[derive(Debug)]
pub struct Block {
    pub statements: Vec<Statement>,
}

/// One term of a message pattern.
#[derive(Debug)]
pub enum TypeExpr {
    Empty,
    Type(ValueType),
    Word(String),
    Hole(String),
    TypeHole(String, ValueType),
    BlockHole(String),
    Value(Value),
    Binary(String, ComparisonOp, Value),
}

/// The pattern of a message handler.
#[derive(Debug)]
pub struct Pattern {
    pub terms: Vec<TypeExpr>,
}

/// A message handler: a pattern and the block that runs on a match.
#[derive(Debug)]
pub struct Handler {
    pub pattern: Pattern,
    pub block: Block,
}

/// The mathematical form of an [`EmbeddedBlock`].
pub struct SpecEmbedded {
    pub tags: Seq<Seq<char>>,
    pub text: Seq<char>,
}

/// The mathematical form of a [`Value`].
pub enum SpecValue {
    Empty,
    Error(SpecRuntimeError),
    Channel(Channel),
    Boolean(bool),
    Word(Seq<char>),
    String(Seq<char>),
    Number(Number),
    List(Seq<SpecValue>),
    Block(SpecBlock),
    Bytes(Seq<u8>),
    Embedded(SpecEmbedded),
}

/// The mathematical form of an [`Expr`].
pub enum SpecExpr {
    Value(SpecValue),
    Variable(Seq<char>),
    Binary(BinaryOp, Box<SpecExpr>, Box<SpecExpr>),
    Call(Box<SpecExpr>, Seq<SpecExpr>),
    Block(SpecBlock),
    List(Seq<SpecExpr>),
}

/// The mathematical form of a [`Statement`].
pub enum SpecStatement {
    NoOp,
    Comment(Seq<char>),
    Expr(SpecExpr),
    Assignment(Seq<char>, SpecExpr),
    Field(Seq<char>, SpecTypeExpr, Option<SpecExpr>),
    Handler(SpecHandler),
    Expander(SpecExpr),
}

/// The mathematical form of a [`Block`].
pub struct SpecBlock {
    pub statements: Seq<SpecStatement>,
}

/// The mathematical form of a [`TypeExpr`].
pub enum SpecTypeExpr {
    Empty,
    Type(SpecValueType),
    Word(Seq<char>),
    Hole(Seq<char>),
    TypeHole(Seq<char>, SpecValueType),
    BlockHole(Seq<char>),
    Value(SpecValue),
    Binary(Seq<char>, ComparisonOp, SpecValue),
}

/// The mathematical form of a [`Handler`].
pub struct SpecHandler {
    pub pattern: Seq<SpecTypeExpr>,
    pub block: SpecBlock,
}

pub open spec fn strings_view(ss: Seq<String>) -> Seq<Seq<char>> {
    ss.map_values(|s: String| s@)
}

pub open spec fn embedded_view(e: EmbeddedBlock) -> SpecEmbedded {
    SpecEmbedded { tags: strings_view(e.tags@), text: e.text@ }
}

pub open spec fn value_view(v: Value) -> SpecValue
    decreases v, 0int,
{
    match v {
        Value::Empty => SpecValue::Empty,
        Value::Error(e) => SpecValue::Error(e@),
        Value::Channel(c) => SpecValue::Channel(c),
        Value::Boolean(b) => SpecValue::Boolean(b),
        Value::Word(w) => SpecValue::Word(w@),
        Value::String(s) => SpecValue::String(s@),
        Value::Number(n) => SpecValue::Number(n),
        Value::List(vs) => SpecValue::List(values_view(vs@, vs@.len() as int)),
        Value::Block(b) => SpecValue::Block(block_view(*b)),
        Value::Bytes(bs) => SpecValue::Bytes(bs@),
        Value::Embedded(e) => SpecValue::Embedded(embedded_view(e)),
    }
}

/// The views of the first `n` values of `vs`.
pub open spec fn values_view(vs: Seq<Value>, n: int) -> Seq<SpecValue>
    decreases vs, n,
{
    if n <= 0 || n > vs.len() {
        Seq::empty()
    } else {
        values_view(vs, n - 1).push(value_view(vs[n - 1]))
    }
}

pub open spec fn block_view(b: Block) -> SpecBlock
    decreases b, 0int,
{
    SpecBlock { statements: statements_view(b.statements@, b.statements@.len() as int) }
}

/// The views of the first `n` statements of `ss`.
pub open spec fn statements_view(ss: Seq<Statement>, n: int) -> Seq<SpecStatement>
    decreases ss, n,
{
    if n <= 0 || n > ss.len() {
        Seq::empty()
    } else {
        statements_view(ss, n - 1).push(statement_view(ss[n - 1]))
    }
}

pub open spec fn statement_view(s: Statement) -> SpecStatement
    decreases s, 0int,
{
    match s {
        Statement::NoOp => SpecStatement::NoOp,
        Statement::Comment(c) => SpecStatement::Comment(c@),
        Statement::Expr(e) => SpecStatement::Expr(expr_view(e)),
        Statement::Assignment(n, e) => SpecStatement::Assignment(n@, expr_view(e)),
        Statement::Field(n, t, d) => SpecStatement::Field(
            n@,
            type_expr_view(t),
            match d {
                Some(e) => Some(expr_view(e)),
                None => None,
            },
        ),
        Statement::Handler(h) => SpecStatement::Handler(handler_view(*h)),
        Statement::Expander(e) => SpecStatement::Expander(expr_view(e)),
    }
}

pub open spec fn expr_view(e: Expr) -> SpecExpr
    decreases e, 0int,
{
    match e {
        Expr::Value(v) => SpecExpr::Value(value_view(v)),
        Expr::Variable(n) => SpecExpr::Variable(n@),
        Expr::Binary(b) => SpecExpr::Binary(b.op, Box::new(expr_view(*b.left)), Box::new(expr_view(*b.right))),
        Expr::Call(c) => SpecExpr::Call(Box::new(expr_view(*c.target)), boxed_exprs_view(c.args@, c.args@.len() as int)),
        Expr::Block(b) => SpecExpr::Block(block_view(*b)),
        Expr::List(es) => SpecExpr::List(exprs_view(es@, es@.len() as int)),
    }
}

/// The views of the first `n` expressions of `es`.
pub open spec fn exprs_view(es: Seq<Expr>, n: int) -> Seq<SpecExpr>
    decreases es, n,
{
    if n <= 0 || n > es.len() {
        Seq::empty()
    } else {
        exprs_view(es, n - 1).push(expr_view(es[n - 1]))
    }
}

/// The views of the first `n` boxed expressions of `es`.
pub open spec fn boxed_exprs_view(es: Seq<Box<Expr>>, n: int) -> Seq<SpecExpr>
    decreases es, n,
{
    if n <= 0 || n > es.len() {
        Seq::empty()
    } else {
        boxed_exprs_view(es, n - 1).push(expr_view(*es[n - 1]))
    }
}

pub open spec fn type_expr_view(t: TypeExpr) -> SpecTypeExpr
    decreases t, 0int,
{
    match t {
        TypeExpr::Empty => SpecTypeExpr::Empty,
        TypeExpr::Type(vt) => SpecTypeExpr::Type(vt@),
        TypeExpr::Word(w) => SpecTypeExpr::Word(w@),
        TypeExpr::Hole(h) => SpecTypeExpr::Hole(h@),
        TypeExpr::TypeHole(h, vt) => SpecTypeExpr::TypeHole(h@, vt@),
        TypeExpr::BlockHole(h) => SpecTypeExpr::BlockHole(h@),
        TypeExpr::Value(v) => SpecTypeExpr::Value(value_view(v)),
        TypeExpr::Binary(n, op, v) => SpecTypeExpr::Binary(n@, op, value_view(v)),
    }
}

/// The views of the first `n` pattern terms of `ts`.
pub open spec fn type_exprs_view(ts: Seq<TypeExpr>, n: int) -> Seq<SpecTypeExpr>
    decreases ts, n,
{
    if n <= 0 || n > ts.len() {
        Seq::empty()
    } else {
        type_exprs_view(ts, n - 1).push(type_expr_view(ts[n - 1]))
    }
}

pub open spec fn handler_view(h: Handler) -> SpecHandler
    decreases h, 0int,
{
    SpecHandler {
        pattern: type_exprs_view(h.pattern.terms@, h.pattern.terms@.len() as int),
        block: block_view(h.block),
    }
}

impl View for EmbeddedBlock {
    type V = SpecEmbedded;

    open spec fn view(&self) -> SpecEmbedded {
        embedded_view(*self)
    }
}

impl View for Value {
    type V = SpecValue;

    open spec fn view(&self) -> SpecValue {
        value_view(*self)
    }
}

impl View for Expr {
    type V = SpecExpr;

    open spec fn view(&self) -> SpecExpr {
        expr_view(*self)
    }
}

impl View for Statement {
    type V = SpecStatement;

    open spec fn view(&self) -> SpecStatement {
        statement_view(*self)
    }
}

impl View for Block {
    type V = SpecBlock;

    open spec fn view(&self) -> SpecBlock {
        block_view(*self)
    }
}

impl View for TypeExpr {
    type V = SpecTypeExpr;

    open spec fn view(&self) -> SpecTypeExpr {
        type_expr_view(*self)
    }
}

impl View for Pattern {
    type V = Seq<SpecTypeExpr>;

    open spec fn view(&self) -> Seq<SpecTypeExpr> {
        type_exprs_view(self.terms@, self.terms@.len() as int)
    }
}

impl View for Handler {
    type V = SpecHandler;

    open spec fn view(&self) -> SpecHandler {
        handler_view(*self)
    }
}

/// The views of all the handlers of a vector.
pub open spec fn handlers_of(hs: Seq<Handler>) -> Seq<SpecHandler> {
    hs.map_values(|h: Handler| h@)
}

/// The views of all handlers of a vector, element by element.
pub proof fn lemma_handlers_of(hs: Seq<Handler>)
    ensures
        handlers_of(hs).len() == hs.len(),
        forall|j: int| 0 <= j < hs.len() ==> #[trigger] handlers_of(hs)[j] == hs[j]@,
{
}

/// The views of all the values of a vector.
pub open spec fn values_of(vs: Seq<Value>) -> Seq<SpecValue> {
    values_view(vs, vs.len() as int)
}

/// The views of all the statements of a vector.
pub open spec fn statements_of(ss: Seq<Statement>) -> Seq<SpecStatement> {
    statements_view(ss, ss.len() as int)
}

/// The views of all the expressions of a vector.
pub open spec fn exprs_of(es: Seq<Expr>) -> Seq<SpecExpr> {
    exprs_view(es, es.len() as int)
}

/// The views of all the boxed expressions of a vector.
pub open spec fn boxed_exprs_of(es: Seq<Box<Expr>>) -> Seq<SpecExpr> {
    boxed_exprs_view(es, es.len() as int)
}

/// The views of all the pattern terms of a vector.
pub open spec fn type_exprs_of(ts: Seq<TypeExpr>) -> Seq<SpecTypeExpr> {
    type_exprs_view(ts, ts.len() as int)
}

pub proof fn lemma_values_view(vs: Seq<Value>, n: int)
    requires
        0 <= n <= vs.len(),
    ensures
        values_view(vs, n).len() == n,
        forall|j: int| 0 <= j < n ==> #[trigger] values_view(vs, n)[j] == value_view(vs[j]),
    decreases n,
{
    if n > 0 {
        lemma_values_view(vs, n - 1);
    }
}

pub proof fn lemma_statements_view(ss: Seq<Statement>, n: int)
    requires
        0 <= n <= ss.len(),
    ensures
        statements_view(ss, n).len() == n,
        forall|j: int| 0 <= j < n ==> #[trigger] statements_view(ss, n)[j] == statement_view(ss[j]),
    decreases n,
{
    if n > 0 {
        lemma_statements_view(ss, n - 1);
    }
}

pub proof fn lemma_exprs_view(es: Seq<Expr>, n: int)
    requires
        0 <= n <= es.len(),
    ensures
        exprs_view(es, n).len() == n,
        forall|j: int| 0 <= j < n ==> #[trigger] exprs_view(es, n)[j] == expr_view(es[j]),
    decreases n,
{
    if n > 0 {
        lemma_exprs_view(es, n - 1);
    }
}

pub proof fn lemma_boxed_exprs_view(es: Seq<Box<Expr>>, n: int)
    requires
        0 <= n <= es.len(),
    ensures
        boxed_exprs_view(es, n).len() == n,
        forall|j: int| 0 <= j < n ==> #[trigger] boxed_exprs_view(es, n)[j] == expr_view(*es[j]),
    decreases n,
{
    if n > 0 {
        lemma_boxed_exprs_view(es, n - 1);
    }
}

pub proof fn lemma_type_exprs_view(ts: Seq<TypeExpr>, n: int)
    requires
        0 <= n <= ts.len(),
    ensures
        type_exprs_view(ts, n).len() == n,
        forall|j: int| 0 <= j < n ==> #[trigger] type_exprs_view(ts, n)[j] == type_expr_view(ts[j]),
    decreases n,
{
    if n > 0 {
        lemma_type_exprs_view(ts, n - 1);
    }
}

/// The views of all values of a vector, element by element.
pub proof fn lemma_values_of(vs: Seq<Value>)
    ensures
        values_of(vs).len() == vs.len(),
        forall|j: int| 0 <= j < vs.len() ==> #[trigger] values_of(vs)[j] == vs[j]@,
{
    lemma_values_view(vs, vs.len() as int);
}

/// The views of all statements of a vector, element by element.
pub proof fn lemma_statements_of(ss: Seq<Statement>)
    ensures
        statements_of(ss).len() == ss.len(),
        forall|j: int| 0 <= j < ss.len() ==> #[trigger] statements_of(ss)[j] == ss[j]@,
{
    lemma_statements_view(ss, ss.len() as int);
}

/// The views of all expressions of a vector, element by element.
pub proof fn lemma_exprs_of(es: Seq<Expr>)
    ensures
        exprs_of(es).len() == es.len(),
        forall|j: int| 0 <= j < es.len() ==> #[trigger] exprs_of(es)[j] == es[j]@,
{
    lemma_exprs_view(es, es.len() as int);
}

/// The views of all boxed expressions of a vector, element by element.
pub proof fn lemma_boxed_exprs_of(es: Seq<Box<Expr>>)
    ensures
        boxed_exprs_of(es).len() == es.len(),
        forall|j: int| 0 <= j < es.len() ==> #[trigger] boxed_exprs_of(es)[j] == (*es[j])@,
{
    lemma_boxed_exprs_view(es, es.len() as int);
}

/// The views of all pattern terms of a vector, element by element.
pub proof fn lemma_type_exprs_of(ts: Seq<TypeExpr>)
    ensures
        type_exprs_of(ts).len() == ts.len(),
        forall|j: int| 0 <= j < ts.len() ==> #[trigger] type_exprs_of(ts)[j] == ts[j]@,
{
    lemma_type_exprs_view(ts, ts.len() as int);
}

} // verus!
