//! The S-expression of every value, syntax tree and message.
use vstd::prelude::*;
use crate::ast::{Block, EmbeddedBlock, Expr, Handler, Pattern, SpecBlock, SpecEmbedded, SpecExpr, SpecHandler, SpecStatement, SpecTypeExpr, SpecValue, Statement, TypeExpr, Value, boxed_exprs_of, exprs_of, lemma_boxed_exprs_of, lemma_exprs_of, lemma_statements_of, lemma_type_exprs_of, lemma_values_of, statements_of, strings_view, type_exprs_of, values_of};
use crate::channel::{Channel, uuid_text};
use crate::error::runtime_error_text;
use crate::message::{Message, SpecMessage};
use crate::number::number_text;
use crate::operators::{BinaryOp, UnaryOp, comparison_text};
use crate::sexpr::{Sexpr, SpecSexpr, lemma_sexprs_of, sexprs_of};
use crate::text::{copy_string, nat_decimal, push_all, push_u64_decimal, text_of};
use crate::value_type::{SpecValueType, ValueType, value_type_text};

verus! {

broadcast use vstd::std_specs::vec::group_vec_axioms;

pub open spec fn atom(s: Seq<char>) -> SpecSexpr {
    SpecSexpr::Atom(s)
}

/// Text between double quotes.
pub open spec fn quoted(s: Seq<char>) -> Seq<char> {
    "\""@ + s + "\""@
}

/// The text of a boolean.
pub open spec fn bool_text(b: bool) -> Seq<char> {
    if b { "true"@ } else { "false"@ }
}

/// The first `n` bytes in decimal, separated by a comma and a space.
pub open spec fn bytes_list_text(bs: Seq<u8>, n: int) -> Seq<char>
    decreases n,
{
    if n <= 0 || n > bs.len() {
        Seq::empty()
    } else if n == 1 {
        nat_decimal(bs[0] as nat)
    } else {
        bytes_list_text(bs, n - 1) + ", "@ + nat_decimal(bs[n - 1] as nat)
    }
}

/// The debugging text of a byte vector: its bytes in decimal in brackets.
pub open spec fn bytes_text(bs: Seq<u8>) -> Seq<char> {
    "["@ + bytes_list_text(bs, bs.len() as int) + "]"@
}

/// The S-expression of a unary operator.
pub open spec fn unary_op_sexpr(op: UnaryOp) -> SpecSexpr {
    match op {
        UnaryOp::Neg => atom("negate"@),
        UnaryOp::Not => atom("not"@),
        UnaryOp::Inc => atom("add1"@),
        UnaryOp::Dec => atom("sub1"@),
    }
}

/// The S-expression of a binary operator.
pub open spec fn binary_op_sexpr(op: BinaryOp) -> SpecSexpr {
    match op {
        BinaryOp::Add => atom("+"@),
        BinaryOp::Sub => atom("-"@),
        BinaryOp::Mul => atom("*"@),
        BinaryOp::Div => atom("/"@),
        BinaryOp::Mod => atom("%"@),
        BinaryOp::And => atom("and"@),
        BinaryOp::Or => atom("or"@),
        BinaryOp::Eq => atom("=="@),
        BinaryOp::Ne => atom("!="@),
        BinaryOp::Access => atom("."@),
    }
}

/// The S-expression of a value type.
pub open spec fn value_type_sexpr(t: SpecValueType) -> SpecSexpr {
    match t {
        SpecValueType::User(n) => SpecSexpr::List(seq![atom("user"@), atom(n)]),
        _ => atom(value_type_text(t)),
    }
}

/// The S-expression of a channel.
pub open spec fn channel_sexpr(c: Channel) -> SpecSexpr {
    SpecSexpr::List(seq![atom("channel"@), atom(uuid_text(c.id))])
}

/// The S-expression of an embedded block; its text is elided.
pub open spec fn embedded_sexpr(e: SpecEmbedded) -> SpecSexpr {
    SpecSexpr::List(seq![
        atom("embedded-block"@),
        SpecSexpr::List(seq![atom("tags"@)] + e.tags.map_values(|t: Seq<char>| atom(t))),
        SpecSexpr::List(seq![atom("text"@), atom("..."@)]),
    ])
}

pub open spec fn value_sexpr(v: SpecValue) -> SpecSexpr
    decreases v, 0int,
{
    match v {
        SpecValue::Empty => SpecSexpr::List(seq![atom("empty"@)]),
        SpecValue::Error(e) => SpecSexpr::List(seq![atom("error"@), atom(runtime_error_text(e))]),
        SpecValue::Channel(c) => channel_sexpr(c),
        SpecValue::Boolean(b) => SpecSexpr::List(seq![atom("bool"@), atom(bool_text(b))]),
        SpecValue::Word(w) => atom(w),
        SpecValue::String(s) => atom(quoted(s)),
        SpecValue::Number(n) => SpecSexpr::List(seq![atom("number"@), atom(number_text(n))]),
        SpecValue::List(items) => SpecSexpr::List(seq![atom("list"@)] + values_sexprs(items, items.len() as int)),
        SpecValue::Block(b) => SpecSexpr::List(seq![atom("block"@), block_sexpr(b)]),
        SpecValue::Bytes(bs) => SpecSexpr::List(seq![atom("bytes"@), atom(bytes_text(bs))]),
        SpecValue::Embedded(e) => embedded_sexpr(e),
    }
}

/// The S-expressions of the first `n` values.
pub open spec fn values_sexprs(vs: Seq<SpecValue>, n: int) -> Seq<SpecSexpr>
    decreases vs, n,
{
    if n <= 0 || n > vs.len() {
        Seq::empty()
    } else {
        values_sexprs(vs, n - 1).push(value_sexpr(vs[n - 1]))
    }
}

pub open spec fn block_sexpr(b: SpecBlock) -> SpecSexpr
    decreases b, 0int,
{
    SpecSexpr::List(statements_sexprs(b.statements, b.statements.len() as int))
}

/// The S-expressions of the first `n` statements.
pub open spec fn statements_sexprs(ss: Seq<SpecStatement>, n: int) -> Seq<SpecSexpr>
    decreases ss, n,
{
    if n <= 0 || n > ss.len() {
        Seq::empty()
    } else {
        statements_sexprs(ss, n - 1).push(statement_sexpr(ss[n - 1]))
    }
}

pub open spec fn statement_sexpr(s: SpecStatement) -> SpecSexpr
    decreases s, 0int,
{
    match s {
        SpecStatement::NoOp => SpecSexpr::List(seq![atom("noop"@)]),
        SpecStatement::Comment(t) => SpecSexpr::List(seq![atom("comment"@), atom(quoted(t))]),
        SpecStatement::Expr(e) => expr_sexpr(e),
        SpecStatement::Assignment(n, e) => SpecSexpr::List(seq![atom("assign"@), atom(n), expr_sexpr(e)]),
        SpecStatement::Field(n, t, d) => {
            let head = seq![atom("field"@), atom(n), SpecSexpr::List(seq![atom("type"@), type_expr_sexpr(t)])];
            match d {
                Some(e) => SpecSexpr::List(head.push(SpecSexpr::List(seq![atom("default"@), expr_sexpr(e)]))),
                None => SpecSexpr::List(head),
            }
        },
        SpecStatement::Handler(h) => handler_sexpr(h),
        SpecStatement::Expander(e) => SpecSexpr::List(seq![atom("expand"@), expr_sexpr(e)]),
    }
}

pub open spec fn expr_sexpr(e: SpecExpr) -> SpecSexpr
    decreases e, 0int,
{
    match e {
        SpecExpr::Value(v) => value_sexpr(v),
        SpecExpr::Variable(n) => atom(n),
        SpecExpr::Binary(op, l, r) => SpecSexpr::List(seq![binary_op_sexpr(op), expr_sexpr(*l), expr_sexpr(*r)]),
        SpecExpr::Call(t, args) => SpecSexpr::List(seq![atom("call"@), expr_sexpr(*t)] + exprs_sexprs(args, args.len() as int)),
        SpecExpr::Block(b) => block_sexpr(b),
        SpecExpr::List(items) => SpecSexpr::List(seq![atom("list"@)] + exprs_sexprs(items, items.len() as int)),
    }
}

/// The S-expressions of the first `n` expressions.
pub open spec fn exprs_sexprs(es: Seq<SpecExpr>, n: int) -> Seq<SpecSexpr>
    decreases es, n,
{
    if n <= 0 || n > es.len() {
        Seq::empty()
    } else {
        exprs_sexprs(es, n - 1).push(expr_sexpr(es[n - 1]))
    }
}

pub open spec fn type_expr_sexpr(t: SpecTypeExpr) -> SpecSexpr
    decreases t, 0int,
{
    match t {
        SpecTypeExpr::Empty => SpecSexpr::List(seq![atom("empty"@)]),
        SpecTypeExpr::Type(vt) => SpecSexpr::List(seq![atom("type"@), atom(value_type_text(vt))]),
        SpecTypeExpr::Word(w) => SpecSexpr::List(seq![atom("word"@), atom(w)]),
        SpecTypeExpr::Value(v) => value_sexpr(v),
        SpecTypeExpr::Hole(h) => SpecSexpr::List(seq![atom("hole"@), atom(h)]),
        SpecTypeExpr::BlockHole(h) => SpecSexpr::List(seq![atom("block-hole"@), atom(h)]),
        SpecTypeExpr::TypeHole(n, vt) => SpecSexpr::List(seq![atom("type-hole"@), atom(n), value_type_sexpr(vt)]),
        SpecTypeExpr::Binary(n, op, v) => SpecSexpr::List(seq![atom("predicate-hole"@), atom(n), atom(comparison_text(op)), value_sexpr(v)]),
    }
}

/// The S-expressions of the first `n` pattern terms.
pub open spec fn type_exprs_sexprs(ts: Seq<SpecTypeExpr>, n: int) -> Seq<SpecSexpr>
    decreases ts, n,
{
    if n <= 0 || n > ts.len() {
        Seq::empty()
    } else {
        type_exprs_sexprs(ts, n - 1).push(type_expr_sexpr(ts[n - 1]))
    }
}

/// The S-expression of a pattern.
pub open spec fn pattern_sexpr(p: Seq<SpecTypeExpr>) -> SpecSexpr {
    SpecSexpr::List(seq![atom("pattern"@)] + type_exprs_sexprs(p, p.len() as int))
}

pub open spec fn handler_sexpr(h: SpecHandler) -> SpecSexpr
    decreases h, 0int,
{
    SpecSexpr::List(seq![
        atom("handler"@),
        SpecSexpr::List(seq![atom("pattern"@)] + type_exprs_sexprs(h.pattern, h.pattern.len() as int)),
        block_sexpr(h.block),
    ])
}

/// The S-expression of a message: its terms, then the reply channel if any.
pub open spec fn message_sexpr(m: SpecMessage) -> SpecSexpr {
    let items = values_sexprs(m.terms, m.terms.len() as int);
    match m.reply_to {
        Some(c) => SpecSexpr::List(items.push(SpecSexpr::List(seq![atom("reply-to"@), channel_sexpr(c)]))),
        None => SpecSexpr::List(items),
    }
}

/// The S-expression of a call target with its arguments.
pub open spec fn call_sexpr(target: SpecValue, args: Seq<SpecValue>) -> SpecSexpr {
    SpecSexpr::List(seq![value_sexpr(target)] + values_sexprs(args, args.len() as int))
}

pub proof fn lemma_values_sexprs(vs: Seq<SpecValue>, n: int)
    requires
        0 <= n <= vs.len(),
    ensures
        values_sexprs(vs, n).len() == n,
        forall|j: int| 0 <= j < n ==> #[trigger] values_sexprs(vs, n)[j] == value_sexpr(vs[j]),
    decreases n,
{
    if n > 0 {
        lemma_values_sexprs(vs, n - 1);
    }
}

pub proof fn lemma_statements_sexprs(ss: Seq<SpecStatement>, n: int)
    requires
        0 <= n <= ss.len(),
    ensures
        statements_sexprs(ss, n).len() == n,
        forall|j: int| 0 <= j < n ==> #[trigger] statements_sexprs(ss, n)[j] == statement_sexpr(ss[j]),
    decreases n,
{
    if n > 0 {
        lemma_statements_sexprs(ss, n - 1);
    }
}

pub proof fn lemma_exprs_sexprs(es: Seq<SpecExpr>, n: int)
    requires
        0 <= n <= es.len(),
    ensures
        exprs_sexprs(es, n).len() == n,
        forall|j: int| 0 <= j < n ==> #[trigger] exprs_sexprs(es, n)[j] == expr_sexpr(es[j]),
    decreases n,
{
    if n > 0 {
        lemma_exprs_sexprs(es, n - 1);
    }
}

pub proof fn lemma_type_exprs_sexprs(ts: Seq<SpecTypeExpr>, n: int)
    requires
        0 <= n <= ts.len(),
    ensures
        type_exprs_sexprs(ts, n).len() == n,
        forall|j: int| 0 <= j < n ==> #[trigger] type_exprs_sexprs(ts, n)[j] == type_expr_sexpr(ts[j]),
    decreases n,
{
    if n > 0 {
        lemma_type_exprs_sexprs(ts, n - 1);
    }
}

fn atom_of(s: &str) -> (r: Sexpr)
    ensures
        r@ == atom(s@),
{
    Sexpr::Atom(text_of(s))
}

fn list1(a: Sexpr) -> (r: Sexpr)
    ensures
        r@ == SpecSexpr::List(seq![a@]),
{
    let mut v: Vec<Sexpr> = Vec::new();
    v.push(a);
    proof {
        lemma_sexprs_of(v@);
        assert(sexprs_of(v@) =~= seq![a@]);
    }
    Sexpr::List(v)
}

fn list2(a: Sexpr, b: Sexpr) -> (r: Sexpr)
    ensures
        r@ == SpecSexpr::List(seq![a@, b@]),
{
    let mut v: Vec<Sexpr> = Vec::new();
    v.push(a);
    v.push(b);
    proof {
        lemma_sexprs_of(v@);
        assert(sexprs_of(v@) =~= seq![a@, b@]);
    }
    Sexpr::List(v)
}

fn list3(a: Sexpr, b: Sexpr, c: Sexpr) -> (r: Sexpr)
    ensures
        r@ == SpecSexpr::List(seq![a@, b@, c@]),
{
    let mut v: Vec<Sexpr> = Vec::new();
    v.push(a);
    v.push(b);
    v.push(c);
    proof {
        lemma_sexprs_of(v@);
        assert(sexprs_of(v@) =~= seq![a@, b@, c@]);
    }
    Sexpr::List(v)
}

fn list4(a: Sexpr, b: Sexpr, c: Sexpr, d: Sexpr) -> (r: Sexpr)
    ensures
        r@ == SpecSexpr::List(seq![a@, b@, c@, d@]),
{
    let mut v: Vec<Sexpr> = Vec::new();
    v.push(a);
    v.push(b);
    v.push(c);
    v.push(d);
    proof {
        lemma_sexprs_of(v@);
        assert(sexprs_of(v@) =~= seq![a@, b@, c@, d@]);
    }
    Sexpr::List(v)
}

proof fn lemma_no_sexprs()
    ensures
        sexprs_of(Seq::<Sexpr>::empty()) == Seq::<SpecSexpr>::empty(),
{
    lemma_sexprs_of(Seq::<Sexpr>::empty());
    assert(sexprs_of(Seq::<Sexpr>::empty()) =~= Seq::<SpecSexpr>::empty());
}

/// Appends one S-expression to a list under construction.
fn push_sexpr(out: &mut Vec<Sexpr>, s: Sexpr)
    ensures
        sexprs_of(final(out)@) == sexprs_of(old(out)@).push(s@),
{
    let ghost before = out@;
    out.push(s);
    proof {
        lemma_sexprs_of(before);
        lemma_sexprs_of(out@);
        assert(sexprs_of(out@) =~= sexprs_of(before).push(s@));
    }
}

/// The text of a boolean.
pub fn bool_to_text(b: bool) -> (r: String)
    ensures
        r@ == bool_text(b),
{
    if b { text_of("true") } else { text_of("false") }
}

/// The debugging text of a byte vector.
pub fn bytes_to_text(bs: &Vec<u8>) -> (r: String)
    ensures
        r@ == bytes_text(bs@),
{
    let mut out = text_of("[");
    let mut i: usize = 0;
    while i < bs.len()
        invariant
            i <= bs@.len(),
            out@ == "["@ + bytes_list_text(bs@, i as int),
        decreases bs@.len() - i,
    {
        if i > 0 {
            push_all(&mut out, ", ");
        }
        push_u64_decimal(&mut out, bs[i] as u64);
        i += 1;
        assert(out@ =~= "["@ + bytes_list_text(bs@, i as int));
    }
    push_all(&mut out, "]");
    out
}

impl Channel {
    /// The S-expression of the channel.
    pub fn to_sexpr(&self) -> (r: Sexpr)
        ensures
            r@ == channel_sexpr(*self),
    {
        list2(atom_of("channel"), Sexpr::Atom(self.uuid_text()))
    }
}

impl ValueType {
    /// The S-expression of the type.
    pub fn to_sexpr(&self) -> (r: Sexpr)
        ensures
            r@ == value_type_sexpr(self@),
    {
        match self {
            ValueType::User(n) => list2(atom_of("user"), Sexpr::Atom(copy_string(n))),
            _ => Sexpr::Atom(self.to_text()),
        }
    }
}

impl UnaryOp {
    /// The S-expression of the operator.
    pub fn to_sexpr(&self) -> (r: Sexpr)
        ensures
            r@ == unary_op_sexpr(*self),
    {
        match self {
            UnaryOp::Neg => atom_of("negate"),
            UnaryOp::Not => atom_of("not"),
            UnaryOp::Inc => atom_of("add1"),
            UnaryOp::Dec => atom_of("sub1"),
        }
    }
}

impl BinaryOp {
    /// The S-expression of the operator.
    pub fn to_sexpr(&self) -> (r: Sexpr)
        ensures
            r@ == binary_op_sexpr(*self),
    {
        match self {
            BinaryOp::Add => atom_of("+"),
            BinaryOp::Sub => atom_of("-"),
            BinaryOp::Mul => atom_of("*"),
            BinaryOp::Div => atom_of("/"),
            BinaryOp::Mod => atom_of("%"),
            BinaryOp::And => atom_of("and"),
            BinaryOp::Or => atom_of("or"),
            BinaryOp::Eq => atom_of("=="),
            BinaryOp::Ne => atom_of("!="),
            BinaryOp::Access => atom_of("."),
        }
    }
}

fn quoted_atom(s: &String) -> (r: Sexpr)
    ensures
        r@ == atom(quoted(s@)),
{
    let mut t = text_of("\"");
    push_all(&mut t, s.as_str());
    push_all(&mut t, "\"");
    Sexpr::Atom(t)
}

impl EmbeddedBlock {
    /// The S-expression of the block; its text is elided.
    pub fn to_sexpr(&self) -> (r: Sexpr)
        ensures
            r@ == embedded_sexpr(self@),
    {
        let mut tags: Vec<Sexpr> = Vec::new();
        push_sexpr(&mut tags, atom_of("tags"));
        let mut i: usize = 0;
        while i < self.tags.len()
            invariant
                i <= self.tags@.len(),
                sexprs_of(tags@) == seq![atom("tags"@)] + strings_view(self.tags@).subrange(0, i as int).map_values(|t: Seq<char>| atom(t)),
            decreases self.tags@.len() - i,
        {
            push_sexpr(&mut tags, Sexpr::Atom(copy_string(&self.tags[i])));
            i += 1;
            assert(sexprs_of(tags@) =~= seq![atom("tags"@)] + strings_view(self.tags@).subrange(0, i as int).map_values(|t: Seq<char>| atom(t)));
        }
        assert(strings_view(self.tags@).subrange(0, i as int) =~= strings_view(self.tags@));
        list3(atom_of("embedded-block"), Sexpr::List(tags), list2(atom_of("text"), atom_of("...")))
    }
}

/// Appends the S-expressions of the given values.
fn push_values_sexprs(out: &mut Vec<Sexpr>, vs: &Vec<Value>)
    ensures
        sexprs_of(final(out)@) == sexprs_of(old(out)@) + values_sexprs(values_of(vs@), values_of(vs@).len() as int),
    decreases *vs,
{
    proof {
        lemma_values_of(vs@);
        lemma_values_sexprs(values_of(vs@), vs@.len() as int);
    }
    let mut i: usize = 0;
    while i < vs.len()
        invariant
            i <= vs@.len(),
            values_of(vs@).len() == vs@.len(),
            forall|j: int| 0 <= j < vs@.len() ==> #[trigger] values_of(vs@)[j] == vs@[j]@,
            sexprs_of(out@) == sexprs_of(old(out)@) + values_sexprs(values_of(vs@), i as int),
        decreases vs@.len() - i,
    {
        let s = value_to_sexpr(&vs[i]);
        push_sexpr(out, s);
        i += 1;
    }
}

/// The S-expression of a value.
pub fn value_to_sexpr(v: &Value) -> (r: Sexpr)
    ensures
        r@ == value_sexpr(v@),
    decreases *v,
{
    match v {
        Value::Empty => list1(atom_of("empty")),
        Value::Error(e) => list2(atom_of("error"), Sexpr::Atom(e.to_text())),
        Value::Channel(c) => c.to_sexpr(),
        Value::Boolean(b) => list2(atom_of("bool"), Sexpr::Atom(bool_to_text(*b))),
        Value::Word(w) => Sexpr::Atom(copy_string(w)),
        Value::String(s) => quoted_atom(s),
        Value::Number(n) => list2(atom_of("number"), Sexpr::Atom(n.to_text())),
        Value::List(items) => {
            proof {
                lemma_no_sexprs();
                lemma_values_of(items@);
            }
            let mut out: Vec<Sexpr> = Vec::new();
            push_sexpr(&mut out, atom_of("list"));
            push_values_sexprs(&mut out, items);
            assert(sexprs_of(out@) =~= seq![atom("list"@)] + values_sexprs(values_of(items@), values_of(items@).len() as int));
            Sexpr::List(out)
        },
        Value::Block(b) => list2(atom_of("block"), block_to_sexpr(b)),
        Value::Bytes(bs) => list2(atom_of("bytes"), Sexpr::Atom(bytes_to_text(bs))),
        Value::Embedded(e) => e.to_sexpr(),
    }
}

/// Appends the S-expressions of the given statements.
fn push_statements_sexprs(out: &mut Vec<Sexpr>, ss: &Vec<Statement>)
    ensures
        sexprs_of(final(out)@) == sexprs_of(old(out)@) + statements_sexprs(statements_of(ss@), statements_of(ss@).len() as int),
    decreases *ss,
{
    proof {
        lemma_statements_of(ss@);
        lemma_statements_sexprs(statements_of(ss@), ss@.len() as int);
    }
    let mut i: usize = 0;
    while i < ss.len()
        invariant
            i <= ss@.len(),
            statements_of(ss@).len() == ss@.len(),
            forall|j: int| 0 <= j < ss@.len() ==> #[trigger] statements_of(ss@)[j] == ss@[j]@,
            sexprs_of(out@) == sexprs_of(old(out)@) + statements_sexprs(statements_of(ss@), i as int),
        decreases ss@.len() - i,
    {
        let s = statement_to_sexpr(&ss[i]);
        push_sexpr(out, s);
        i += 1;
    }
}

/// The S-expression of a block.
pub fn block_to_sexpr(b: &Block) -> (r: Sexpr)
    ensures
        r@ == block_sexpr(b@),
    decreases *b,
{
    let mut out: Vec<Sexpr> = Vec::new();
    push_statements_sexprs(&mut out, &b.statements);
    proof {
        lemma_no_sexprs();
        assert(sexprs_of(out@) =~= statements_sexprs(statements_of(b.statements@), statements_of(b.statements@).len() as int));
    }
    Sexpr::List(out)
}

/// The S-expression of a field declaration, from those of its parts.
fn field_to_sexpr(n: &String, type_part: Sexpr, default_part: Option<Sexpr>) -> (r: Sexpr)
    ensures
        r@ == ({
            let head = seq![atom("field"@), atom(n@), SpecSexpr::List(seq![atom("type"@), type_part@])];
            match default_part {
                Some(d) => SpecSexpr::List(head.push(SpecSexpr::List(seq![atom("default"@), d@]))),
                None => SpecSexpr::List(head),
            }
        }),
{
    proof {
        lemma_no_sexprs();
    }
    let ghost head = seq![atom("field"@), atom(n@), SpecSexpr::List(seq![atom("type"@), type_part@])];
    let ghost dv = if default_part is Some { Some(default_part->0@) } else { None };
    let mut out: Vec<Sexpr> = Vec::new();
    push_sexpr(&mut out, atom_of("field"));
    push_sexpr(&mut out, Sexpr::Atom(copy_string(n)));
    push_sexpr(&mut out, list2(atom_of("type"), type_part));
    match default_part {
        Some(d) => {
            push_sexpr(&mut out, list2(atom_of("default"), d));
        },
        None => {},
    }
    proof {
        match dv {
            Some(d) => assert(sexprs_of(out@) =~= head.push(SpecSexpr::List(seq![atom("default"@), d]))),
            None => assert(sexprs_of(out@) =~= head),
        }
    }
    Sexpr::List(out)
}

/// The S-expression of a statement.
pub fn statement_to_sexpr(s: &Statement) -> (r: Sexpr)
    ensures
        r@ == statement_sexpr(s@),
    decreases *s,
{
    match s {
        Statement::NoOp => list1(atom_of("noop")),
        Statement::Comment(t) => list2(atom_of("comment"), quoted_atom(t)),
        Statement::Expr(e) => expr_to_sexpr(e),
        Statement::Assignment(n, e) => list3(atom_of("assign"), Sexpr::Atom(copy_string(n)), expr_to_sexpr(e)),
        Statement::Field(n, t, d) => {
            let type_part = type_expr_to_sexpr(t);
            let default_part = match d {
                Some(e) => Some(expr_to_sexpr(e)),
                None => None,
            };
            field_to_sexpr(n, type_part, default_part)
        },
        Statement::Handler(h) => handler_to_sexpr(h),
        Statement::Expander(e) => list2(atom_of("expand"), expr_to_sexpr(e)),
    }
}

/// Appends the S-expressions of the given expressions.
fn push_exprs_sexprs(out: &mut Vec<Sexpr>, es: &Vec<Expr>)
    ensures
        sexprs_of(final(out)@) == sexprs_of(old(out)@) + exprs_sexprs(exprs_of(es@), exprs_of(es@).len() as int),
    decreases *es,
{
    proof {
        lemma_exprs_of(es@);
        lemma_exprs_sexprs(exprs_of(es@), es@.len() as int);
    }
    let mut i: usize = 0;
    while i < es.len()
        invariant
            i <= es@.len(),
            exprs_of(es@).len() == es@.len(),
            forall|j: int| 0 <= j < es@.len() ==> #[trigger] exprs_of(es@)[j] == es@[j]@,
            sexprs_of(out@) == sexprs_of(old(out)@) + exprs_sexprs(exprs_of(es@), i as int),
        decreases es@.len() - i,
    {
        let s = expr_to_sexpr(&es[i]);
        push_sexpr(out, s);
        i += 1;
    }
}

/// Appends the S-expressions of the given boxed expressions.
fn push_boxed_exprs_sexprs(out: &mut Vec<Sexpr>, es: &Vec<Box<Expr>>)
    ensures
        sexprs_of(final(out)@) == sexprs_of(old(out)@) + exprs_sexprs(boxed_exprs_of(es@), boxed_exprs_of(es@).len() as int),
    decreases *es,
{
    proof {
        lemma_boxed_exprs_of(es@);
        lemma_exprs_sexprs(boxed_exprs_of(es@), es@.len() as int);
    }
    let mut i: usize = 0;
    while i < es.len()
        invariant
            i <= es@.len(),
            boxed_exprs_of(es@).len() == es@.len(),
            forall|j: int| 0 <= j < es@.len() ==> #[trigger] boxed_exprs_of(es@)[j] == (*es@[j])@,
            sexprs_of(out@) == sexprs_of(old(out)@) + exprs_sexprs(boxed_exprs_of(es@), i as int),
        decreases es@.len() - i,
    {
        let e: &Expr = &es[i];
        let s = expr_to_sexpr(e);
        push_sexpr(out, s);
        i += 1;
    }
}

/// The S-expression of an expression.
pub fn expr_to_sexpr(e: &Expr) -> (r: Sexpr)
    ensures
        r@ == expr_sexpr(e@),
    decreases *e,
{
    match e {
        Expr::Value(v) => value_to_sexpr(v),
        Expr::Variable(n) => Sexpr::Atom(copy_string(n)),
        Expr::Binary(b) => list3(b.op.to_sexpr(), expr_to_sexpr(&b.left), expr_to_sexpr(&b.right)),
        Expr::Call(c) => {
            let mut out: Vec<Sexpr> = Vec::new();
            push_sexpr(&mut out, atom_of("call"));
            push_sexpr(&mut out, expr_to_sexpr(&c.target));
            push_boxed_exprs_sexprs(&mut out, &c.args);
            proof {
                lemma_no_sexprs();
                lemma_boxed_exprs_of(c.args@);
                assert(sexprs_of(out@) =~= seq![atom("call"@), expr_sexpr((*c.target)@)] + exprs_sexprs(boxed_exprs_of(c.args@), boxed_exprs_of(c.args@).len() as int));
            }
            Sexpr::List(out)
        },
        Expr::Block(b) => block_to_sexpr(b),
        Expr::List(items) => {
            let mut out: Vec<Sexpr> = Vec::new();
            push_sexpr(&mut out, atom_of("list"));
            push_exprs_sexprs(&mut out, items);
            proof {
                lemma_no_sexprs();
                assert(sexprs_of(out@) =~= seq![atom("list"@)] + exprs_sexprs(exprs_of(items@), exprs_of(items@).len() as int));
            }
            Sexpr::List(out)
        },
    }
}

/// The S-expression of a pattern term.
pub fn type_expr_to_sexpr(t: &TypeExpr) -> (r: Sexpr)
    ensures
        r@ == type_expr_sexpr(t@),
    decreases *t,
{
    match t {
        TypeExpr::Empty => list1(atom_of("empty")),
        TypeExpr::Type(vt) => list2(atom_of("type"), Sexpr::Atom(vt.to_text())),
        TypeExpr::Word(w) => list2(atom_of("word"), Sexpr::Atom(copy_string(w))),
        TypeExpr::Value(v) => value_to_sexpr(v),
        TypeExpr::Hole(h) => list2(atom_of("hole"), Sexpr::Atom(copy_string(h))),
        TypeExpr::BlockHole(h) => list2(atom_of("block-hole"), Sexpr::Atom(copy_string(h))),
        TypeExpr::TypeHole(n, vt) => list3(atom_of("type-hole"), Sexpr::Atom(copy_string(n)), vt.to_sexpr()),
        TypeExpr::Binary(n, op, v) => list4(atom_of("predicate-hole"), Sexpr::Atom(copy_string(n)), Sexpr::Atom(op.to_text()), value_to_sexpr(v)),
    }
}

/// Appends the S-expressions of the given pattern terms.
fn push_type_exprs_sexprs(out: &mut Vec<Sexpr>, ts: &Vec<TypeExpr>)
    ensures
        sexprs_of(final(out)@) == sexprs_of(old(out)@) + type_exprs_sexprs(type_exprs_of(ts@), type_exprs_of(ts@).len() as int),
    decreases *ts,
{
    proof {
        lemma_type_exprs_of(ts@);
        lemma_type_exprs_sexprs(type_exprs_of(ts@), ts@.len() as int);
    }
    let mut i: usize = 0;
    while i < ts.len()
        invariant
            i <= ts@.len(),
            type_exprs_of(ts@).len() == ts@.len(),
            forall|j: int| 0 <= j < ts@.len() ==> #[trigger] type_exprs_of(ts@)[j] == ts@[j]@,
            sexprs_of(out@) == sexprs_of(old(out)@) + type_exprs_sexprs(type_exprs_of(ts@), i as int),
        decreases ts@.len() - i,
    {
        let s = type_expr_to_sexpr(&ts[i]);
        push_sexpr(out, s);
        i += 1;
    }
}

/// The S-expression of a pattern.
pub fn pattern_to_sexpr(p: &Pattern) -> (r: Sexpr)
    ensures
        r@ == pattern_sexpr(p@),
    decreases *p,
{
    let mut out: Vec<Sexpr> = Vec::new();
    push_sexpr(&mut out, atom_of("pattern"));
    push_type_exprs_sexprs(&mut out, &p.terms);
    proof {
        lemma_no_sexprs();
        assert(sexprs_of(out@) =~= seq![atom("pattern"@)] + type_exprs_sexprs(type_exprs_of(p.terms@), type_exprs_of(p.terms@).len() as int));
    }
    Sexpr::List(out)
}

/// The S-expression of a handler.
pub fn handler_to_sexpr(h: &Handler) -> (r: Sexpr)
    ensures
        r@ == handler_sexpr(h@),
    decreases *h,
{
    list3(atom_of("handler"), pattern_to_sexpr(&h.pattern), block_to_sexpr(&h.block))
}

/// The S-expression of a message.
pub fn message_to_sexpr(m: &Message) -> (r: Sexpr)
    ensures
        r@ == message_sexpr(m@),
{
    let mut out: Vec<Sexpr> = Vec::new();
    push_values_sexprs(&mut out, &m.terms);
    match m.reply_to {
        Some(c) => {
            push_sexpr(&mut out, list2(atom_of("reply-to"), c.to_sexpr()));
        },
        None => {},
    }
    proof {
        lemma_no_sexprs();
        assert(sexprs_of(out@) =~= message_sexpr(m@)->List_0);
    }
    Sexpr::List(out)
}

/// The S-expression of a call target with its arguments.
pub fn call_to_sexpr(target: &Value, args: &Vec<Value>) -> (r: Sexpr)
    ensures
        r@ == call_sexpr(target@, values_of(args@)),
{
    let mut out: Vec<Sexpr> = Vec::new();
    push_sexpr(&mut out, value_to_sexpr(target));
    push_values_sexprs(&mut out, args);
    proof {
        lemma_no_sexprs();
        assert(sexprs_of(out@) =~= seq![value_sexpr(target@)] + values_sexprs(values_of(args@), values_of(args@).len() as int));
    }
    Sexpr::List(out)
}

/// Conversion into an S-expression.
pub trait ToSexpr {
    spec fn spec_sexpr(&self) -> SpecSexpr;

    fn to_sexpr(&self) -> (r: Sexpr)
        ensures
            r@ == self.spec_sexpr(),
    ;
}

impl ToSexpr for Value {
    open spec fn spec_sexpr(&self) -> SpecSexpr {
        value_sexpr(self@)
    }

    fn to_sexpr(&self) -> (r: Sexpr) {
        value_to_sexpr(self)
    }
}

impl ToSexpr for Expr {
    open spec fn spec_sexpr(&self) -> SpecSexpr {
        expr_sexpr(self@)
    }

    fn to_sexpr(&self) -> (r: Sexpr) {
        expr_to_sexpr(self)
    }
}

impl ToSexpr for Statement {
    open spec fn spec_sexpr(&self) -> SpecSexpr {
        statement_sexpr(self@)
    }

    fn to_sexpr(&self) -> (r: Sexpr) {
        statement_to_sexpr(self)
    }
}

impl ToSexpr for Block {
    open spec fn spec_sexpr(&self) -> SpecSexpr {
        block_sexpr(self@)
    }

    fn to_sexpr(&self) -> (r: Sexpr) {
        block_to_sexpr(self)
    }
}

impl ToSexpr for Pattern {
    open spec fn spec_sexpr(&self) -> SpecSexpr {
        pattern_sexpr(self@)
    }

    fn to_sexpr(&self) -> (r: Sexpr) {
        pattern_to_sexpr(self)
    }
}

impl ToSexpr for Handler {
    open spec fn spec_sexpr(&self) -> SpecSexpr {
        handler_sexpr(self@)
    }

    fn to_sexpr(&self) -> (r: Sexpr) {
        handler_to_sexpr(self)
    }
}

impl ToSexpr for TypeExpr {
    open spec fn spec_sexpr(&self) -> SpecSexpr {
        type_expr_sexpr(self@)
    }

    fn to_sexpr(&self) -> (r: Sexpr) {
        type_expr_to_sexpr(self)
    }
}

impl ToSexpr for Message {
    open spec fn spec_sexpr(&self) -> SpecSexpr {
        message_sexpr(self@)
    }

    fn to_sexpr(&self) -> (r: Sexpr) {
        message_to_sexpr(self)
    }
}

/// The S-expression of a binary expression is a list of exactly three
/// items, in this order: the operator's atom, the S-expression of the
/// left operand, and that of the right operand. Every operator is an
/// atom.
pub proof fn lemma_binary_sexpr_order(op: BinaryOp, l: SpecExpr, r: SpecExpr)
    ensures
        expr_sexpr(SpecExpr::Binary(op, Box::new(l), Box::new(r))) matches SpecSexpr::List(items) && {
            &&& items.len() == 3
            &&& items[0] == binary_op_sexpr(op)
            &&& items[1] == expr_sexpr(l)
            &&& items[2] == expr_sexpr(r)
        },
        binary_op_sexpr(op) is Atom,
        binary_op_sexpr(BinaryOp::Sub) == SpecSexpr::Atom("-"@),
        binary_op_sexpr(BinaryOp::Div) == SpecSexpr::Atom("/"@),
{
    reveal_strlit("+");
    reveal_strlit("-");
    reveal_strlit("*");
    reveal_strlit("/");
    reveal_strlit("%");
    reveal_strlit("and");
    reveal_strlit("or");
    reveal_strlit("==");
    reveal_strlit("!=");
    reveal_strlit(".");
}

/// The S-expression of a call is the atom `call`, then the S-expression
/// of the target, then those of the arguments in their order.
pub proof fn lemma_call_sexpr_order(t: SpecExpr, args: Seq<SpecExpr>)
    ensures
        expr_sexpr(SpecExpr::Call(Box::new(t), args)) matches SpecSexpr::List(items) && {
            &&& items.len() == args.len() + 2
            &&& items[0] == SpecSexpr::Atom("call"@)
            &&& items[1] == expr_sexpr(t)
            &&& forall|i: int| 0 <= i < args.len() ==> #[trigger] items[i + 2] == expr_sexpr(args[i])
        },
{
    lemma_exprs_sexprs(args, args.len() as int);
}

} // verus!
