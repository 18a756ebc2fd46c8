//! Copying, comparing and classifying values and syntax trees; the
//! constructors and accessors of the syntax trees.
use vstd::prelude::*;
use crate::ast::{BinaryExpr, Block, CallExpr, EmbeddedBlock, Expr, Handler, Pattern, SpecExpr, SpecTypeExpr, SpecValue, Statement, TypeExpr, Value, boxed_exprs_of, exprs_of, lemma_boxed_exprs_of, lemma_exprs_of, lemma_statements_of, lemma_type_exprs_of, lemma_values_of, statements_of, strings_view, type_exprs_of, values_of};
use crate::channel::Channel;

use crate::number::Number;
use crate::operators::BinaryOp;
use crate::text::{copy_string, text_of};
use crate::value_type::{ValueType, SpecValueType};

verus! {

broadcast use vstd::std_specs::vec::group_vec_axioms;

/// Equality of values as the language defines it: values of the simple
/// kinds are equal when their contents are; lists, blocks, bytes and
/// embedded blocks are never equal to anything.
pub open spec fn spec_value_eq(a: SpecValue, b: SpecValue) -> bool {
    match (a, b) {
        (SpecValue::Empty, SpecValue::Empty) => true,
        (SpecValue::Error(x), SpecValue::Error(y)) => x == y,
        (SpecValue::Channel(x), SpecValue::Channel(y)) => x == y,
        (SpecValue::Boolean(x), SpecValue::Boolean(y)) => x == y,
        (SpecValue::Word(x), SpecValue::Word(y)) => x == y,
        (SpecValue::String(x), SpecValue::String(y)) => x == y,
        (SpecValue::Number(x), SpecValue::Number(y)) => x == y,
        _ => false,
    }
}

/// Equality of values is symmetric, and transitive; a value of a simple
/// kind equals itself, and two equal values are the same value.
pub proof fn lemma_value_eq_laws(a: SpecValue, b: SpecValue, c: SpecValue)
    ensures
        spec_value_eq(a, b) == spec_value_eq(b, a),
        spec_value_eq(a, b) && spec_value_eq(b, c) ==> spec_value_eq(a, c),
        spec_value_eq(a, b) ==> a == b,
        !(a is List || a is Block || a is Bytes || a is Embedded) ==> spec_value_eq(a, a),
{
}

/// The type of a value.
pub open spec fn spec_type_of(v: SpecValue) -> SpecValueType {
    match v {
        SpecValue::Empty => SpecValueType::Empty,
        SpecValue::Error(_) => SpecValueType::Error,
        SpecValue::Channel(_) => SpecValueType::Channel,
        SpecValue::Boolean(_) => SpecValueType::Boolean,
        SpecValue::Word(_) => SpecValueType::Word,
        SpecValue::String(_) => SpecValueType::String,
        SpecValue::Number(_) => SpecValueType::Number,
        SpecValue::List(_) => SpecValueType::List,
        SpecValue::Block(_) => SpecValueType::Block,
        SpecValue::Bytes(_) => SpecValueType::Bytes,
        SpecValue::Embedded(_) => SpecValueType::EmbeddedBlock,
    }
}

/// A copy of a vector of strings.
pub fn dup_strings(ss: &Vec<String>) -> (r: Vec<String>)
    ensures
        strings_view(r@) == strings_view(ss@),
{
    let mut out: Vec<String> = Vec::new();
    let mut i: usize = 0;
    while i < ss.len()
        invariant
            i <= ss@.len(),
            out@.len() == i,
            forall|j: int| 0 <= j < i ==> (#[trigger] out@[j])@ == ss@[j]@,
        decreases ss@.len() - i,
    {
        out.push(copy_string(&ss[i]));
        i += 1;
    }
    assert(strings_view(out@) =~= strings_view(ss@));
    out
}

/// A copy of a vector of bytes.
pub fn dup_bytes(bs: &Vec<u8>) -> (r: Vec<u8>)
    ensures
        r@ == bs@,
{
    let mut out: Vec<u8> = Vec::new();
    let mut i: usize = 0;
    while i < bs.len()
        invariant
            i <= bs@.len(),
            out@ == bs@.subrange(0, i as int),
        decreases bs@.len() - i,
    {
        out.push(bs[i]);
        i += 1;
        assert(out@ =~= bs@.subrange(0, i as int));
    }
    assert(bs@.subrange(0, bs@.len() as int) =~= bs@);
    out
}

/// Copies of all the values of a vector.
pub fn dup_values(vs: &Vec<Value>) -> (r: Vec<Value>)
    ensures
        values_of(r@) == values_of(vs@),
    decreases *vs,
{
    let mut out: Vec<Value> = Vec::new();
    let mut i: usize = 0;
    while i < vs.len()
        invariant
            i <= vs@.len(),
            out@.len() == i,
            forall|j: int| 0 <= j < i ==> (#[trigger] out@[j])@ == vs@[j]@,
        decreases vs@.len() - i,
    {
        out.push(vs[i].duplicate());
        i += 1;
    }
    proof {
        lemma_values_of(out@);
        lemma_values_of(vs@);
        assert(values_of(out@) =~= values_of(vs@));
    }
    out
}

/// Copies of all the statements of a vector.
pub fn dup_statements(ss: &Vec<Statement>) -> (r: Vec<Statement>)
    ensures
        statements_of(r@) == statements_of(ss@),
    decreases *ss,
{
    let mut out: Vec<Statement> = Vec::new();
    let mut i: usize = 0;
    while i < ss.len()
        invariant
            i <= ss@.len(),
            out@.len() == i,
            forall|j: int| 0 <= j < i ==> (#[trigger] out@[j])@ == ss@[j]@,
        decreases ss@.len() - i,
    {
        out.push(ss[i].duplicate());
        i += 1;
    }
    proof {
        lemma_statements_of(out@);
        lemma_statements_of(ss@);
        assert(statements_of(out@) =~= statements_of(ss@));
    }
    out
}

/// Copies of all the expressions of a vector.
pub fn dup_exprs(es: &Vec<Expr>) -> (r: Vec<Expr>)
    ensures
        exprs_of(r@) == exprs_of(es@),
    decreases *es,
{
    let mut out: Vec<Expr> = Vec::new();
    let mut i: usize = 0;
    while i < es.len()
        invariant
            i <= es@.len(),
            out@.len() == i,
            forall|j: int| 0 <= j < i ==> (#[trigger] out@[j])@ == es@[j]@,
        decreases es@.len() - i,
    {
        out.push(es[i].duplicate());
        i += 1;
    }
    proof {
        lemma_exprs_of(out@);
        lemma_exprs_of(es@);
        assert(exprs_of(out@) =~= exprs_of(es@));
    }
    out
}

/// Copies of all the boxed expressions of a vector.
pub fn dup_boxed_exprs(es: &Vec<Box<Expr>>) -> (r: Vec<Box<Expr>>)
    ensures
        boxed_exprs_of(r@) == boxed_exprs_of(es@),
    decreases *es,
{
    let mut out: Vec<Box<Expr>> = Vec::new();
    let mut i: usize = 0;
    while i < es.len()
        invariant
            i <= es@.len(),
            out@.len() == i,
            forall|j: int| 0 <= j < i ==> (*#[trigger] out@[j])@ == (*es@[j])@,
        decreases es@.len() - i,
    {
        let e: &Expr = &es[i];
        out.push(Box::new(e.duplicate()));
        i += 1;
    }
    proof {
        lemma_boxed_exprs_of(out@);
        lemma_boxed_exprs_of(es@);
        assert(boxed_exprs_of(out@) =~= boxed_exprs_of(es@));
    }
    out
}

/// Copies of all the terms of a vector.
pub fn dup_type_exprs(ts: &Vec<TypeExpr>) -> (r: Vec<TypeExpr>)
    ensures
        type_exprs_of(r@) == type_exprs_of(ts@),
    decreases *ts,
{
    let mut out: Vec<TypeExpr> = Vec::new();
    let mut i: usize = 0;
    while i < ts.len()
        invariant
            i <= ts@.len(),
            out@.len() == i,
            forall|j: int| 0 <= j < i ==> (#[trigger] out@[j])@ == ts@[j]@,
        decreases ts@.len() - i,
    {
        out.push(ts[i].duplicate());
        i += 1;
    }
    proof {
        lemma_type_exprs_of(out@);
        lemma_type_exprs_of(ts@);
        assert(type_exprs_of(out@) =~= type_exprs_of(ts@));
    }
    out
}

impl EmbeddedBlock {
    /// An embedded block with the given tags and text.
    pub fn new(tags: Vec<String>, text: String) -> (r: EmbeddedBlock)
        ensures
            r.tags@ == tags@,
            r.text@ == text@,
    {
        EmbeddedBlock { tags, text }
    }

    /// The tags of the block.
    pub fn tags(&self) -> (r: &Vec<String>)
        ensures
            r@ == self.tags@,
    {
        &self.tags
    }

    /// The text of the block.
    pub fn text(&self) -> (r: &String)
        ensures
            r@ == self.text@,
    {
        &self.text
    }

    /// Whether two embedded blocks are equal: the same tags, in the same
    /// order, and the same text.
    pub fn equals(&self, other: &EmbeddedBlock) -> (r: bool)
        ensures
            r == (self@ == other@),
            r == (self.tags@.len() == other.tags@.len()
                && (forall|i: int| 0 <= i < self.tags@.len() ==> #[trigger] self.tags@[i]@ == other.tags@[i]@)
                && self.text@ == other.text@),
    {
        if self.tags.len() != other.tags.len() {
            proof {
                assert(self@.tags.len() != other@.tags.len());
            }
            return false;
        }
        let mut i: usize = 0;
        while i < self.tags.len()
            invariant
                i <= self.tags@.len(),
                self.tags@.len() == other.tags@.len(),
                forall|j: int| 0 <= j < i ==> #[trigger] self.tags@[j]@ == other.tags@[j]@,
            decreases self.tags@.len() - i,
        {
            if self.tags[i] != other.tags[i] {
                proof {
                    assert(self@.tags[i as int] != other@.tags[i as int]);
                }
                return false;
            }
            i += 1;
        }
        proof {
            assert(self@.tags =~= other@.tags);
        }
        self.text == other.text
    }

    /// A copy of the block.
    pub fn duplicate(&self) -> (r: EmbeddedBlock)
        ensures
            r@ == self@,
    {
        EmbeddedBlock { tags: dup_strings(&self.tags), text: copy_string(&self.text) }
    }
}

impl Value {
    /// A copy of the value.
    pub fn duplicate(&self) -> (r: Value)
        ensures
            r@ == self@,
        decreases *self,
    {
        match self {
            Value::Empty => Value::Empty,
            Value::Error(e) => Value::Error(e.duplicate()),
            Value::Channel(c) => Value::Channel(*c),
            Value::Boolean(b) => Value::Boolean(*b),
            Value::Word(w) => Value::Word(copy_string(w)),
            Value::String(s) => Value::String(copy_string(s)),
            Value::Number(n) => Value::Number(*n),
            Value::List(vs) => Value::List(dup_values(vs)),
            Value::Block(b) => Value::Block(Box::new(b.duplicate())),
            Value::Bytes(bs) => Value::Bytes(dup_bytes(bs)),
            Value::Embedded(e) => Value::Embedded(e.duplicate()),
        }
    }

    /// Equality of values as the language defines it (see [`spec_value_eq`]).
    pub fn equals(&self, other: &Value) -> (r: bool)
        ensures
            r == spec_value_eq(self@, other@),
    {
        match (self, other) {
            (Value::Empty, Value::Empty) => true,
            (Value::Error(x), Value::Error(y)) => x.same(y),
            (Value::Channel(x), Value::Channel(y)) => x.id == y.id,
            (Value::Boolean(x), Value::Boolean(y)) => *x == *y,
            (Value::Word(x), Value::Word(y)) => *x == *y,
            (Value::String(x), Value::String(y)) => *x == *y,
            (Value::Number(x), Value::Number(y)) => *x == *y,
            _ => false,
        }
    }

    /// The type of the value.
    pub fn get_type(&self) -> (r: ValueType)
        ensures
            r@ == spec_type_of(self@),
    {
        match self {
            Value::Empty => ValueType::Empty,
            Value::Error(_) => ValueType::Error,
            Value::Channel(_) => ValueType::Channel,
            Value::Boolean(_) => ValueType::Boolean,
            Value::Word(_) => ValueType::Word,
            Value::String(_) => ValueType::String,
            Value::Number(_) => ValueType::Number,
            Value::List(_) => ValueType::List,
            Value::Block(_) => ValueType::Block,
            Value::Bytes(_) => ValueType::Bytes,
            Value::Embedded(_) => ValueType::EmbeddedBlock,
        }
    }

    /// The type of the value, as a pattern term.
    pub fn get_type_expr(&self) -> (r: TypeExpr)
        ensures
            r@ == SpecTypeExpr::Type(spec_type_of(self@)),
    {
        TypeExpr::Type(self.get_type())
    }

    pub fn is_empty(&self) -> (r: bool)
        ensures
            r == (self@ is Empty),
    {
        match self {
            Value::Empty => true,
            _ => false,
        }
    }

    pub fn is_error(&self) -> (r: bool)
        ensures
            r == (self@ is Error),
    {
        match self {
            Value::Error(_) => true,
            _ => false,
        }
    }

    pub fn is_channel(&self) -> (r: bool)
        ensures
            r == (self@ is Channel),
    {
        match self {
            Value::Channel(_) => true,
            _ => false,
        }
    }

    pub fn is_boolean(&self) -> (r: bool)
        ensures
            r == (self@ is Boolean),
    {
        match self {
            Value::Boolean(_) => true,
            _ => false,
        }
    }

    pub fn is_word(&self) -> (r: bool)
        ensures
            r == (self@ is Word),
    {
        match self {
            Value::Word(_) => true,
            _ => false,
        }
    }

    pub fn is_string(&self) -> (r: bool)
        ensures
            r == (self@ is String),
    {
        match self {
            Value::String(_) => true,
            _ => false,
        }
    }

    pub fn is_number(&self) -> (r: bool)
        ensures
            r == (self@ is Number),
    {
        match self {
            Value::Number(_) => true,
            _ => false,
        }
    }

    /// A word value with the given text.
    pub fn word(w: &str) -> (r: Value)
        ensures
            r@ == SpecValue::Word(w@),
    {
        Value::Word(text_of(w))
    }

    /// A string value with the given text.
    pub fn string(s: &str) -> (r: Value)
        ensures
            r@ == SpecValue::String(s@),
    {
        Value::String(text_of(s))
    }
}

impl BinaryExpr {
    pub fn new(left: Expr, op: BinaryOp, right: Expr) -> (r: BinaryExpr)
        ensures
            r.op == op,
            (*r.left)@ == left@,
            (*r.right)@ == right@,
    {
        BinaryExpr { left: Box::new(left), op, right: Box::new(right) }
    }

    pub fn left(&self) -> (r: &Expr)
        ensures
            r@ == (*self.left)@,
    {
        &self.left
    }

    pub fn operator(&self) -> (r: &BinaryOp)
        ensures
            *r == self.op,
    {
        &self.op
    }

    pub fn right(&self) -> (r: &Expr)
        ensures
            r@ == (*self.right)@,
    {
        &self.right
    }
}

impl CallExpr {
    pub fn new(target: Expr, args: Vec<Box<Expr>>) -> (r: CallExpr)
        ensures
            (*r.target)@ == target@,
            boxed_exprs_of(r.args@) == boxed_exprs_of(args@),
    {
        CallExpr { target: Box::new(target), args }
    }

    pub fn target(&self) -> (r: &Expr)
        ensures
            r@ == (*self.target)@,
    {
        &self.target
    }

    pub fn args(&self) -> (r: &Vec<Box<Expr>>)
        ensures
            r@ == self.args@,
    {
        &self.args
    }
}

impl Expr {
    /// A copy of the expression.
    pub fn duplicate(&self) -> (r: Expr)
        ensures
            r@ == self@,
        decreases *self,
    {
        match self {
            Expr::Value(v) => Expr::Value(v.duplicate()),
            Expr::Variable(n) => Expr::Variable(copy_string(n)),
            Expr::Binary(b) => Expr::Binary(BinaryExpr {
                op: b.op,
                left: Box::new(b.left.duplicate()),
                right: Box::new(b.right.duplicate()),
            }),
            Expr::Call(c) => Expr::Call(CallExpr {
                target: Box::new(c.target.duplicate()),
                args: dup_boxed_exprs(&c.args),
            }),
            Expr::Block(b) => Expr::Block(Box::new(b.duplicate())),
            Expr::List(es) => Expr::List(dup_exprs(es)),
        }
    }

    pub fn is_block(&self) -> (r: bool)
        ensures
            r == (self@ is Block),
    {
        match self {
            Expr::Block(_) => true,
            _ => false,
        }
    }

    pub fn is_value(&self) -> (r: bool)
        ensures
            r == (self@ is Value),
    {
        match self {
            Expr::Value(_) => true,
            _ => false,
        }
    }

    pub fn is_variable(&self) -> (r: bool)
        ensures
            r == (self@ is Variable),
    {
        match self {
            Expr::Variable(_) => true,
            _ => false,
        }
    }

    pub fn is_binary(&self) -> (r: bool)
        ensures
            r == (self@ is Binary),
    {
        match self {
            Expr::Binary(_) => true,
            _ => false,
        }
    }

    pub fn is_call(&self) -> (r: bool)
        ensures
            r == (self@ is Call),
    {
        match self {
            Expr::Call(_) => true,
            _ => false,
        }
    }

    /// Whether the expression is the empty value.
    pub fn is_empty(&self) -> (r: bool)
        ensures
            r == (self@ == SpecExpr::Value(SpecValue::Empty)),
    {
        match self {
            Expr::Value(v) => v.is_empty(),
            _ => false,
        }
    }
}

impl Statement {
    /// A copy of the statement.
    pub fn duplicate(&self) -> (r: Statement)
        ensures
            r@ == self@,
        decreases *self,
    {
        match self {
            Statement::NoOp => Statement::NoOp,
            Statement::Comment(c) => Statement::Comment(copy_string(c)),
            Statement::Expr(e) => Statement::Expr(e.duplicate()),
            Statement::Assignment(n, e) => Statement::Assignment(copy_string(n), e.duplicate()),
            Statement::Field(n, t, d) => {
                let d2 = match d {
                    Some(e) => Some(e.duplicate()),
                    None => None,
                };
                Statement::Field(copy_string(n), t.duplicate(), d2)
            },
            Statement::Handler(h) => Statement::Handler(Box::new(h.duplicate())),
            Statement::Expander(e) => Statement::Expander(e.duplicate()),
        }
    }

    pub fn is_no_op(&self) -> (r: bool)
        ensures
            r == (self@ is NoOp),
    {
        match self {
            Statement::NoOp => true,
            _ => false,
        }
    }

    pub fn is_comment(&self) -> (r: bool)
        ensures
            r == (self@ is Comment),
    {
        match self {
            Statement::Comment(_) => true,
            _ => false,
        }
    }

    pub fn is_expr(&self) -> (r: bool)
        ensures
            r == (self@ is Expr),
    {
        match self {
            Statement::Expr(_) => true,
            _ => false,
        }
    }

    pub fn is_assignment(&self) -> (r: bool)
        ensures
            r == (self@ is Assignment),
    {
        match self {
            Statement::Assignment(_, _) => true,
            _ => false,
        }
    }

    pub fn is_field(&self) -> (r: bool)
        ensures
            r == (self@ is Field),
    {
        match self {
            Statement::Field(_, _, _) => true,
            _ => false,
        }
    }

    pub fn is_handler(&self) -> (r: bool)
        ensures
            r == (self@ is Handler),
    {
        match self {
            Statement::Handler(_) => true,
            _ => false,
        }
    }
}

impl Block {
    pub fn new(statements: Vec<Statement>) -> (r: Block)
        ensures
            r.statements@ == statements@,
    {
        Block { statements }
    }

    pub fn statements(&self) -> (r: &Vec<Statement>)
        ensures
            r@ == self.statements@,
    {
        &self.statements
    }

    /// A copy of the block.
    pub fn duplicate(&self) -> (r: Block)
        ensures
            r@ == self@,
        decreases *self,
    {
        Block { statements: dup_statements(&self.statements) }
    }

    /// A block of copies of the given statements.
    pub fn from_statements(ss: &Vec<Statement>) -> (r: Block)
        ensures
            r@.statements == statements_of(ss@),
    {
        Block { statements: dup_statements(ss) }
    }
}

impl TypeExpr {
    /// A copy of the term.
    pub fn duplicate(&self) -> (r: TypeExpr)
        ensures
            r@ == self@,
        decreases *self,
    {
        match self {
            TypeExpr::Empty => TypeExpr::Empty,
            TypeExpr::Type(t) => TypeExpr::Type(t.duplicate()),
            TypeExpr::Word(w) => TypeExpr::Word(copy_string(w)),
            TypeExpr::Hole(h) => TypeExpr::Hole(copy_string(h)),
            TypeExpr::TypeHole(h, t) => TypeExpr::TypeHole(copy_string(h), t.duplicate()),
            TypeExpr::BlockHole(h) => TypeExpr::BlockHole(copy_string(h)),
            TypeExpr::Value(v) => TypeExpr::Value(v.duplicate()),
            TypeExpr::Binary(n, op, v) => TypeExpr::Binary(copy_string(n), *op, v.duplicate()),
        }
    }

    pub fn new_empty() -> (r: TypeExpr)
        ensures
            r@ == SpecTypeExpr::Empty,
    {
        TypeExpr::Empty
    }

    pub fn new_word(word: String) -> (r: TypeExpr)
        ensures
            r@ == SpecTypeExpr::Word(word@),
    {
        TypeExpr::Word(word)
    }

    pub fn new_hole(hole: String) -> (r: TypeExpr)
        ensures
            r@ == SpecTypeExpr::Hole(hole@),
    {
        TypeExpr::Hole(hole)
    }

    pub fn new_block_hole(block_hole: String) -> (r: TypeExpr)
        ensures
            r@ == SpecTypeExpr::BlockHole(block_hole@),
    {
        TypeExpr::BlockHole(block_hole)
    }

    pub fn new_value(value: Value) -> (r: TypeExpr)
        ensures
            r@ == SpecTypeExpr::Value(value@),
    {
        TypeExpr::Value(value)
    }
}

impl Pattern {
    pub fn new(terms: Vec<TypeExpr>) -> (r: Pattern)
        ensures
            r.terms@ == terms@,
    {
        Pattern { terms }
    }

    pub fn terms(&self) -> (r: &Vec<TypeExpr>)
        ensures
            r@ == self.terms@,
    {
        &self.terms
    }

    /// A copy of the pattern.
    pub fn duplicate(&self) -> (r: Pattern)
        ensures
            r@ == self@,
        decreases *self,
    {
        Pattern { terms: dup_type_exprs(&self.terms) }
    }
}

impl Handler {
    pub fn new(pattern: Pattern, block: Block) -> (r: Handler)
        ensures
            r.pattern.terms@ == pattern.terms@,
            r.block.statements@ == block.statements@,
    {
        Handler { pattern, block }
    }

    pub fn pattern(&self) -> (r: &Pattern)
        ensures
            r.terms@ == self.pattern.terms@,
    {
        &self.pattern
    }

    pub fn block(&self) -> (r: &Block)
        ensures
            r.statements@ == self.block.statements@,
    {
        &self.block
    }

    /// A copy of the handler.
    pub fn duplicate(&self) -> (r: Handler)
        ensures
            r@ == self@,
        decreases *self,
    {
        Handler { pattern: self.pattern.duplicate(), block: self.block.duplicate() }
    }
}

} // verus!
