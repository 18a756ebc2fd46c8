//! Closing code over a scope: the variables that the scope binds are
//! replaced by their values.
use vstd::prelude::*;
use crate::ast::{
    BinaryExpr, Block, CallExpr, Expr, SpecExpr, SpecStatement, SpecValue, Statement, Value, boxed_exprs_of, exprs_of,
    lemma_boxed_exprs_of, lemma_exprs_of, lemma_statements_of, statements_of,
};
use crate::eval::{closure_block, closure_expr, closure_exprs, closure_stmt, closure_stmts};
use crate::scope::{Scope, SpecScope};
use crate::text::copy_string;

verus! {

broadcast use vstd::std_specs::vec::group_vec_axioms;

pub proof fn lemma_closure_exprs(es: Seq<SpecExpr>, n: int, s: SpecScope)
    requires
        0 <= n <= es.len(),
    ensures
        closure_exprs(es, n, s).len() == n,
        forall|j: int| 0 <= j < n ==> #[trigger] closure_exprs(es, n, s)[j] == closure_expr(es[j], s),
    decreases n,
{
    if n > 0 {
        lemma_closure_exprs(es, n - 1, s);
    }
}

pub proof fn lemma_closure_stmts(ss: Seq<SpecStatement>, n: int, s: SpecScope)
    requires
        0 <= n <= ss.len(),
    ensures
        closure_stmts(ss, n, s).len() == n,
        forall|j: int| 0 <= j < n ==> #[trigger] closure_stmts(ss, n, s)[j] == closure_stmt(ss[j], s),
    decreases n,
{
    if n > 0 {
        lemma_closure_stmts(ss, n - 1, s);
    }
}

/// The closure of an expression over a scope.
pub fn close_expr(e: &Expr, s: &Scope) -> (r: Expr)
    ensures
        r@ == closure_expr(e@, s@),
    decreases *e,
{
    match e {
        Expr::Value(v) => Expr::Value(v.duplicate()),
        Expr::Variable(n) => match s.get(n) {
            Some(v) => Expr::Value(v),
            None => Expr::Variable(copy_string(n)),
        },
        Expr::Binary(b) => Expr::Binary(BinaryExpr {
            op: b.op,
            left: Box::new(close_expr(&b.left, s)),
            right: Box::new(close_expr(&b.right, s)),
        }),
        Expr::Call(c) => Expr::Call(CallExpr {
            target: Box::new(close_expr(&c.target, s)),
            args: close_boxed_exprs(&c.args, s),
        }),
        Expr::Block(b) => Expr::Block(Box::new(close_block(b, s))),
        Expr::List(items) => Expr::List(close_exprs(items, s)),
    }
}

/// The closures of the expressions of a vector.
pub fn close_exprs(es: &Vec<Expr>, s: &Scope) -> (r: Vec<Expr>)
    ensures
        exprs_of(r@) == closure_exprs(exprs_of(es@), exprs_of(es@).len() as int, s@),
    decreases *es,
{
    proof {
        lemma_exprs_of(es@);
        lemma_closure_exprs(exprs_of(es@), es@.len() as int, s@);
    }
    let mut out: Vec<Expr> = Vec::new();
    let mut i: usize = 0;
    while i < es.len()
        invariant
            i <= es@.len(),
            out@.len() == i,
            exprs_of(es@).len() == es@.len(),
            forall|j: int| 0 <= j < es@.len() ==> #[trigger] exprs_of(es@)[j] == es@[j]@,
            forall|j: int| 0 <= j < i ==> (#[trigger] out@[j])@ == closure_expr(es@[j]@, s@),
        decreases es@.len() - i,
    {
        out.push(close_expr(&es[i], s));
        i += 1;
    }
    proof {
        lemma_exprs_of(out@);
        assert(exprs_of(out@) =~= closure_exprs(exprs_of(es@), exprs_of(es@).len() as int, s@));
    }
    out
}

/// The closures of the boxed expressions of a vector.
pub fn close_boxed_exprs(es: &Vec<Box<Expr>>, s: &Scope) -> (r: Vec<Box<Expr>>)
    ensures
        boxed_exprs_of(r@) == closure_exprs(boxed_exprs_of(es@), boxed_exprs_of(es@).len() as int, s@),
    decreases *es,
{
    proof {
        lemma_boxed_exprs_of(es@);
        lemma_closure_exprs(boxed_exprs_of(es@), es@.len() as int, s@);
    }
    let mut out: Vec<Box<Expr>> = Vec::new();
    let mut i: usize = 0;
    while i < es.len()
        invariant
            i <= es@.len(),
            out@.len() == i,
            boxed_exprs_of(es@).len() == es@.len(),
            forall|j: int| 0 <= j < es@.len() ==> #[trigger] boxed_exprs_of(es@)[j] == (*es@[j])@,
            forall|j: int| 0 <= j < i ==> (*#[trigger] out@[j])@ == closure_expr((*es@[j])@, s@),
        decreases es@.len() - i,
    {
        let e: &Expr = &es[i];
        out.push(Box::new(close_expr(e, s)));
        i += 1;
    }
    proof {
        lemma_boxed_exprs_of(out@);
        assert(boxed_exprs_of(out@) =~= closure_exprs(boxed_exprs_of(es@), boxed_exprs_of(es@).len() as int, s@));
    }
    out
}

/// The closure of a block over a scope.
pub fn close_block(b: &Block, s: &Scope) -> (r: Block)
    ensures
        r@ == closure_block(b@, s@),
    decreases *b,
{
    let ss = close_stmts(&b.statements, s);
    Block { statements: ss }
}

/// The closures of the statements of a vector.
pub fn close_stmts(ss: &Vec<Statement>, s: &Scope) -> (r: Vec<Statement>)
    ensures
        statements_of(r@) == closure_stmts(statements_of(ss@), statements_of(ss@).len() as int, s@),
    decreases *ss,
{
    proof {
        lemma_statements_of(ss@);
        lemma_closure_stmts(statements_of(ss@), ss@.len() as int, s@);
    }
    let mut out: Vec<Statement> = Vec::new();
    let mut i: usize = 0;
    while i < ss.len()
        invariant
            i <= ss@.len(),
            out@.len() == i,
            statements_of(ss@).len() == ss@.len(),
            forall|j: int| 0 <= j < ss@.len() ==> #[trigger] statements_of(ss@)[j] == ss@[j]@,
            forall|j: int| 0 <= j < i ==> (#[trigger] out@[j])@ == closure_stmt(ss@[j]@, s@),
        decreases ss@.len() - i,
    {
        out.push(close_stmt(&ss[i], s));
        i += 1;
    }
    proof {
        lemma_statements_of(out@);
        assert(statements_of(out@) =~= closure_stmts(statements_of(ss@), statements_of(ss@).len() as int, s@));
    }
    out
}

/// The closure of a statement over a scope.
pub fn close_stmt(st: &Statement, s: &Scope) -> (r: Statement)
    ensures
        r@ == closure_stmt(st@, s@),
    decreases *st,
{
    match st {
        Statement::Expr(e) => Statement::Expr(close_expr(e, s)),
        Statement::Assignment(n, e) => Statement::Assignment(copy_string(n), close_expr(e, s)),
        Statement::Field(n, t, Some(e)) => Statement::Field(copy_string(n), t.duplicate(), Some(close_expr(e, s))),
        Statement::Expander(e) => Statement::Expander(close_expr(e, s)),
        _ => st.duplicate(),
    }
}

/// Binding the variables that a scope knows inside a piece of syntax.
pub trait Closure {
    type Output;

    fn closure(&self, context: &Scope) -> Self::Output;
}

impl Closure for Block {
    type Output = Value;

    /// A block as a value; its statements are kept as they are, free
    /// variables included.
    fn closure(&self, context: &Scope) -> (r: Value)
        ensures
            r@ == SpecValue::Block(self@),
    {
        Value::Block(Box::new(self.duplicate()))
    }
}

impl Closure for Statement {
    type Output = Statement;

    fn closure(&self, context: &Scope) -> (r: Statement)
        ensures
            r@ == closure_stmt(self@, context@),
    {
        close_stmt(self, context)
    }
}

impl Closure for Expr {
    type Output = Expr;

    fn closure(&self, context: &Scope) -> (r: Expr)
        ensures
            r@ == closure_expr(self@, context@),
    {
        close_expr(self, context)
    }
}

impl Closure for BinaryExpr {
    type Output = BinaryExpr;

    fn closure(&self, context: &Scope) -> (r: BinaryExpr)
        ensures
            r.op == self.op,
            (*r.left)@ == closure_expr((*self.left)@, context@),
            (*r.right)@ == closure_expr((*self.right)@, context@),
    {
        BinaryExpr { op: self.op, left: Box::new(close_expr(&self.left, context)), right: Box::new(close_expr(&self.right, context)) }
    }
}

impl Closure for CallExpr {
    type Output = CallExpr;

    fn closure(&self, context: &Scope) -> (r: CallExpr)
        ensures
            (*r.target)@ == closure_expr((*self.target)@, context@),
            boxed_exprs_of(r.args@) == closure_exprs(boxed_exprs_of(self.args@), boxed_exprs_of(self.args@).len() as int, context@),
    {
        CallExpr { target: Box::new(close_expr(&self.target, context)), args: close_boxed_exprs(&self.args, context) }
    }
}

} // verus!
