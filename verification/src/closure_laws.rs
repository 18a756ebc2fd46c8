//! Laws of closing code over a scope: no variable that the scope binds is
//! left where closing reaches, closing keeps the shape of the code, and
//! closing twice is closing once.
use vstd::prelude::*;
use crate::ast::{SpecBlock, SpecExpr, SpecStatement};
use crate::closure::{lemma_closure_exprs, lemma_closure_stmts};
use crate::eval::{closure_block, closure_expr, closure_exprs, closure_stmt, closure_stmts};
use crate::scope::{SpecScope, spec_lookup};

verus! {

/// Whether an expression mentions, where closing reaches, a variable that
/// the scope binds. Closing does not enter the bodies of handlers.
pub open spec fn mentions_bound(e: SpecExpr, s: SpecScope) -> bool
    decreases e, 0int,
{
    match e {
        SpecExpr::Value(_) => false,
        SpecExpr::Variable(n) => spec_lookup(s, n) is Some,
        SpecExpr::Binary(_, l, r) => mentions_bound(*l, s) || mentions_bound(*r, s),
        SpecExpr::Call(t, args) => mentions_bound(*t, s) || exprs_mention_bound(args, args.len() as int, s),
        SpecExpr::Block(b) => block_mentions_bound(b, s),
        SpecExpr::List(items) => exprs_mention_bound(items, items.len() as int, s),
    }
}

/// Whether one of the first `n` expressions mentions a bound variable.
pub open spec fn exprs_mention_bound(es: Seq<SpecExpr>, n: int, s: SpecScope) -> bool
    decreases es, n,
{
    if n <= 0 || n > es.len() {
        false
    } else {
        exprs_mention_bound(es, n - 1, s) || mentions_bound(es[n - 1], s)
    }
}

/// Whether a block's statements mention a bound variable.
pub open spec fn block_mentions_bound(b: SpecBlock, s: SpecScope) -> bool
    decreases b, 0int,
{
    stmts_mention_bound(b.statements, b.statements.len() as int, s)
}

/// Whether one of the first `n` statements mentions a bound variable.
pub open spec fn stmts_mention_bound(ss: Seq<SpecStatement>, n: int, s: SpecScope) -> bool
    decreases ss, n,
{
    if n <= 0 || n > ss.len() {
        false
    } else {
        stmts_mention_bound(ss, n - 1, s) || stmt_mentions_bound(ss[n - 1], s)
    }
}

/// Whether a statement mentions a bound variable.
pub open spec fn stmt_mentions_bound(st: SpecStatement, s: SpecScope) -> bool
    decreases st, 0int,
{
    match st {
        SpecStatement::Expr(e) => mentions_bound(e, s),
        SpecStatement::Assignment(_, e) => mentions_bound(e, s),
        SpecStatement::Field(_, _, Some(e)) => mentions_bound(e, s),
        SpecStatement::Expander(e) => mentions_bound(e, s),
        _ => false,
    }
}

proof fn lemma_exprs_mention(es: Seq<SpecExpr>, n: int, s: SpecScope)
    requires
        0 <= n <= es.len(),
    ensures
        exprs_mention_bound(es, n, s) <==> exists|i: int| 0 <= i < n && mentions_bound(#[trigger] es[i], s),
    decreases n,
{
    if n > 0 {
        lemma_exprs_mention(es, n - 1, s);
        if mentions_bound(es[n - 1], s) {
            assert(0 <= n - 1 < n && mentions_bound(es[n - 1], s));
        }
    }
}

proof fn lemma_stmts_mention(ss: Seq<SpecStatement>, n: int, s: SpecScope)
    requires
        0 <= n <= ss.len(),
    ensures
        stmts_mention_bound(ss, n, s) <==> exists|i: int| 0 <= i < n && stmt_mentions_bound(#[trigger] ss[i], s),
    decreases n,
{
    if n > 0 {
        lemma_stmts_mention(ss, n - 1, s);
        if stmt_mentions_bound(ss[n - 1], s) {
            assert(0 <= n - 1 < n && stmt_mentions_bound(ss[n - 1], s));
        }
    }
}

/// Closing an expression over a scope replaces every variable that the
/// scope binds, where closing reaches: the result mentions none.
pub proof fn lemma_closure_binds_all(e: SpecExpr, s: SpecScope)
    ensures
        !mentions_bound(closure_expr(e, s), s),
    decreases e, 0int,
{
    match e {
        SpecExpr::Binary(op, l, r) => {
            lemma_closure_binds_all(*l, s);
            lemma_closure_binds_all(*r, s);
            let c = SpecExpr::Binary(op, Box::new(closure_expr(*l, s)), Box::new(closure_expr(*r, s)));
            assert(closure_expr(e, s) == c);
        },
        SpecExpr::Call(t, args) => {
            lemma_closure_binds_all(*t, s);
            lemma_closure_exprs(args, args.len() as int, s);
            lemma_closure_exprs_bind_all(args, args.len() as int, s);
        },
        SpecExpr::Block(b) => lemma_closure_block_binds_all(b, s),
        SpecExpr::List(items) => {
            lemma_closure_exprs(items, items.len() as int, s);
            lemma_closure_exprs_bind_all(items, items.len() as int, s);
        },
        _ => {},
    }
}

proof fn lemma_closure_exprs_bind_all(es: Seq<SpecExpr>, n: int, s: SpecScope)
    requires
        0 <= n <= es.len(),
    ensures
        !exprs_mention_bound(closure_exprs(es, n, s), n, s),
    decreases es, n,
{
    lemma_closure_exprs(es, n, s);
    let c = closure_exprs(es, n, s);
    lemma_exprs_mention(c, n, s);
    assert forall|i: int| 0 <= i < n implies !mentions_bound(#[trigger] c[i], s) by {
        lemma_closure_binds_all(es[i], s);
    }
}

proof fn lemma_closure_block_binds_all(b: SpecBlock, s: SpecScope)
    ensures
        !block_mentions_bound(closure_block(b, s), s),
    decreases b, 0int,
{
    lemma_closure_stmts(b.statements, b.statements.len() as int, s);
    lemma_closure_stmts_bind_all(b.statements, b.statements.len() as int, s);
}

proof fn lemma_closure_stmts_bind_all(ss: Seq<SpecStatement>, n: int, s: SpecScope)
    requires
        0 <= n <= ss.len(),
    ensures
        !stmts_mention_bound(closure_stmts(ss, n, s), n, s),
    decreases ss, n,
{
    lemma_closure_stmts(ss, n, s);
    let c = closure_stmts(ss, n, s);
    lemma_stmts_mention(c, n, s);
    assert forall|i: int| 0 <= i < n implies !stmt_mentions_bound(#[trigger] c[i], s) by {
        lemma_closure_stmt_binds_all(ss[i], s);
    }
}

proof fn lemma_closure_stmt_binds_all(st: SpecStatement, s: SpecScope)
    ensures
        !stmt_mentions_bound(closure_stmt(st, s), s),
    decreases st, 0int,
{
    match st {
        SpecStatement::Expr(e) => lemma_closure_binds_all(e, s),
        SpecStatement::Assignment(_, e) => lemma_closure_binds_all(e, s),
        SpecStatement::Field(_, _, Some(e)) => lemma_closure_binds_all(e, s),
        SpecStatement::Expander(e) => lemma_closure_binds_all(e, s),
        _ => {},
    }
}

/// Closing replaces a bound variable by its value and leaves an unbound
/// one and a value as they are; it closes the parts of a compound
/// expression one by one.
pub proof fn lemma_closure_parts(e: SpecExpr, s: SpecScope)
    ensures
        e matches SpecExpr::Variable(n) ==> closure_expr(e, s) == match spec_lookup(s, n) {
            Some(v) => SpecExpr::Value(v),
            None => e,
        },
        e is Value ==> closure_expr(e, s) == e,
        e matches SpecExpr::Binary(op, l, r) ==> closure_expr(e, s) == SpecExpr::Binary(
            op,
            Box::new(closure_expr(*l, s)),
            Box::new(closure_expr(*r, s)),
        ),
        e matches SpecExpr::Call(t, args) ==> {
            &&& closure_expr(e, s) == SpecExpr::Call(Box::new(closure_expr(*t, s)), closure_exprs(args, args.len() as int, s))
            &&& closure_exprs(args, args.len() as int, s).len() == args.len()
            &&& forall|i: int| 0 <= i < args.len() ==> #[trigger] closure_exprs(args, args.len() as int, s)[i] == closure_expr(args[i], s)
        },
        e matches SpecExpr::List(items) ==> {
            &&& closure_expr(e, s) == SpecExpr::List(closure_exprs(items, items.len() as int, s))
            &&& closure_exprs(items, items.len() as int, s).len() == items.len()
            &&& forall|i: int| 0 <= i < items.len() ==> #[trigger] closure_exprs(items, items.len() as int, s)[i] == closure_expr(items[i], s)
        },
{
    match e {
        SpecExpr::Call(t, args) => lemma_closure_exprs(args, args.len() as int, s),
        SpecExpr::List(items) => lemma_closure_exprs(items, items.len() as int, s),
        _ => {},
    }
}

/// Closing a block closes its statements one by one and keeps their
/// number; closing a statement closes the expression it holds and keeps
/// its kind, its name and its type; a handler, a comment, a no-op and a
/// field without a default are left as they are.
pub proof fn lemma_closure_shape(b: SpecBlock, st: SpecStatement, s: SpecScope)
    ensures
        closure_expr(SpecExpr::Block(b), s) == SpecExpr::Block(closure_block(b, s)),
        closure_block(b, s).statements.len() == b.statements.len(),
        forall|i: int| 0 <= i < b.statements.len() ==> #[trigger] closure_block(b, s).statements[i] == closure_stmt(b.statements[i], s),
        closure_stmt(st, s) == match st {
            SpecStatement::Expr(e) => SpecStatement::Expr(closure_expr(e, s)),
            SpecStatement::Assignment(n, e) => SpecStatement::Assignment(n, closure_expr(e, s)),
            SpecStatement::Field(n, t, Some(e)) => SpecStatement::Field(n, t, Some(closure_expr(e, s))),
            SpecStatement::Expander(e) => SpecStatement::Expander(closure_expr(e, s)),
            _ => st,
        },
{
    lemma_closure_stmts(b.statements, b.statements.len() as int, s);
}

/// Closing twice over the same scope is closing once.
pub proof fn lemma_closure_twice(e: SpecExpr, s: SpecScope)
    ensures
        closure_expr(closure_expr(e, s), s) == closure_expr(e, s),
    decreases e, 0int,
{
    match e {
        SpecExpr::Binary(op, l, r) => {
            lemma_closure_twice(*l, s);
            lemma_closure_twice(*r, s);
            let c = SpecExpr::Binary(op, Box::new(closure_expr(*l, s)), Box::new(closure_expr(*r, s)));
            assert(closure_expr(e, s) == c);
            assert(closure_expr(c, s) == c);
        },
        SpecExpr::Call(t, args) => {
            lemma_closure_twice(*t, s);
            lemma_closure_exprs(args, args.len() as int, s);
            lemma_closure_exprs_twice(args, args.len() as int, s);
        },
        SpecExpr::Block(b) => lemma_closure_block_twice(b, s),
        SpecExpr::List(items) => {
            lemma_closure_exprs(items, items.len() as int, s);
            lemma_closure_exprs_twice(items, items.len() as int, s);
        },
        _ => {},
    }
}

proof fn lemma_closure_exprs_twice(es: Seq<SpecExpr>, n: int, s: SpecScope)
    requires
        0 <= n <= es.len(),
    ensures
        closure_exprs(closure_exprs(es, n, s), n, s) == closure_exprs(es, n, s),
    decreases es, n,
{
    lemma_closure_exprs(es, n, s);
    let c = closure_exprs(es, n, s);
    lemma_closure_exprs(c, n, s);
    assert forall|i: int| 0 <= i < n implies #[trigger] closure_exprs(c, n, s)[i] == c[i] by {
        lemma_closure_twice(es[i], s);
    }
    assert(closure_exprs(c, n, s) =~= c);
}

proof fn lemma_closure_block_twice(b: SpecBlock, s: SpecScope)
    ensures
        closure_block(closure_block(b, s), s) == closure_block(b, s),
    decreases b, 0int,
{
    lemma_closure_stmts(b.statements, b.statements.len() as int, s);
    lemma_closure_stmts_twice(b.statements, b.statements.len() as int, s);
}

proof fn lemma_closure_stmts_twice(ss: Seq<SpecStatement>, n: int, s: SpecScope)
    requires
        0 <= n <= ss.len(),
    ensures
        closure_stmts(closure_stmts(ss, n, s), n, s) == closure_stmts(ss, n, s),
    decreases ss, n,
{
    lemma_closure_stmts(ss, n, s);
    let c = closure_stmts(ss, n, s);
    lemma_closure_stmts(c, n, s);
    assert forall|i: int| 0 <= i < n implies #[trigger] closure_stmts(c, n, s)[i] == c[i] by {
        lemma_closure_stmt_twice(ss[i], s);
    }
    assert(closure_stmts(c, n, s) =~= c);
}

proof fn lemma_closure_stmt_twice(st: SpecStatement, s: SpecScope)
    ensures
        closure_stmt(closure_stmt(st, s), s) == closure_stmt(st, s),
    decreases st, 0int,
{
    match st {
        SpecStatement::Expr(e) => lemma_closure_twice(e, s),
        SpecStatement::Assignment(_, e) => lemma_closure_twice(e, s),
        SpecStatement::Field(_, _, Some(e)) => lemma_closure_twice(e, s),
        SpecStatement::Expander(e) => lemma_closure_twice(e, s),
        _ => {},
    }
}

} // verus!
