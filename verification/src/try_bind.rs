//! Matching a message against a handler's pattern.
use vstd::prelude::*;
use crate::ast::{Pattern, SpecTypeExpr, SpecValue, TypeExpr, Value, lemma_type_exprs_of, lemma_values_of};
use crate::message::Message;
use crate::number::Number;
use crate::operators::ComparisonOp;
use crate::scope::{Scope, SpecScope, lemma_lookup_after_bind, lemma_lookup_other_after_bind, spec_bind, spec_lookup};
use crate::text::copy_string;
use crate::value_type::{Typed, spec_value_subtype};
use crate::values::{spec_type_of, spec_value_eq};

verus! {

/// Whether `a` is below `b` in the language's ordering: numbers of the
/// same kind compare by value; other values are not ordered.
pub open spec fn spec_value_lt(a: SpecValue, b: SpecValue) -> bool {
    match (a, b) {
        (SpecValue::Number(Number::Int(x)), SpecValue::Number(Number::Int(y))) => x < y,
        (SpecValue::Number(Number::UInt(x)), SpecValue::Number(Number::UInt(y))) => x < y,
        _ => false,
    }
}

/// Whether two values are ordered at all.
pub open spec fn spec_value_ordered(a: SpecValue, b: SpecValue) -> bool {
    match (a, b) {
        (SpecValue::Number(Number::Int(_)), SpecValue::Number(Number::Int(_))) => true,
        (SpecValue::Number(Number::UInt(_)), SpecValue::Number(Number::UInt(_))) => true,
        _ => false,
    }
}

/// Whether a predicate hole's divisibility test would divide by zero or
/// overflow, which stops the program.
pub open spec fn divisible_faults(v: SpecValue, e: SpecValue) -> bool {
    match (v, e) {
        (SpecValue::Number(Number::Int(x)), SpecValue::Number(Number::Int(y))) => x.checked_rem(y) is None,
        (SpecValue::Number(Number::UInt(x)), SpecValue::Number(Number::UInt(y))) => x.checked_rem(y) is None,
        _ => false,
    }
}

/// The outcome of a predicate hole's comparison.
pub open spec fn spec_compare(op: ComparisonOp, v: SpecValue, e: SpecValue) -> bool {
    match op {
        ComparisonOp::Eq => spec_value_eq(v, e),
        ComparisonOp::Ne => !spec_value_eq(v, e),
        ComparisonOp::Lt => spec_value_lt(v, e),
        ComparisonOp::Le => spec_value_lt(v, e) || (spec_value_ordered(v, e) && spec_value_eq(v, e)),
        ComparisonOp::Gt => spec_value_lt(e, v),
        ComparisonOp::Ge => spec_value_lt(e, v) || (spec_value_ordered(v, e) && spec_value_eq(v, e)),
        ComparisonOp::Divisible => match (v, e) {
            (SpecValue::Number(Number::Int(x)), SpecValue::Number(Number::Int(y))) => x.checked_rem(y) == Some(0i64),
            (SpecValue::Number(Number::UInt(x)), SpecValue::Number(Number::UInt(y))) => x.checked_rem(y) == Some(0u64),
            _ => false,
        },
    }
}

/// Whether a message value matches one pattern term.
pub open spec fn term_matches(t: SpecTypeExpr, v: SpecValue) -> bool {
    match t {
        SpecTypeExpr::Hole(_) => true,
        SpecTypeExpr::BlockHole(_) => true,
        SpecTypeExpr::Type(typ) => spec_value_subtype(spec_type_of(v), typ),
        SpecTypeExpr::TypeHole(_, typ) => spec_value_subtype(spec_type_of(v), typ),
        SpecTypeExpr::Word(lit) => spec_value_eq(v, SpecValue::Word(lit)),
        SpecTypeExpr::Value(lit) => spec_value_eq(v, lit),
        SpecTypeExpr::Empty => spec_value_eq(v, SpecValue::Empty),
        SpecTypeExpr::Binary(_, op, e) => spec_compare(op, v, e),
    }
}

/// Whether testing a value against a term stops the program.
pub open spec fn term_faults(t: SpecTypeExpr, v: SpecValue) -> bool {
    match t {
        SpecTypeExpr::Binary(_, ComparisonOp::Divisible, e) => divisible_faults(v, e),
        _ => false,
    }
}

/// The name a term binds its value to, if any.
pub open spec fn term_binding(t: SpecTypeExpr) -> Option<Seq<char>> {
    match t {
        SpecTypeExpr::Hole(n) => Some(n),
        SpecTypeExpr::BlockHole(n) => Some(n),
        SpecTypeExpr::TypeHole(n, _) => Some(n),
        SpecTypeExpr::Binary(n, _, _) => Some(n),
        _ => None,
    }
}

/// The scope after the bindings of the first `n` terms, in order.
pub open spec fn bind_terms(terms: Seq<SpecTypeExpr>, values: Seq<SpecValue>, ctx: SpecScope, n: int) -> SpecScope
    decreases n,
{
    if n <= 0 {
        ctx
    } else {
        let prev = bind_terms(terms, values, ctx, n - 1);
        match term_binding(terms[n - 1]) {
            Some(name) => spec_bind(prev, name, values[n - 1]),
            None => prev,
        }
    }
}

/// Whether the first `n` terms all match their values.
pub open spec fn terms_match(terms: Seq<SpecTypeExpr>, values: Seq<SpecValue>, n: int) -> bool {
    forall|i: int| 0 <= i < n ==> term_matches(#[trigger] terms[i], values[i])
}

/// Whether matching stops the program: some term faults after all the
/// terms before it matched.
pub open spec fn bind_faults(terms: Seq<SpecTypeExpr>, values: Seq<SpecValue>) -> bool {
    &&& terms.len() == values.len()
    &&& exists|i: int| 0 <= i < terms.len() && terms_match(terms, values, i) && #[trigger] term_faults(terms[i], values[i])
}

/// How many leading terms of the first `n` match their values, up to the
/// first that does not.
pub open spec fn matched_prefix(terms: Seq<SpecTypeExpr>, values: Seq<SpecValue>, n: int) -> int
    decreases n,
{
    if n <= 0 {
        0
    } else {
        let p = matched_prefix(terms, values, n - 1);
        if p == n - 1 && term_matches(terms[n - 1], values[n - 1]) { n } else { p }
    }
}

/// The context after matching: matching binds into the context's own
/// bindings as it goes, so the bindings of the terms before the first
/// mismatch stay there even when matching fails; the context's other
/// parts are kept. When the lengths differ nothing is bound.
pub open spec fn try_bind_context(terms: Seq<SpecTypeExpr>, values: Seq<SpecValue>, ctx: SpecScope) -> SpecScope {
    if terms.len() != values.len() {
        ctx
    } else {
        SpecScope {
            bindings: bind_terms(terms, values, ctx, matched_prefix(terms, values, terms.len() as int)).bindings,
            ..ctx
        }
    }
}

proof fn lemma_matched_prefix_stops(terms: Seq<SpecTypeExpr>, values: Seq<SpecValue>, i: int, n: int)
    requires
        0 <= i < n,
        matched_prefix(terms, values, i) == i,
        !term_matches(terms[i], values[i]),
    ensures
        matched_prefix(terms, values, n) == i,
    decreases n,
{
    if n > i + 1 {
        lemma_matched_prefix_stops(terms, values, i, n - 1);
    }
}

/// The result of matching message terms against a pattern in a context:
/// `None` when the lengths differ or some term does not match; otherwise
/// the context with every binding of the pattern added, left to right.
pub open spec fn spec_try_bind(terms: Seq<SpecTypeExpr>, values: Seq<SpecValue>, ctx: SpecScope) -> Option<SpecScope> {
    if terms.len() != values.len() || !terms_match(terms, values, terms.len() as int) {
        None
    } else {
        Some(bind_terms(terms, values, ctx, terms.len() as int))
    }
}

fn value_lt(a: &Value, b: &Value) -> (r: bool)
    ensures
        r == spec_value_lt(a@, b@),
{
    match (a, b) {
        (Value::Number(Number::Int(x)), Value::Number(Number::Int(y))) => *x < *y,
        (Value::Number(Number::UInt(x)), Value::Number(Number::UInt(y))) => *x < *y,
        _ => false,
    }
}

fn value_ordered(a: &Value, b: &Value) -> (r: bool)
    ensures
        r == spec_value_ordered(a@, b@),
{
    match (a, b) {
        (Value::Number(Number::Int(_)), Value::Number(Number::Int(_))) => true,
        (Value::Number(Number::UInt(_)), Value::Number(Number::UInt(_))) => true,
        _ => false,
    }
}

fn compare(op: ComparisonOp, v: &Value, e: &Value) -> (r: bool)
    requires
        !(op == ComparisonOp::Divisible && divisible_faults(v@, e@)),
    ensures
        r == spec_compare(op, v@, e@),
{
    match op {
        ComparisonOp::Eq => v.equals(e),
        ComparisonOp::Ne => !v.equals(e),
        ComparisonOp::Lt => value_lt(v, e),
        ComparisonOp::Le => value_lt(v, e) || (value_ordered(v, e) && v.equals(e)),
        ComparisonOp::Gt => value_lt(e, v),
        ComparisonOp::Ge => value_lt(e, v) || (value_ordered(v, e) && v.equals(e)),
        ComparisonOp::Divisible => match (v, e) {
            (Value::Number(Number::Int(x)), Value::Number(Number::Int(y))) => match x.checked_rem(*y) {
                Some(m) => m == 0,
                None => false,
            },
            (Value::Number(Number::UInt(x)), Value::Number(Number::UInt(y))) => match x.checked_rem(*y) {
                Some(m) => m == 0,
                None => false,
            },
            _ => false,
        },
    }
}

/// Whether a value matches a term; `None` when the test would stop the
/// program.
pub fn check_term(t: &TypeExpr, v: &Value) -> (r: Option<bool>)
    ensures
        match r {
            Some(b) => !term_faults(t@, v@) && b == term_matches(t@, v@),
            None => term_faults(t@, v@),
        },
{
    match t {
        TypeExpr::Hole(_) => Some(true),
        TypeExpr::BlockHole(_) => Some(true),
        TypeExpr::Type(typ) => Some(v.get_type().is_subtype_of(typ)),
        TypeExpr::TypeHole(_, typ) => Some(v.get_type().is_subtype_of(typ)),
        TypeExpr::Word(lit) => Some(v.equals(&Value::Word(copy_string(lit)))),
        TypeExpr::Value(lit) => Some(v.equals(lit)),
        TypeExpr::Empty => Some(v.equals(&Value::Empty)),
        TypeExpr::Binary(_, op, e) => {
            let faults = match (*op, v, e) {
                (ComparisonOp::Divisible, Value::Number(Number::Int(x)), Value::Number(Number::Int(y))) =>
                    x.checked_rem(*y).is_none(),
                (ComparisonOp::Divisible, Value::Number(Number::UInt(x)), Value::Number(Number::UInt(y))) =>
                    x.checked_rem(*y).is_none(),
                _ => false,
            };
            if faults {
                None
            } else {
                Some(compare(*op, v, e))
            }
        },
    }
}

/// Matching input against a pattern in a context.
pub trait TryBind {
    type Input;

    type Output;

    type Context;

    /// The inputs on which binding may run at all.
    spec fn can_bind(&self, input: &Self::Input) -> bool;

    fn try_bind(&self, input: Self::Input, context: &mut Self::Context) -> Option<Self::Output>
        requires
            self.can_bind(&input),
    ;
}

impl Pattern {
    /// Whether matching the message against the pattern would stop the
    /// program (see [`bind_faults`]).
    pub fn bind_would_fault(&self, input: &Message) -> (r: bool)
        ensures
            r == bind_faults(self@, input@.terms),
    {
        proof {
            lemma_type_exprs_of(self.terms@);
            lemma_values_of(input.terms@);
        }
        if self.terms.len() != input.terms.len() {
            return false;
        }
        let mut i: usize = 0;
        while i < self.terms.len()
            invariant
                i <= self.terms@.len(),
                self.terms@.len() == input.terms@.len(),
                self@.len() == self.terms@.len(),
                input@.terms.len() == input.terms@.len(),
                forall|j: int| 0 <= j < self.terms@.len() ==> #[trigger] self@[j] == self.terms@[j]@,
                forall|j: int| 0 <= j < input.terms@.len() ==> #[trigger] input@.terms[j] == input.terms@[j]@,
                terms_match(self@, input@.terms, i as int),
                forall|j: int| 0 <= j < i ==> !#[trigger] term_faults(self@[j], input@.terms[j]),
            decreases self.terms@.len() - i,
        {
            match check_term(&self.terms[i], &input.terms[i]) {
                None => {
                    assert(term_faults(self@[i as int], input@.terms[i as int]));
                    return true;
                },
                Some(false) => {
                    assert forall|k: int| 0 <= k < self@.len() && terms_match(self@, input@.terms, k)
                        implies !#[trigger] term_faults(self@[k], input@.terms[k]) by {
                        if k > i {
                            assert(term_matches(self@[i as int], input@.terms[i as int]));
                        }
                    }
                    return false;
                },
                Some(true) => {},
            }
            i += 1;
        }
        false
    }
}

impl TryBind for Pattern {
    type Input = Message;

    type Output = Scope;

    type Context = Scope;

    open spec fn can_bind(&self, input: &Message) -> bool {
        !bind_faults(self@, input@.terms)
    }

    /// Matches the message against the pattern. On a match, returns the
    /// context with the pattern's holes bound to the message's values. The
    /// holes are bound in the context's own bindings as matching goes, so
    /// those bound before a mismatch stay there (see [`try_bind_context`]).
    fn try_bind(&self, input: Message, context: &mut Scope) -> (r: Option<Scope>)
        ensures
            final(context)@ == try_bind_context(self@, input@.terms, old(context)@),
            match r {
                Some(s) => spec_try_bind(self@, input@.terms, old(context)@) == Some(s@),
                None => spec_try_bind(self@, input@.terms, old(context)@) is None,
            },
    {
        proof {
            lemma_type_exprs_of(self.terms@);
            lemma_values_of(input.terms@);
        }
        if self.terms.len() != input.terms.len() {
            return None;
        }
        let ghost ctx0 = context@;
        let mut scope = context.duplicate();
        let mut i: usize = 0;
        while i < self.terms.len()
            invariant
                i <= self.terms@.len(),
                self.terms@.len() == input.terms@.len(),
                self@.len() == self.terms@.len(),
                input@.terms.len() == input.terms@.len(),
                forall|j: int| 0 <= j < self.terms@.len() ==> #[trigger] self@[j] == self.terms@[j]@,
                forall|j: int| 0 <= j < input.terms@.len() ==> #[trigger] input@.terms[j] == input.terms@[j]@,
                !bind_faults(self@, input@.terms),
                terms_match(self@, input@.terms, i as int),
                matched_prefix(self@, input@.terms, i as int) == i,
                context@ == ctx0,
                ctx0 == old(context)@,
                scope@ == bind_terms(self@, input@.terms, ctx0, i as int),
            decreases self.terms@.len() - i,
        {
            let term = &self.terms[i];
            let value = &input.terms[i];
            match check_term(term, value) {
                None => {
                    assert(term_faults(self@[i as int], input@.terms[i as int]));
                    assert(false);
                    return None;
                },
                Some(false) => {
                    assert(!term_matches(self@[i as int], input@.terms[i as int]));
                    proof {
                        lemma_matched_prefix_stops(self@, input@.terms, i as int, self@.len() as int);
                    }
                    context.adopt_bindings(&scope);
                    return None;
                },
                Some(true) => {},
            }
            match term {
                TypeExpr::Hole(name) | TypeExpr::BlockHole(name) | TypeExpr::TypeHole(name, _) | TypeExpr::Binary(name, _, _) => {
                    scope.set(copy_string(name), value.duplicate());
                },
                _ => {},
            }
            i += 1;
        }
        context.adopt_bindings(&scope);
        Some(scope)
    }
}

/// A pattern made only of holes matches every message of its length, and
/// binds each hole to the value in its place.
pub proof fn lemma_holes_always_bind(terms: Seq<SpecTypeExpr>, values: Seq<SpecValue>, ctx: SpecScope)
    requires
        terms.len() == values.len(),
        forall|i: int| 0 <= i < terms.len() ==> #[trigger] terms[i] is Hole,
    ensures
        spec_try_bind(terms, values, ctx) == Some(bind_terms(terms, values, ctx, terms.len() as int)),
{
}

/// A message whose length differs from the pattern's never matches.
pub proof fn lemma_length_mismatch_fails(terms: Seq<SpecTypeExpr>, values: Seq<SpecValue>, ctx: SpecScope)
    requires
        terms.len() != values.len(),
    ensures
        spec_try_bind(terms, values, ctx) is None,
{
}

/// Matching only adds bindings: every name that no term binds keeps the
/// value it had in the context.
pub proof fn lemma_bind_terms_keeps_other_names(
    terms: Seq<SpecTypeExpr>,
    values: Seq<SpecValue>,
    ctx: SpecScope,
    n: int,
    name: Seq<char>,
)
    requires
        0 <= n <= terms.len(),
        forall|i: int| 0 <= i < n ==> term_binding(#[trigger] terms[i]) != Some(name),
    ensures
        crate::scope::spec_lookup(bind_terms(terms, values, ctx, n), name) == crate::scope::spec_lookup(ctx, name),
    decreases n,
{
    if n > 0 {
        lemma_bind_terms_keeps_other_names(terms, values, ctx, n - 1, name);
        let prev = bind_terms(terms, values, ctx, n - 1);
        match term_binding(terms[n - 1]) {
            Some(other) => {
                crate::scope::lemma_lookup_other_after_bind(prev, other, name, values[n - 1]);
            },
            None => {},
        }
    }
}

/// The last term that binds a name decides its value after a match.
pub proof fn lemma_bind_terms_last_binding(
    terms: Seq<SpecTypeExpr>,
    values: Seq<SpecValue>,
    ctx: SpecScope,
    n: int,
    k: int,
)
    requires
        0 <= k < n <= terms.len(),
        term_binding(terms[k]) is Some,
        forall|i: int| k < i < n ==> term_binding(#[trigger] terms[i]) != term_binding(terms[k]),
    ensures
        crate::scope::spec_lookup(bind_terms(terms, values, ctx, n), term_binding(terms[k])->0) == Some(values[k]),
    decreases n,
{
    let name = term_binding(terms[k])->0;
    if n - 1 == k {
        crate::scope::lemma_lookup_after_bind(bind_terms(terms, values, ctx, k), name, values[k]);
    } else {
        lemma_bind_terms_last_binding(terms, values, ctx, n - 1, k);
        let prev = bind_terms(terms, values, ctx, n - 1);
        match term_binding(terms[n - 1]) {
            Some(other) => {
                crate::scope::lemma_lookup_other_after_bind(prev, other, name, values[n - 1]);
            },
            None => {},
        }
    }
}

/// After the bindings of the first `n` terms, a name that the `i`-th term
/// binds, and no later one of them, has the `i`-th value.
proof fn lemma_bind_terms_last(terms: Seq<SpecTypeExpr>, values: Seq<SpecValue>, ctx: SpecScope, n: int, i: int, name: Seq<char>)
    requires
        0 <= i < n <= terms.len(),
        terms.len() == values.len(),
        term_binding(terms[i]) == Some(name),
        forall|j: int| i < j < n ==> term_binding(#[trigger] terms[j]) != Some(name),
    ensures
        spec_lookup(bind_terms(terms, values, ctx, n), name) == Some(values[i]),
    decreases n,
{
    let prev = bind_terms(terms, values, ctx, n - 1);
    if n - 1 == i {
        lemma_lookup_after_bind(prev, name, values[i]);
    } else {
        lemma_bind_terms_last(terms, values, ctx, n - 1, i, name);
        assert(term_binding(terms[n - 1]) != Some(name));
        match term_binding(terms[n - 1]) {
            Some(other) => lemma_lookup_other_after_bind(prev, other, name, values[n - 1]),
            None => {},
        }
    }
}

/// After the bindings of the first `n` terms, a name that none of them
/// binds has the value it had in the context.
proof fn lemma_bind_terms_unbound(terms: Seq<SpecTypeExpr>, values: Seq<SpecValue>, ctx: SpecScope, n: int, name: Seq<char>)
    requires
        0 <= n <= terms.len(),
        terms.len() == values.len(),
        forall|j: int| 0 <= j < n ==> term_binding(#[trigger] terms[j]) != Some(name),
    ensures
        spec_lookup(bind_terms(terms, values, ctx, n), name) == spec_lookup(ctx, name),
    decreases n,
{
    if n > 0 {
        let prev = bind_terms(terms, values, ctx, n - 1);
        lemma_bind_terms_unbound(terms, values, ctx, n - 1, name);
        assert(term_binding(terms[n - 1]) != Some(name));
        match term_binding(terms[n - 1]) {
            Some(other) => lemma_lookup_other_after_bind(prev, other, name, values[n - 1]),
            None => {},
        }
    }
}

/// Matching a message against a whole pattern of its length: it succeeds
/// exactly when every term matches the value in its place. On success,
/// a name that a hole binds has the value at the last place that binds
/// it, and every name the pattern does not bind keeps its value in the
/// context.
pub proof fn lemma_match_whole_pattern(terms: Seq<SpecTypeExpr>, values: Seq<SpecValue>, ctx: SpecScope)
    requires
        terms.len() == values.len(),
    ensures
        spec_try_bind(terms, values, ctx) is Some <==> forall|i: int| 0 <= i < terms.len() ==> term_matches(#[trigger] terms[i], values[i]),
        spec_try_bind(terms, values, ctx) matches Some(s) ==> forall|i: int, name: Seq<char>|
            #![trigger term_binding(terms[i]), spec_lookup(s, name)]
            0 <= i < terms.len() && term_binding(terms[i]) == Some(name)
                && (forall|j: int| i < j < terms.len() ==> term_binding(#[trigger] terms[j]) != Some(name))
                ==> spec_lookup(s, name) == Some(values[i]),
        spec_try_bind(terms, values, ctx) matches Some(s) ==> forall|name: Seq<char>|
            (forall|j: int| 0 <= j < terms.len() ==> term_binding(#[trigger] terms[j]) != Some(name))
                ==> #[trigger] spec_lookup(s, name) == spec_lookup(ctx, name),
{
    let n = terms.len() as int;
    if spec_try_bind(terms, values, ctx) is Some {
        let s = bind_terms(terms, values, ctx, n);
        assert forall|i: int, name: Seq<char>|
            #![trigger term_binding(terms[i]), spec_lookup(s, name)]
            0 <= i < n && term_binding(terms[i]) == Some(name)
                && (forall|j: int| i < j < n ==> term_binding(#[trigger] terms[j]) != Some(name))
            implies spec_lookup(s, name) == Some(values[i]) by {
            lemma_bind_terms_last(terms, values, ctx, n, i, name);
        }
        assert forall|name: Seq<char>|
            (forall|j: int| 0 <= j < n ==> term_binding(#[trigger] terms[j]) != Some(name))
            implies #[trigger] spec_lookup(s, name) == spec_lookup(ctx, name) by {
            lemma_bind_terms_unbound(terms, values, ctx, n, name);
        }
    }
}

/// The comparisons of predicate holes on two numbers of the same kind are
/// the comparisons of their values; a value equal to the bound satisfies
/// `==`, `<=` and `>=`, and not `!=`, `<` or `>`. Divisibility by a
/// non-zero unsigned number is a zero remainder.
pub proof fn lemma_comparisons_on_numbers(x: i64, y: i64, a: u64, b: u64)
    ensures
        spec_compare(ComparisonOp::Eq, SpecValue::Number(Number::Int(x)), SpecValue::Number(Number::Int(y))) == (x == y),
        spec_compare(ComparisonOp::Ne, SpecValue::Number(Number::Int(x)), SpecValue::Number(Number::Int(y))) == (x != y),
        spec_compare(ComparisonOp::Lt, SpecValue::Number(Number::Int(x)), SpecValue::Number(Number::Int(y))) == (x < y),
        spec_compare(ComparisonOp::Le, SpecValue::Number(Number::Int(x)), SpecValue::Number(Number::Int(y))) == (x <= y),
        spec_compare(ComparisonOp::Gt, SpecValue::Number(Number::Int(x)), SpecValue::Number(Number::Int(y))) == (x > y),
        spec_compare(ComparisonOp::Ge, SpecValue::Number(Number::Int(x)), SpecValue::Number(Number::Int(y))) == (x >= y),
        spec_compare(ComparisonOp::Eq, SpecValue::Number(Number::UInt(a)), SpecValue::Number(Number::UInt(b))) == (a == b),
        spec_compare(ComparisonOp::Ne, SpecValue::Number(Number::UInt(a)), SpecValue::Number(Number::UInt(b))) == (a != b),
        spec_compare(ComparisonOp::Lt, SpecValue::Number(Number::UInt(a)), SpecValue::Number(Number::UInt(b))) == (a < b),
        spec_compare(ComparisonOp::Le, SpecValue::Number(Number::UInt(a)), SpecValue::Number(Number::UInt(b))) == (a <= b),
        spec_compare(ComparisonOp::Gt, SpecValue::Number(Number::UInt(a)), SpecValue::Number(Number::UInt(b))) == (a > b),
        spec_compare(ComparisonOp::Ge, SpecValue::Number(Number::UInt(a)), SpecValue::Number(Number::UInt(b))) == (a >= b),
        b != 0 ==> spec_compare(ComparisonOp::Divisible, SpecValue::Number(Number::UInt(a)), SpecValue::Number(Number::UInt(b)))
            == (a % b == 0),
{
}

/// A pattern of one predicate hole `_(n >= bound)` matches a number of
/// the bound's kind exactly when the number is at least the bound, and
/// then binds `n` to it; likewise `_(n <= bound)` when it is at most the
/// bound.
pub proof fn lemma_bounded_hole_matches(n: Seq<char>, x: i64, y: i64, ctx: SpecScope)
    ensures
        spec_try_bind(
            seq![SpecTypeExpr::Binary(n, ComparisonOp::Ge, SpecValue::Number(Number::Int(y)))],
            seq![SpecValue::Number(Number::Int(x))],
            ctx,
        ) == if x >= y { Some(spec_bind(ctx, n, SpecValue::Number(Number::Int(x)))) } else { None::<SpecScope> },
        spec_try_bind(
            seq![SpecTypeExpr::Binary(n, ComparisonOp::Le, SpecValue::Number(Number::Int(y)))],
            seq![SpecValue::Number(Number::Int(x))],
            ctx,
        ) == if x <= y { Some(spec_bind(ctx, n, SpecValue::Number(Number::Int(x)))) } else { None::<SpecScope> },
{
    let vs = seq![SpecValue::Number(Number::Int(x))];
    let ge = seq![SpecTypeExpr::Binary(n, ComparisonOp::Ge, SpecValue::Number(Number::Int(y)))];
    let le = seq![SpecTypeExpr::Binary(n, ComparisonOp::Le, SpecValue::Number(Number::Int(y)))];
    assert(bind_terms(ge, vs, ctx, 0) == ctx);
    assert(bind_terms(le, vs, ctx, 0) == ctx);
    assert(terms_match(ge, vs, 1) == term_matches(ge[0], vs[0]));
    assert(terms_match(le, vs, 1) == term_matches(le[0], vs[0]));
}

} // verus!
