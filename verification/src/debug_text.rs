//! The debugging form of values and types, as Rust's derived `Debug`
//! writes them: a variant's name, then its fields in parentheses; strings
//! quoted and escaped; lists between brackets, separated by `, `.
use vstd::prelude::*;
use crate::ast::{SpecTypeExpr, SpecValue, TypeExpr, Value, lemma_values_of, values_of};
use crate::channel::uuid_text;
use crate::error::{RuntimeError, SpecRuntimeError, error_kind_text};
use crate::number::Number;
use crate::operators::ComparisonOp;
use crate::text::{int_decimal, nat_decimal, push_all, push_i64_decimal, push_u64_decimal};
use crate::to_sexpr::bool_text;
use crate::value_type::{SpecValueType, ValueType, value_type_text};

verus! {

broadcast use vstd::std_specs::vec::group_vec_axioms;

/// The text that `Debug` of `str` writes for a string: the string between
/// double quotes, with quotes, backslashes and characters that do not
/// print escaped.
pub uninterp spec fn str_debug_text(s: Seq<char>) -> Seq<char>;

/// `format!("{:?}", s)`, std's `Debug` of `str`. The contract claims that
/// the result is [`str_debug_text`] of the string, that is, that it
/// depends on the string alone; which characters are escaped, and how, is
/// left to std.
#[verifier::external_body]
fn debug_str(s: &str) -> (r: String)
    ensures
        r@ == str_debug_text(s@),
{
    format!("{:?}", s)
}

/// The debugging form of a value type.
pub open spec fn value_type_debug(t: SpecValueType) -> Seq<char> {
    match t {
        SpecValueType::User(n) => "User("@ + str_debug_text(n) + ")"@,
        _ => value_type_text(t),
    }
}

/// The debugging form of a comparison: its variant's name.
pub open spec fn comparison_debug(op: ComparisonOp) -> Seq<char> {
    match op {
        ComparisonOp::Eq => "Eq"@,
        ComparisonOp::Ne => "Ne"@,
        ComparisonOp::Gt => "Gt"@,
        ComparisonOp::Ge => "Ge"@,
        ComparisonOp::Lt => "Lt"@,
        ComparisonOp::Le => "Le"@,
        ComparisonOp::Divisible => "Divisible"@,
    }
}

/// The debugging form of a number.
pub open spec fn number_debug(n: Number) -> Seq<char> {
    match n {
        Number::Int(i) => "Int("@ + int_decimal(i as int) + ")"@,
        Number::UInt(u) => "UInt("@ + nat_decimal(u as nat) + ")"@,
    }
}

/// The debugging form of a runtime error; a parse error shows the
/// message of its kind.
pub open spec fn runtime_error_debug(e: SpecRuntimeError) -> Seq<char> {
    match e {
        SpecRuntimeError::SendError => "SendError"@,
        SpecRuntimeError::ReceiveError => "ReceiveError"@,
        SpecRuntimeError::SendControlError => "SendControlError"@,
        SpecRuntimeError::ReceiveControlError => "ReceiveControlError"@,
        SpecRuntimeError::ParseError(p) => "ParseError("@ + error_kind_text(p.kind) + ")"@,
        SpecRuntimeError::DivisionByZero => "DivisionByZero"@,
        SpecRuntimeError::InvalidAgentDefinition => "InvalidAgentDefinition"@,
        SpecRuntimeError::AgentNotFound => "AgentNotFound"@,
        SpecRuntimeError::AgentNotRegistered => "AgentNotRegistered"@,
        SpecRuntimeError::TypeMismatch(s) => "TypeMismatch("@ + str_debug_text(s) + ")"@,
        SpecRuntimeError::NameNotFound(s) => "NameNotFound("@ + str_debug_text(s) + ")"@,
        SpecRuntimeError::InvalidArguments(s) => "InvalidArguments("@ + str_debug_text(s) + ")"@,
        SpecRuntimeError::AssertionFailed(s) => "AssertionFailed("@ + str_debug_text(s) + ")"@,
        SpecRuntimeError::HandlerNotFound(s) => "HandlerNotFound("@ + str_debug_text(s) + ")"@,
        SpecRuntimeError::ExternalServiceError => "ExternalServiceError"@,
    }
}

/// The debugging form of a value. A channel shows the last eight digits
/// of its identity; blocks, bytes and embedded blocks show their kind.
pub open spec fn value_debug(v: SpecValue) -> Seq<char>
    decreases v, 0int,
{
    match v {
        SpecValue::Empty => "Empty"@,
        SpecValue::Error(e) => "Error("@ + runtime_error_debug(e) + ")"@,
        SpecValue::Channel(c) => "Channel(Channel("@ + uuid_text(c.id).subrange(28, 36) + "))"@,
        SpecValue::Boolean(b) => "Boolean("@ + bool_text(b) + ")"@,
        SpecValue::Word(w) => "Word("@ + str_debug_text(w) + ")"@,
        SpecValue::String(s) => "String("@ + str_debug_text(s) + ")"@,
        SpecValue::Number(n) => "Number("@ + number_debug(n) + ")"@,
        SpecValue::List(vs) => "List("@ + values_debug(vs) + ")"@,
        SpecValue::Block(_) => "Block(..)"@,
        SpecValue::Bytes(_) => "Bytes(..)"@,
        SpecValue::Embedded(_) => "Embedded(..)"@,
    }
}

/// The debugging form of a list of values: `[`, the values separated by
/// `, `, and `]`.
pub open spec fn values_debug(vs: Seq<SpecValue>) -> Seq<char>
    decreases vs, 1int,
{
    "["@ + joined_debug(vs, vs.len() as int) + "]"@
}

/// The debugging forms of the first `n` values, separated by `, `.
pub open spec fn joined_debug(vs: Seq<SpecValue>, n: int) -> Seq<char>
    decreases vs, 0int, n,
{
    if n <= 0 || n > vs.len() {
        Seq::empty()
    } else if n == 1 {
        value_debug(vs[0])
    } else {
        joined_debug(vs, n - 1) + ", "@ + value_debug(vs[n - 1])
    }
}

/// The debugging form of the first of a list of values, as an option:
/// `Some(..)` around it, or `None` for an empty list.
pub open spec fn first_debug(vs: Seq<SpecValue>) -> Seq<char> {
    if vs.len() > 0 {
        "Some("@ + value_debug(vs[0]) + ")"@
    } else {
        "None"@
    }
}

/// The debugging form of a pattern term.
pub open spec fn type_expr_debug(t: SpecTypeExpr) -> Seq<char> {
    match t {
        SpecTypeExpr::Empty => "Empty"@,
        SpecTypeExpr::Type(vt) => "Type("@ + value_type_debug(vt) + ")"@,
        SpecTypeExpr::Word(w) => "Word("@ + str_debug_text(w) + ")"@,
        SpecTypeExpr::Hole(h) => "Hole("@ + str_debug_text(h) + ")"@,
        SpecTypeExpr::TypeHole(h, vt) => "TypeHole("@ + str_debug_text(h) + ", "@ + value_type_debug(vt) + ")"@,
        SpecTypeExpr::BlockHole(h) => "BlockHole("@ + str_debug_text(h) + ")"@,
        SpecTypeExpr::Value(v) => "Value("@ + value_debug(v) + ")"@,
        SpecTypeExpr::Binary(h, op, v) => "Binary("@ + str_debug_text(h) + ", "@ + comparison_debug(op) + ", "@ + value_debug(v)
            + ")"@,
    }
}

fn push_value_type_debug(out: &mut String, t: &ValueType)
    ensures
        final(out)@ == old(out)@ + value_type_debug(t@),
{
    match t {
        ValueType::User(n) => {
            push_all(out, "User(");
            let d = debug_str(n.as_str());
            push_all(out, d.as_str());
            push_all(out, ")");
        },
        _ => {
            let d = t.to_text();
            push_all(out, d.as_str());
        },
    }
}

fn push_comparison_debug(out: &mut String, op: ComparisonOp)
    ensures
        final(out)@ == old(out)@ + comparison_debug(op),
{
    match op {
        ComparisonOp::Eq => push_all(out, "Eq"),
        ComparisonOp::Ne => push_all(out, "Ne"),
        ComparisonOp::Gt => push_all(out, "Gt"),
        ComparisonOp::Ge => push_all(out, "Ge"),
        ComparisonOp::Lt => push_all(out, "Lt"),
        ComparisonOp::Le => push_all(out, "Le"),
        ComparisonOp::Divisible => push_all(out, "Divisible"),
    }
}

fn push_quoted(out: &mut String, s: &String)
    ensures
        final(out)@ == old(out)@ + str_debug_text(s@),
{
    let d = debug_str(s.as_str());
    push_all(out, d.as_str());
}

fn push_runtime_error_debug(out: &mut String, e: &RuntimeError)
    ensures
        final(out)@ == old(out)@ + runtime_error_debug(e@),
{
    match e {
        RuntimeError::SendError => push_all(out, "SendError"),
        RuntimeError::ReceiveError => push_all(out, "ReceiveError"),
        RuntimeError::SendControlError => push_all(out, "SendControlError"),
        RuntimeError::ReceiveControlError => push_all(out, "ReceiveControlError"),
        RuntimeError::ParseError(p) => {
            push_all(out, "ParseError(");
            let k = p.kind.to_text();
            push_all(out, k.as_str());
            push_all(out, ")");
        },
        RuntimeError::DivisionByZero => push_all(out, "DivisionByZero"),
        RuntimeError::InvalidAgentDefinition => push_all(out, "InvalidAgentDefinition"),
        RuntimeError::AgentNotFound => push_all(out, "AgentNotFound"),
        RuntimeError::AgentNotRegistered => push_all(out, "AgentNotRegistered"),
        RuntimeError::TypeMismatch(s) => {
            push_all(out, "TypeMismatch(");
            push_quoted(out, s);
            push_all(out, ")");
        },
        RuntimeError::NameNotFound(s) => {
            push_all(out, "NameNotFound(");
            push_quoted(out, s);
            push_all(out, ")");
        },
        RuntimeError::InvalidArguments(s) => {
            push_all(out, "InvalidArguments(");
            push_quoted(out, s);
            push_all(out, ")");
        },
        RuntimeError::AssertionFailed(s) => {
            push_all(out, "AssertionFailed(");
            push_quoted(out, s);
            push_all(out, ")");
        },
        RuntimeError::HandlerNotFound(s) => {
            push_all(out, "HandlerNotFound(");
            push_quoted(out, s);
            push_all(out, ")");
        },
        RuntimeError::ExternalServiceError => push_all(out, "ExternalServiceError"),
    }
}

/// Appends the debugging form of a value (see [`value_debug`]).
pub fn push_value_debug(out: &mut String, v: &Value)
    ensures
        final(out)@ == old(out)@ + value_debug(v@),
    decreases *v,
{
    let ghost start = out@;
    match v {
        Value::Empty => push_all(out, "Empty"),
        Value::Error(e) => {
            push_all(out, "Error(");
            push_runtime_error_debug(out, e);
            push_all(out, ")");
        },
        Value::Channel(c) => {
            push_all(out, "Channel(");
            let d = c.digest_text();
            push_all(out, d.as_str());
            push_all(out, ")");
        },
        Value::Boolean(b) => {
            push_all(out, "Boolean(");
            if *b {
                push_all(out, "true");
            } else {
                push_all(out, "false");
            }
            push_all(out, ")");
        },
        Value::Word(w) => {
            push_all(out, "Word(");
            push_quoted(out, w);
            push_all(out, ")");
        },
        Value::String(s) => {
            push_all(out, "String(");
            push_quoted(out, s);
            push_all(out, ")");
        },
        Value::Number(n) => {
            push_all(out, "Number(");
            match n {
                Number::Int(i) => {
                    push_all(out, "Int(");
                    push_i64_decimal(out, *i);
                },
                Number::UInt(u) => {
                    push_all(out, "UInt(");
                    push_u64_decimal(out, *u);
                },
            }
            push_all(out, "))");
        },
        Value::List(vs) => {
            push_all(out, "List(");
            push_values_debug(out, vs);
            push_all(out, ")");
        },
        Value::Block(_) => push_all(out, "Block(..)"),
        Value::Bytes(_) => push_all(out, "Bytes(..)"),
        Value::Embedded(_) => push_all(out, "Embedded(..)"),
    }
    proof {
        reveal_strlit("Channel(Channel(");
        reveal_strlit("Channel(");
        reveal_strlit("))");
        reveal_strlit(")");
        assert(out@ =~= start + value_debug(v@));
    }
}

/// Appends the debugging form of a list of values (see [`values_debug`]).
pub fn push_values_debug(out: &mut String, vs: &Vec<Value>)
    ensures
        final(out)@ == old(out)@ + values_debug(values_of(vs@)),
    decreases *vs,
{
    proof {
        lemma_values_of(vs@);
    }
    let ghost sv = values_of(vs@);
    let ghost start = out@;
    push_all(out, "[");
    let mut i: usize = 0;
    while i < vs.len()
        invariant
            i <= vs@.len(),
            sv == values_of(vs@),
            sv.len() == vs@.len(),
            forall|j: int| 0 <= j < vs@.len() ==> #[trigger] sv[j] == vs@[j]@,
            out@ == start + "["@ + joined_debug(sv, i as int),
        decreases vs@.len() - i,
    {
        if i > 0 {
            push_all(out, ", ");
        }
        push_value_debug(out, &vs[i]);
        proof {
            if i == 0 {
                assert(joined_debug(sv, 0) =~= Seq::<char>::empty());
            }
            assert(out@ =~= start + "["@ + joined_debug(sv, i + 1));
        }
        i += 1;
    }
    push_all(out, "]");
    proof {
        assert(out@ =~= start + values_debug(sv));
    }
}

/// Appends the debugging form of the first of a list of values (see
/// [`first_debug`]).
pub fn push_first_debug(out: &mut String, vs: &Vec<Value>)
    ensures
        final(out)@ == old(out)@ + first_debug(values_of(vs@)),
{
    proof {
        lemma_values_of(vs@);
    }
    let ghost start = out@;
    if vs.len() > 0 {
        push_all(out, "Some(");
        push_value_debug(out, &vs[0]);
        push_all(out, ")");
    } else {
        push_all(out, "None");
    }
    proof {
        assert(out@ =~= start + first_debug(values_of(vs@)));
    }
}

/// The debugging form of a value, as a new string.
pub fn value_debug_string(v: &Value) -> (r: String)
    ensures
        r@ == value_debug(v@),
{
    let mut s = String::new();
    push_value_debug(&mut s, v);
    proof {
        assert(s@ =~= value_debug(v@));
    }
    s
}

/// Appends the debugging form of a pattern term (see [`type_expr_debug`]).
pub fn push_type_expr_debug(out: &mut String, t: &TypeExpr)
    ensures
        final(out)@ == old(out)@ + type_expr_debug(t@),
{
    let ghost start = out@;
    match t {
        TypeExpr::Empty => push_all(out, "Empty"),
        TypeExpr::Type(vt) => {
            push_all(out, "Type(");
            push_value_type_debug(out, vt);
            push_all(out, ")");
        },
        TypeExpr::Word(w) => {
            push_all(out, "Word(");
            push_quoted(out, w);
            push_all(out, ")");
        },
        TypeExpr::Hole(h) => {
            push_all(out, "Hole(");
            push_quoted(out, h);
            push_all(out, ")");
        },
        TypeExpr::TypeHole(h, vt) => {
            push_all(out, "TypeHole(");
            push_quoted(out, h);
            push_all(out, ", ");
            push_value_type_debug(out, vt);
            push_all(out, ")");
        },
        TypeExpr::BlockHole(h) => {
            push_all(out, "BlockHole(");
            push_quoted(out, h);
            push_all(out, ")");
        },
        TypeExpr::Value(v) => {
            push_all(out, "Value(");
            push_value_debug(out, v);
            push_all(out, ")");
        },
        TypeExpr::Binary(h, op, v) => {
            push_all(out, "Binary(");
            push_quoted(out, h);
            push_all(out, ", ");
            push_comparison_debug(out, *op);
            push_all(out, ", ");
            push_value_debug(out, v);
            push_all(out, ")");
        },
    }
    proof {
        assert(out@ =~= start + type_expr_debug(t@));
    }
}

} // verus!
