//! Integer numbers of the language and their arithmetic.
use vstd::prelude::*;
use crate::text::{int_decimal, push_i64_decimal, push_u64_decimal};

verus! {

/// A number of the language: a signed or an unsigned 64-bit integer.
#[derive(Debug, Clone, Copy, PartialEq, Eq, Structural, Hash)]
pub enum Number {
    Int(i64),
    UInt(u64),
}

/// The arithmetic operators that act on two numbers.
#[derive(Debug, Clone, Copy, PartialEq, Eq, Structural, Hash)]
pub enum NumOp {
    Add,
    Sub,
    Mul,
    Div,
    Rem,
}

/// The result of `a op b` where both are numbers of the same kind and the
/// operation stays in range; `None` where Rust's own operator would panic:
/// numbers of different kinds, overflow, or a zero divisor.
pub open spec fn spec_arith(op: NumOp, a: Number, b: Number) -> Option<Number> {
    match (a, b) {
        (Number::Int(x), Number::Int(y)) => {
            let r = match op {
                NumOp::Add => x.checked_add(y),
                NumOp::Sub => x.checked_sub(y),
                NumOp::Mul => x.checked_mul(y),
                NumOp::Div => x.checked_div(y),
                NumOp::Rem => x.checked_rem(y),
            };
            match r {
                Some(v) => Some(Number::Int(v)),
                None => None,
            }
        },
        (Number::UInt(x), Number::UInt(y)) => {
            let r = match op {
                NumOp::Add => x.checked_add(y),
                NumOp::Sub => x.checked_sub(y),
                NumOp::Mul => x.checked_mul(y),
                NumOp::Div => x.checked_div(y),
                NumOp::Rem => x.checked_rem(y),
            };
            match r {
                Some(v) => Some(Number::UInt(v)),
                None => None,
            }
        },
        _ => None,
    }
}

/// The mathematical value of a number.
pub open spec fn num_value(n: Number) -> int {
    match n {
        Number::Int(i) => i as int,
        Number::UInt(u) => u as int,
    }
}

/// The decimal text of a number, as `Display` renders it.
pub open spec fn number_text(n: Number) -> Seq<char> {
    int_decimal(num_value(n))
}

impl Number {
    /// Whether the number is zero.
    pub fn is_zero(&self) -> (r: bool)
        ensures
            r == (num_value(*self) == 0),
    {
        match self {
            Number::Int(i) => *i == 0,
            Number::UInt(u) => *u == 0,
        }
    }

    /// Applies an arithmetic operator; `None` exactly where the language's
    /// own operator would panic (see [`spec_arith`]).
    pub fn arith(self, op: NumOp, other: Number) -> (r: Option<Number>)
        ensures
            r == spec_arith(op, self, other),
    {
        match (self, other) {
            (Number::Int(x), Number::Int(y)) => {
                let r = match op {
                    NumOp::Add => x.checked_add(y),
                    NumOp::Sub => x.checked_sub(y),
                    NumOp::Mul => x.checked_mul(y),
                    NumOp::Div => x.checked_div(y),
                    NumOp::Rem => x.checked_rem(y),
                };
                match r {
                    Some(v) => Some(Number::Int(v)),
                    None => None,
                }
            },
            (Number::UInt(x), Number::UInt(y)) => {
                let r = match op {
                    NumOp::Add => x.checked_add(y),
                    NumOp::Sub => x.checked_sub(y),
                    NumOp::Mul => x.checked_mul(y),
                    NumOp::Div => x.checked_div(y),
                    NumOp::Rem => x.checked_rem(y),
                };
                match r {
                    Some(v) => Some(Number::UInt(v)),
                    None => None,
                }
            },
            _ => None,
        }
    }

    /// The sum of two numbers of the same kind.
    pub fn add(self, other: Number) -> (r: Number)
        requires
            spec_arith(NumOp::Add, self, other) is Some,
        ensures
            Some(r) == spec_arith(NumOp::Add, self, other),
            num_value(r) == num_value(self) + num_value(other),
    {
        self.arith(NumOp::Add, other).unwrap()
    }

    /// The difference of two numbers of the same kind.
    pub fn sub(self, other: Number) -> (r: Number)
        requires
            spec_arith(NumOp::Sub, self, other) is Some,
        ensures
            Some(r) == spec_arith(NumOp::Sub, self, other),
            num_value(r) == num_value(self) - num_value(other),
    {
        self.arith(NumOp::Sub, other).unwrap()
    }

    /// The product of two numbers of the same kind.
    pub fn mul(self, other: Number) -> (r: Number)
        requires
            spec_arith(NumOp::Mul, self, other) is Some,
        ensures
            Some(r) == spec_arith(NumOp::Mul, self, other),
            num_value(r) == num_value(self) * num_value(other),
    {
        self.arith(NumOp::Mul, other).unwrap()
    }

    /// The quotient, rounded toward zero, of two numbers of the same kind.
    pub fn div(self, other: Number) -> (r: Number)
        requires
            spec_arith(NumOp::Div, self, other) is Some,
        ensures
            Some(r) == spec_arith(NumOp::Div, self, other),
    {
        self.arith(NumOp::Div, other).unwrap()
    }

    /// The remainder, with the sign of the dividend, of two numbers of the
    /// same kind.
    pub fn rem(self, other: Number) -> (r: Number)
        requires
            spec_arith(NumOp::Rem, self, other) is Some,
        ensures
            Some(r) == spec_arith(NumOp::Rem, self, other),
    {
        self.arith(NumOp::Rem, other).unwrap()
    }

    /// Appends the decimal text of the number to `out`.
    pub fn write_text(&self, out: &mut String)
        ensures
            final(out)@ == old(out)@ + number_text(*self),
    {
        match self {
            Number::Int(i) => push_i64_decimal(out, *i),
            Number::UInt(u) => push_u64_decimal(out, *u),
        }
    }

    /// The decimal text of the number (what `Display` prints).
    pub fn to_text(&self) -> (r: String)
        ensures
            r@ == number_text(*self),
    {
        let mut s = String::new();
        self.write_text(&mut s);
        assert(s@ =~= number_text(*self));
        s
    }
}

/// Adding a number and then subtracting it again gives back the first
/// number, whenever the sum is in range.
pub proof fn lemma_add_then_sub(a: Number, b: Number)
    requires
        spec_arith(NumOp::Add, a, b) is Some,
    ensures
        spec_arith(NumOp::Sub, spec_arith(NumOp::Add, a, b).unwrap(), b) == Some(a),
{
}

/// Addition of numbers is commutative, in range or out of it.
pub proof fn lemma_add_commutes(a: Number, b: Number)
    ensures
        spec_arith(NumOp::Add, a, b) == spec_arith(NumOp::Add, b, a),
{
}

} // verus!
