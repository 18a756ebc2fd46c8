//! The operators of the language.
use vstd::prelude::*;
use crate::text::text_of;

verus! {

/// A comparison that a predicate hole applies to a value.
#[derive(Debug, Clone, Copy, PartialEq, Eq, Structural, Hash)]
pub enum ComparisonOp {
    Eq,
    Ne,
    Gt,
    Ge,
    Lt,
    Le,
    Divisible,
}

/// A binary operator of expressions.
#[derive(Debug, Clone, Copy, PartialEq, Eq, Structural, Hash)]
pub enum BinaryOp {
    Add,
    Sub,
    Mul,
    Div,
    Mod,
    And,
    Or,
    Eq,
    Ne,
    Access,
}

/// A unary operator.
#[derive(Debug, Clone, Copy, PartialEq, Eq, Structural, Hash)]
pub enum UnaryOp {
    Neg,
    Not,
    Inc,
    Dec,
}

/// The symbol of a comparison, as `Display` prints it.
pub open spec fn comparison_text(op: ComparisonOp) -> Seq<char> {
    match op {
        ComparisonOp::Eq => "=="@,
        ComparisonOp::Ne => "!="@,
        ComparisonOp::Gt => ">"@,
        ComparisonOp::Ge => ">="@,
        ComparisonOp::Lt => "<"@,
        ComparisonOp::Le => "<="@,
        ComparisonOp::Divisible => "%%"@,
    }
}

impl ComparisonOp {
    /// The symbol of the comparison.
    pub fn to_text(&self) -> (r: String)
        ensures
            r@ == comparison_text(*self),
    {
        match self {
            ComparisonOp::Eq => text_of("=="),
            ComparisonOp::Ne => text_of("!="),
            ComparisonOp::Gt => text_of(">"),
            ComparisonOp::Ge => text_of(">="),
            ComparisonOp::Lt => text_of("<"),
            ComparisonOp::Le => text_of("<="),
            ComparisonOp::Divisible => text_of("%%"),
        }
    }
}

} // verus!
