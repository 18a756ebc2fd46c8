//! The types that values have, and the subtype relation between them.
use vstd::prelude::*;
use crate::text::{text_of, copy_string};

verus! {

/// The type of a value.
#[derive(Debug, Clone, Hash)]
pub enum ValueType {
    User(String),
    Empty,
    Error,
    Channel,
    Boolean,
    Word,
    String,
    Number,
    List,
    Block,
    Bytes,
    EmbeddedBlock,
}

/// The mathematical form of a [`ValueType`].
pub enum SpecValueType {
    User(Seq<char>),
    Empty,
    Error,
    Channel,
    Boolean,
    Word,
    String,
    Number,
    List,
    Block,
    Bytes,
    EmbeddedBlock,
}

impl View for ValueType {
    type V = SpecValueType;

    open spec fn view(&self) -> SpecValueType {
        match self {
            ValueType::User(n) => SpecValueType::User(n@),
            ValueType::Empty => SpecValueType::Empty,
            ValueType::Error => SpecValueType::Error,
            ValueType::Channel => SpecValueType::Channel,
            ValueType::Boolean => SpecValueType::Boolean,
            ValueType::Word => SpecValueType::Word,
            ValueType::String => SpecValueType::String,
            ValueType::Number => SpecValueType::Number,
            ValueType::List => SpecValueType::List,
            ValueType::Block => SpecValueType::Block,
            ValueType::Bytes => SpecValueType::Bytes,
            ValueType::EmbeddedBlock => SpecValueType::EmbeddedBlock,
        }
    }
}

/// The subtype relation: `Empty` is below every type, every other type is
/// below itself only (user types by name).
pub open spec fn spec_value_subtype(a: SpecValueType, b: SpecValueType) -> bool {
    match (a, b) {
        (SpecValueType::Empty, _) => true,
        (SpecValueType::User(x), SpecValueType::User(y)) => x == y,
        (SpecValueType::User(_), _) => false,
        (_, SpecValueType::User(_)) => false,
        _ => a == b,
    }
}

/// The name that `Display` prints for a type.
pub open spec fn value_type_text(t: SpecValueType) -> Seq<char> {
    match t {
        SpecValueType::User(n) => n,
        SpecValueType::Empty => "Empty"@,
        SpecValueType::Error => "Error"@,
        SpecValueType::Channel => "Channel"@,
        SpecValueType::Boolean => "Boolean"@,
        SpecValueType::Word => "Word"@,
        SpecValueType::String => "String"@,
        SpecValueType::Number => "Number"@,
        SpecValueType::List => "List"@,
        SpecValueType::Block => "Block"@,
        SpecValueType::Bytes => "Bytes"@,
        SpecValueType::EmbeddedBlock => "EmbeddedBlock"@,
    }
}

/// Comparison of types: sameness and the subtype relation.
pub trait Typed {
    fn is_same_type(&self, other: &Self) -> bool;

    fn is_subtype_of(&self, other: &Self) -> bool;
}

impl Typed for ValueType {
    fn is_same_type(&self, other: &Self) -> (r: bool)
        ensures
            r == (self@ == other@),
    {
        match (self, other) {
            (ValueType::User(x), ValueType::User(y)) => *x == *y,
            (ValueType::Empty, ValueType::Empty) => true,
            (ValueType::Error, ValueType::Error) => true,
            (ValueType::Channel, ValueType::Channel) => true,
            (ValueType::Boolean, ValueType::Boolean) => true,
            (ValueType::Word, ValueType::Word) => true,
            (ValueType::String, ValueType::String) => true,
            (ValueType::Number, ValueType::Number) => true,
            (ValueType::List, ValueType::List) => true,
            (ValueType::Block, ValueType::Block) => true,
            (ValueType::Bytes, ValueType::Bytes) => true,
            (ValueType::EmbeddedBlock, ValueType::EmbeddedBlock) => true,
            _ => false,
        }
    }

    fn is_subtype_of(&self, other: &Self) -> (r: bool)
        ensures
            r == spec_value_subtype(self@, other@),
    {
        match self {
            ValueType::Empty => true,
            _ => self.is_same_type(other),
        }
    }
}

impl ValueType {
    /// A copy of the type.
    pub fn duplicate(&self) -> (r: ValueType)
        ensures
            r@ == self@,
    {
        match self {
            ValueType::User(n) => ValueType::User(copy_string(n)),
            ValueType::Empty => ValueType::Empty,
            ValueType::Error => ValueType::Error,
            ValueType::Channel => ValueType::Channel,
            ValueType::Boolean => ValueType::Boolean,
            ValueType::Word => ValueType::Word,
            ValueType::String => ValueType::String,
            ValueType::Number => ValueType::Number,
            ValueType::List => ValueType::List,
            ValueType::Block => ValueType::Block,
            ValueType::Bytes => ValueType::Bytes,
            ValueType::EmbeddedBlock => ValueType::EmbeddedBlock,
        }
    }

    /// The name of the type, as `Display` prints it.
    pub fn to_text(&self) -> (r: String)
        ensures
            r@ == value_type_text(self@),
    {
        match self {
            ValueType::User(n) => copy_string(n),
            ValueType::Empty => text_of("Empty"),
            ValueType::Error => text_of("Error"),
            ValueType::Channel => text_of("Channel"),
            ValueType::Boolean => text_of("Boolean"),
            ValueType::Word => text_of("Word"),
            ValueType::String => text_of("String"),
            ValueType::Number => text_of("Number"),
            ValueType::List => text_of("List"),
            ValueType::Block => text_of("Block"),
            ValueType::Bytes => text_of("Bytes"),
            ValueType::EmbeddedBlock => text_of("EmbeddedBlock"),
        }
    }
}

impl Default for ValueType {
    fn default() -> (r: ValueType)
        ensures
            r@ == SpecValueType::Empty,
    {
        ValueType::Empty
    }
}

/// Every type is a subtype of itself.
pub proof fn lemma_subtype_reflexive(t: SpecValueType)
    ensures
        spec_value_subtype(t, t),
{
}

/// The subtype relation is transitive.
pub proof fn lemma_subtype_transitive(a: SpecValueType, b: SpecValueType, c: SpecValueType)
    requires
        spec_value_subtype(a, b),
        spec_value_subtype(b, c),
    ensures
        spec_value_subtype(a, c),
{
}

/// Two types that are subtypes of each other are the same type.
pub proof fn lemma_subtype_antisymmetric(a: SpecValueType, b: SpecValueType)
    requires
        spec_value_subtype(a, b),
        spec_value_subtype(b, a),
    ensures
        a == b,
{
}

} // verus!
