//! Errors: what a parser reports, and what a running program produces as
//! an error value.
use vstd::prelude::*;
use crate::text::{text_of, copy_string, push_all, push_char};

verus! {

/// What went wrong while parsing.
#[derive(Debug, Clone, Hash)]
pub enum ErrorKind {
    InvalidSyntax,
    UnexpectedToken(String),
    UnexpectedEndOfInput,
    InvalidCharacter(char),
    InvalidNumberFormat,
    InvalidStringFormat,
    InvalidIdentifier(String),
    InvalidOperator(String),
    InvalidType(String),
    UnexpectedEndOfEmbeddedBlock,
}

/// The mathematical form of an [`ErrorKind`].
pub enum SpecErrorKind {
    InvalidSyntax,
    UnexpectedToken(Seq<char>),
    UnexpectedEndOfInput,
    InvalidCharacter(char),
    InvalidNumberFormat,
    InvalidStringFormat,
    InvalidIdentifier(Seq<char>),
    InvalidOperator(Seq<char>),
    InvalidType(Seq<char>),
    UnexpectedEndOfEmbeddedBlock,
}

impl View for ErrorKind {
    type V = SpecErrorKind;

    open spec fn view(&self) -> SpecErrorKind {
        match self {
            ErrorKind::InvalidSyntax => SpecErrorKind::InvalidSyntax,
            ErrorKind::UnexpectedToken(s) => SpecErrorKind::UnexpectedToken(s@),
            ErrorKind::UnexpectedEndOfInput => SpecErrorKind::UnexpectedEndOfInput,
            ErrorKind::InvalidCharacter(c) => SpecErrorKind::InvalidCharacter(*c),
            ErrorKind::InvalidNumberFormat => SpecErrorKind::InvalidNumberFormat,
            ErrorKind::InvalidStringFormat => SpecErrorKind::InvalidStringFormat,
            ErrorKind::InvalidIdentifier(s) => SpecErrorKind::InvalidIdentifier(s@),
            ErrorKind::InvalidOperator(s) => SpecErrorKind::InvalidOperator(s@),
            ErrorKind::InvalidType(s) => SpecErrorKind::InvalidType(s@),
            ErrorKind::UnexpectedEndOfEmbeddedBlock => SpecErrorKind::UnexpectedEndOfEmbeddedBlock,
        }
    }
}

/// The message of a parse error kind.
pub open spec fn error_kind_text(k: SpecErrorKind) -> Seq<char> {
    match k {
        SpecErrorKind::InvalidSyntax => "Invalid syntax"@,
        SpecErrorKind::UnexpectedToken(s) => "Unexpected token: "@ + s,
        SpecErrorKind::UnexpectedEndOfInput => "Unexpected end of input"@,
        SpecErrorKind::InvalidCharacter(c) => "Invalid character: "@.push(c),
        SpecErrorKind::InvalidNumberFormat => "Invalid number format"@,
        SpecErrorKind::InvalidStringFormat => "Invalid string format"@,
        SpecErrorKind::InvalidIdentifier(s) => "Invalid identifier: "@ + s,
        SpecErrorKind::InvalidOperator(s) => "Invalid operator: "@ + s,
        SpecErrorKind::InvalidType(s) => "Invalid type: "@ + s,
        SpecErrorKind::UnexpectedEndOfEmbeddedBlock => "Unexpected end of block"@,
    }
}

impl ErrorKind {
    /// Whether two error kinds are the same.
    pub fn same(&self, other: &ErrorKind) -> (r: bool)
        ensures
            r == (self@ == other@),
    {
        match (self, other) {
            (ErrorKind::InvalidSyntax, ErrorKind::InvalidSyntax) => true,
            (ErrorKind::UnexpectedToken(a), ErrorKind::UnexpectedToken(b)) => *a == *b,
            (ErrorKind::UnexpectedEndOfInput, ErrorKind::UnexpectedEndOfInput) => true,
            (ErrorKind::InvalidCharacter(a), ErrorKind::InvalidCharacter(b)) => *a == *b,
            (ErrorKind::InvalidNumberFormat, ErrorKind::InvalidNumberFormat) => true,
            (ErrorKind::InvalidStringFormat, ErrorKind::InvalidStringFormat) => true,
            (ErrorKind::InvalidIdentifier(a), ErrorKind::InvalidIdentifier(b)) => *a == *b,
            (ErrorKind::InvalidOperator(a), ErrorKind::InvalidOperator(b)) => *a == *b,
            (ErrorKind::InvalidType(a), ErrorKind::InvalidType(b)) => *a == *b,
            (ErrorKind::UnexpectedEndOfEmbeddedBlock, ErrorKind::UnexpectedEndOfEmbeddedBlock) => true,
            _ => false,
        }
    }

    /// A copy of the error kind.
    pub fn duplicate(&self) -> (r: ErrorKind)
        ensures
            r@ == self@,
    {
        match self {
            ErrorKind::InvalidSyntax => ErrorKind::InvalidSyntax,
            ErrorKind::UnexpectedToken(s) => ErrorKind::UnexpectedToken(copy_string(s)),
            ErrorKind::UnexpectedEndOfInput => ErrorKind::UnexpectedEndOfInput,
            ErrorKind::InvalidCharacter(c) => ErrorKind::InvalidCharacter(*c),
            ErrorKind::InvalidNumberFormat => ErrorKind::InvalidNumberFormat,
            ErrorKind::InvalidStringFormat => ErrorKind::InvalidStringFormat,
            ErrorKind::InvalidIdentifier(s) => ErrorKind::InvalidIdentifier(copy_string(s)),
            ErrorKind::InvalidOperator(s) => ErrorKind::InvalidOperator(copy_string(s)),
            ErrorKind::InvalidType(s) => ErrorKind::InvalidType(copy_string(s)),
            ErrorKind::UnexpectedEndOfEmbeddedBlock => ErrorKind::UnexpectedEndOfEmbeddedBlock,
        }
    }

    /// The message of the error kind.
    pub fn to_text(&self) -> (r: String)
        ensures
            r@ == error_kind_text(self@),
    {
        let mut out;
        match self {
            ErrorKind::InvalidSyntax => { out = text_of("Invalid syntax"); },
            ErrorKind::UnexpectedToken(s) => {
                out = text_of("Unexpected token: ");
                push_all(&mut out, s.as_str());
            },
            ErrorKind::UnexpectedEndOfInput => { out = text_of("Unexpected end of input"); },
            ErrorKind::InvalidCharacter(c) => {
                out = text_of("Invalid character: ");
                push_char(&mut out, *c);
            },
            ErrorKind::InvalidNumberFormat => { out = text_of("Invalid number format"); },
            ErrorKind::InvalidStringFormat => { out = text_of("Invalid string format"); },
            ErrorKind::InvalidIdentifier(s) => {
                out = text_of("Invalid identifier: ");
                push_all(&mut out, s.as_str());
            },
            ErrorKind::InvalidOperator(s) => {
                out = text_of("Invalid operator: ");
                push_all(&mut out, s.as_str());
            },
            ErrorKind::InvalidType(s) => {
                out = text_of("Invalid type: ");
                push_all(&mut out, s.as_str());
            },
            ErrorKind::UnexpectedEndOfEmbeddedBlock => { out = text_of("Unexpected end of block"); },
        }
        out
    }
}

/// A parse error: the named source it was found in, the span of the
/// offending text, and what went wrong.
#[derive(Debug, Clone, Hash)]
pub struct ParserError {
    pub source_name: String,
    pub source: String,
    pub offset: usize,
    pub len: usize,
    pub kind: ErrorKind,
}

/// The mathematical form of a [`ParserError`].
pub struct SpecParserError {
    pub source_name: Seq<char>,
    pub source: Seq<char>,
    pub offset: nat,
    pub len: nat,
    pub kind: SpecErrorKind,
}

impl View for ParserError {
    type V = SpecParserError;

    open spec fn view(&self) -> SpecParserError {
        SpecParserError {
            source_name: self.source_name@,
            source: self.source@,
            offset: self.offset as nat,
            len: self.len as nat,
            kind: self.kind@,
        }
    }
}

impl ParserError {
    /// Whether two parse errors are the same.
    pub fn same(&self, other: &ParserError) -> (r: bool)
        ensures
            r == (self@ == other@),
    {
        self.source_name == other.source_name && self.source == other.source && self.offset == other.offset
            && self.len == other.len && self.kind.same(&other.kind)
    }

    /// A parse error at `offset` in the named source, over a fragment of
    /// `fragment_len` characters; the span covers at least one character.
    pub fn new(kind: ErrorKind, source_name: String, source: String, offset: usize, fragment_len: usize) -> (r: ParserError)
        ensures
            r.kind@ == kind@,
            r.source_name@ == source_name@,
            r.source@ == source@,
            r.offset == offset,
            r.len == if fragment_len >= 1 { fragment_len } else { 1 },
    {
        let len = if fragment_len >= 1 { fragment_len } else { 1 };
        ParserError { source_name, source, offset, len, kind }
    }

    /// A parse error over a span of a named source: at the span's offset,
    /// covering its fragment (at least one byte).
    pub fn from_span(kind: ErrorKind, input: &Span) -> (r: ParserError)
        ensures
            r.kind@ == kind@,
            r.source_name@ == input.source_name@,
            r.source@ == input.source@,
            r.offset == input.offset,
            r.len == if input.fragment.len() >= 1 { input.fragment.len() } else { 1 },
    {
        let n = input.fragment.len();
        ParserError::new(kind, copy_string(&input.source_name), copy_string(&input.source), input.offset, n)
    }

    /// The error for a span where a parser of the given kind failed: the
    /// span's fragment is an unexpected token.
    pub fn from_error_kind(input: &Span) -> (r: ParserError)
        ensures
            r.kind@ == SpecErrorKind::UnexpectedToken(input.fragment@),
            r.source_name@ == input.source_name@,
            r.source@ == input.source@,
            r.offset == input.offset,
            r.len == if input.fragment.len() >= 1 { input.fragment.len() } else { 1 },
    {
        let token = input.fragment.to_owned();
        ParserError::from_span(ErrorKind::UnexpectedToken(token), input)
    }

    /// Adding context to an error keeps the error as it is.
    pub fn append(other: ParserError) -> (r: ParserError)
        ensures
            r == other,
    {
        other
    }

    /// The error for a span where an expected character was missing: the
    /// span's fragment is an unexpected token.
    pub fn from_char(input: &Span, c: char) -> (r: ParserError)
        ensures
            r.kind@ == SpecErrorKind::UnexpectedToken(input.fragment@),
            r.source_name@ == input.source_name@,
            r.source@ == input.source@,
            r.offset == input.offset,
            r.len == if input.fragment.len() >= 1 { input.fragment.len() } else { 1 },
    {
        ParserError::from_error_kind(input)
    }

    /// The error for a span where converting what was read failed: invalid
    /// syntax.
    pub fn from_external_error(input: &Span) -> (r: ParserError)
        ensures
            r.kind@ == SpecErrorKind::InvalidSyntax,
            r.source_name@ == input.source_name@,
            r.source@ == input.source@,
            r.offset == input.offset,
            r.len == if input.fragment.len() >= 1 { input.fragment.len() } else { 1 },
    {
        ParserError::from_span(ErrorKind::InvalidSyntax, input)
    }

    /// A copy of the error.
    pub fn duplicate(&self) -> (r: ParserError)
        ensures
            r@ == self@,
    {
        ParserError {
            source_name: copy_string(&self.source_name),
            source: copy_string(&self.source),
            offset: self.offset,
            len: self.len,
            kind: self.kind.duplicate(),
        }
    }

    /// The message of the error: that of its kind.
    pub fn to_text(&self) -> (r: String)
        ensures
            r@ == error_kind_text(self.kind@),
    {
        self.kind.to_text()
    }
}

/// A located piece of a named source: the source, the offset of the
/// piece in it, and the piece itself.
#[derive(Debug)]
pub struct Span<'a> {
    pub source_name: String,
    pub source: String,
    pub offset: usize,
    pub fragment: &'a str,
}

/// The span of nothing, in an empty source named `<empty>`, for errors
/// at the end of the input.
pub fn empty_span() -> (r: Span<'static>)
    ensures
        r.source_name@ == "<empty>"@,
        r.source@.len() == 0,
        r.offset == 0,
        r.fragment@ == ""@,
{
    Span { source_name: text_of("<empty>"), source: String::new(), offset: 0, fragment: "" }
}

/// An error that a running program produces.
#[derive(Debug, Clone, Hash)]
pub enum RuntimeError {
    SendError,
    ReceiveError,
    SendControlError,
    ReceiveControlError,
    ParseError(ParserError),
    DivisionByZero,
    InvalidAgentDefinition,
    AgentNotFound,
    AgentNotRegistered,
    TypeMismatch(String),
    NameNotFound(String),
    InvalidArguments(String),
    AssertionFailed(String),
    HandlerNotFound(String),
    ExternalServiceError,
}

/// The mathematical form of a [`RuntimeError`].
pub enum SpecRuntimeError {
    SendError,
    ReceiveError,
    SendControlError,
    ReceiveControlError,
    ParseError(SpecParserError),
    DivisionByZero,
    InvalidAgentDefinition,
    AgentNotFound,
    AgentNotRegistered,
    TypeMismatch(Seq<char>),
    NameNotFound(Seq<char>),
    InvalidArguments(Seq<char>),
    AssertionFailed(Seq<char>),
    HandlerNotFound(Seq<char>),
    ExternalServiceError,
}

impl View for RuntimeError {
    type V = SpecRuntimeError;

    open spec fn view(&self) -> SpecRuntimeError {
        match self {
            RuntimeError::SendError => SpecRuntimeError::SendError,
            RuntimeError::ReceiveError => SpecRuntimeError::ReceiveError,
            RuntimeError::SendControlError => SpecRuntimeError::SendControlError,
            RuntimeError::ReceiveControlError => SpecRuntimeError::ReceiveControlError,
            RuntimeError::ParseError(p) => SpecRuntimeError::ParseError(p@),
            RuntimeError::DivisionByZero => SpecRuntimeError::DivisionByZero,
            RuntimeError::InvalidAgentDefinition => SpecRuntimeError::InvalidAgentDefinition,
            RuntimeError::AgentNotFound => SpecRuntimeError::AgentNotFound,
            RuntimeError::AgentNotRegistered => SpecRuntimeError::AgentNotRegistered,
            RuntimeError::TypeMismatch(s) => SpecRuntimeError::TypeMismatch(s@),
            RuntimeError::NameNotFound(s) => SpecRuntimeError::NameNotFound(s@),
            RuntimeError::InvalidArguments(s) => SpecRuntimeError::InvalidArguments(s@),
            RuntimeError::AssertionFailed(s) => SpecRuntimeError::AssertionFailed(s@),
            RuntimeError::HandlerNotFound(s) => SpecRuntimeError::HandlerNotFound(s@),
            RuntimeError::ExternalServiceError => SpecRuntimeError::ExternalServiceError,
        }
    }
}

/// The message of a runtime error.
pub open spec fn runtime_error_text(e: SpecRuntimeError) -> Seq<char> {
    match e {
        SpecRuntimeError::SendError => "Failed to send message"@,
        SpecRuntimeError::ReceiveError => "Failed to receive message"@,
        SpecRuntimeError::SendControlError => "Failed to send control message"@,
        SpecRuntimeError::ReceiveControlError => "Failed to receive control message"@,
        SpecRuntimeError::ParseError(_) => "Failed to parse message"@,
        SpecRuntimeError::DivisionByZero => "Division by zero"@,
        SpecRuntimeError::InvalidAgentDefinition => "Invalid agent definition"@,
        SpecRuntimeError::AgentNotFound => "Agent not found"@,
        SpecRuntimeError::AgentNotRegistered => "Agent not registered"@,
        SpecRuntimeError::TypeMismatch(s) => "Type mismatch: "@ + s,
        SpecRuntimeError::NameNotFound(s) => "Name not found: "@ + s,
        SpecRuntimeError::InvalidArguments(s) => "Invalid arguments: "@ + s,
        SpecRuntimeError::AssertionFailed(s) => "Assertion failed: "@ + s,
        SpecRuntimeError::HandlerNotFound(s) => "Handler not found: "@ + s,
        SpecRuntimeError::ExternalServiceError => "External service error"@,
    }
}

impl RuntimeError {
    /// Whether two runtime errors are the same.
    pub fn same(&self, other: &RuntimeError) -> (r: bool)
        ensures
            r == (self@ == other@),
    {
        match (self, other) {
            (RuntimeError::SendError, RuntimeError::SendError) => true,
            (RuntimeError::ReceiveError, RuntimeError::ReceiveError) => true,
            (RuntimeError::SendControlError, RuntimeError::SendControlError) => true,
            (RuntimeError::ReceiveControlError, RuntimeError::ReceiveControlError) => true,
            (RuntimeError::ParseError(a), RuntimeError::ParseError(b)) => a.same(b),
            (RuntimeError::DivisionByZero, RuntimeError::DivisionByZero) => true,
            (RuntimeError::InvalidAgentDefinition, RuntimeError::InvalidAgentDefinition) => true,
            (RuntimeError::AgentNotFound, RuntimeError::AgentNotFound) => true,
            (RuntimeError::AgentNotRegistered, RuntimeError::AgentNotRegistered) => true,
            (RuntimeError::TypeMismatch(a), RuntimeError::TypeMismatch(b)) => *a == *b,
            (RuntimeError::NameNotFound(a), RuntimeError::NameNotFound(b)) => *a == *b,
            (RuntimeError::InvalidArguments(a), RuntimeError::InvalidArguments(b)) => *a == *b,
            (RuntimeError::AssertionFailed(a), RuntimeError::AssertionFailed(b)) => *a == *b,
            (RuntimeError::HandlerNotFound(a), RuntimeError::HandlerNotFound(b)) => *a == *b,
            (RuntimeError::ExternalServiceError, RuntimeError::ExternalServiceError) => true,
            _ => false,
        }
    }

    /// A copy of the error.
    pub fn duplicate(&self) -> (r: RuntimeError)
        ensures
            r@ == self@,
    {
        match self {
            RuntimeError::SendError => RuntimeError::SendError,
            RuntimeError::ReceiveError => RuntimeError::ReceiveError,
            RuntimeError::SendControlError => RuntimeError::SendControlError,
            RuntimeError::ReceiveControlError => RuntimeError::ReceiveControlError,
            RuntimeError::ParseError(p) => RuntimeError::ParseError(p.duplicate()),
            RuntimeError::DivisionByZero => RuntimeError::DivisionByZero,
            RuntimeError::InvalidAgentDefinition => RuntimeError::InvalidAgentDefinition,
            RuntimeError::AgentNotFound => RuntimeError::AgentNotFound,
            RuntimeError::AgentNotRegistered => RuntimeError::AgentNotRegistered,
            RuntimeError::TypeMismatch(s) => RuntimeError::TypeMismatch(copy_string(s)),
            RuntimeError::NameNotFound(s) => RuntimeError::NameNotFound(copy_string(s)),
            RuntimeError::InvalidArguments(s) => RuntimeError::InvalidArguments(copy_string(s)),
            RuntimeError::AssertionFailed(s) => RuntimeError::AssertionFailed(copy_string(s)),
            RuntimeError::HandlerNotFound(s) => RuntimeError::HandlerNotFound(copy_string(s)),
            RuntimeError::ExternalServiceError => RuntimeError::ExternalServiceError,
        }
    }

    /// The message of the error.
    pub fn to_text(&self) -> (r: String)
        ensures
            r@ == runtime_error_text(self@),
    {
        let mut out;
        match self {
            RuntimeError::SendError => { out = text_of("Failed to send message"); },
            RuntimeError::ReceiveError => { out = text_of("Failed to receive message"); },
            RuntimeError::SendControlError => { out = text_of("Failed to send control message"); },
            RuntimeError::ReceiveControlError => { out = text_of("Failed to receive control message"); },
            RuntimeError::ParseError(_) => { out = text_of("Failed to parse message"); },
            RuntimeError::DivisionByZero => { out = text_of("Division by zero"); },
            RuntimeError::InvalidAgentDefinition => { out = text_of("Invalid agent definition"); },
            RuntimeError::AgentNotFound => { out = text_of("Agent not found"); },
            RuntimeError::AgentNotRegistered => { out = text_of("Agent not registered"); },
            RuntimeError::TypeMismatch(s) => {
                out = text_of("Type mismatch: ");
                push_all(&mut out, s.as_str());
            },
            RuntimeError::NameNotFound(s) => {
                out = text_of("Name not found: ");
                push_all(&mut out, s.as_str());
            },
            RuntimeError::InvalidArguments(s) => {
                out = text_of("Invalid arguments: ");
                push_all(&mut out, s.as_str());
            },
            RuntimeError::AssertionFailed(s) => {
                out = text_of("Assertion failed: ");
                push_all(&mut out, s.as_str());
            },
            RuntimeError::HandlerNotFound(s) => {
                out = text_of("Handler not found: ");
                push_all(&mut out, s.as_str());
            },
            RuntimeError::ExternalServiceError => { out = text_of("External service error"); },
        }
        out
    }
}

} // verus!
