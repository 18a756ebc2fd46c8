//! Messages: the terms that an agent receives and the channel to reply on.
use vstd::prelude::*;
use crate::ast::{SpecValue, Value, lemma_values_of, values_of};
use crate::channel::Channel;
use crate::values::{dup_values, spec_value_eq};

verus! {

/// A message: its terms, and optionally the channel that awaits a reply.
#[derive(Debug)]
pub struct Message {
    pub terms: Vec<Value>,
    pub reply_to: Option<Channel>,
}

/// The mathematical form of a [`Message`].
pub struct SpecMessage {
    pub terms: Seq<SpecValue>,
    pub reply_to: Option<Channel>,
}

impl View for Message {
    type V = SpecMessage;

    open spec fn view(&self) -> SpecMessage {
        SpecMessage { terms: values_of(self.terms@), reply_to: self.reply_to }
    }
}

/// The first term of a message when it is a word: the command it carries.
pub open spec fn spec_first_word(m: SpecMessage) -> Option<Seq<char>> {
    if m.terms.len() > 0 && m.terms[0] is Word {
        Some(m.terms[0]->Word_0)
    } else {
        None
    }
}

/// The terms after the first one.
pub open spec fn spec_rest(m: SpecMessage) -> Seq<SpecValue> {
    if m.terms.len() == 0 {
        Seq::empty()
    } else {
        m.terms.subrange(1, m.terms.len() as int)
    }
}

/// Equality of messages: the terms pairwise by the language's equality,
/// and the same reply channel.
pub open spec fn spec_message_eq(a: SpecMessage, b: SpecMessage) -> bool {
    &&& a.terms.len() == b.terms.len()
    &&& forall|i: int| 0 <= i < a.terms.len() ==> spec_value_eq(#[trigger] a.terms[i], b.terms[i])
    &&& a.reply_to == b.reply_to
}

/// Building messages step by step.
pub trait MessageBuilder: Sized {
    fn with_terms(self, terms: Vec<Value>) -> Self;

    fn with_reply_to(self, reply_to: Option<Channel>) -> Self;

    fn with_term(self, term: Value) -> Self;
}

impl MessageBuilder for Message {
    /// The message with the given terms appended to its own.
    fn with_terms(self, terms: Vec<Value>) -> (r: Message)
        ensures
            r@.terms == self@.terms + values_of(terms@),
            r@.reply_to == self@.reply_to,
    {
        let mut m = self;
        let ghost old_terms = m.terms@;
        let mut more = terms;
        m.terms.append(&mut more);
        proof {
            lemma_values_of(old_terms);
            lemma_values_of(terms@);
            lemma_values_of(m.terms@);
            assert(values_of(m.terms@) =~= values_of(old_terms) + values_of(terms@));
        }
        m
    }

    /// The message with the given reply channel.
    fn with_reply_to(self, reply_to: Option<Channel>) -> (r: Message)
        ensures
            r@.terms == self@.terms,
            r@.reply_to == reply_to,
    {
        Message { terms: self.terms, reply_to }
    }

    /// The message with one more term at the end.
    fn with_term(self, term: Value) -> (r: Message)
        ensures
            r@.terms == self@.terms.push(term@),
            r@.reply_to == self@.reply_to,
    {
        let mut m = self;
        let ghost old_terms = m.terms@;
        m.terms.push(term);
        proof {
            lemma_values_of(old_terms);
            lemma_values_of(m.terms@);
            assert(values_of(m.terms@) =~= values_of(old_terms).push(term@));
        }
        m
    }
}

impl Message {
    pub fn new(terms: Vec<Value>, reply_to: Option<Channel>) -> (r: Message)
        ensures
            r.terms@ == terms@,
            r.reply_to == reply_to,
    {
        Message { terms, reply_to }
    }

    /// The message with no terms and no reply channel.
    pub fn default() -> (r: Message)
        ensures
            r@.terms == Seq::<SpecValue>::empty(),
            r@.reply_to is None,
    {
        let m = Message { terms: Vec::new(), reply_to: None };
        proof {
            lemma_values_of(m.terms@);
            assert(values_of(m.terms@) =~= Seq::<SpecValue>::empty());
        }
        m
    }

    pub fn terms(&self) -> (r: &Vec<Value>)
        ensures
            r@ == self.terms@,
    {
        &self.terms
    }

    pub fn reply_to(&self) -> (r: Option<Channel>)
        ensures
            r == self.reply_to,
    {
        self.reply_to
    }

    /// The first term, when it is a word.
    pub fn first_word(&self) -> (r: Option<String>)
        ensures
            match r {
                Some(w) => spec_first_word(self@) == Some(w@),
                None => spec_first_word(self@) is None,
            },
    {
        proof {
            lemma_values_of(self.terms@);
        }
        if self.terms.len() > 0 {
            match &self.terms[0] {
                Value::Word(name) => {
                    return Some(name.clone());
                },
                _ => {},
            }
        }
        None
    }

    /// Copies of the terms after the first one.
    pub fn rest(&self) -> (r: Vec<Value>)
        ensures
            values_of(r@) == spec_rest(self@),
    {
        proof {
            lemma_values_of(self.terms@);
        }
        let mut out: Vec<Value> = Vec::new();
        let mut i: usize = 1;
        while i < self.terms.len()
            invariant
                1 <= i <= self.terms@.len() || (i == 1 && self.terms@.len() == 0),
                out@.len() == i - 1,
                forall|j: int| 0 <= j < out@.len() ==> (#[trigger] out@[j])@ == self.terms@[j + 1]@,
            decreases self.terms@.len() - i,
        {
            out.push(self.terms[i].duplicate());
            i += 1;
        }
        proof {
            lemma_values_of(out@);
            lemma_values_of(self.terms@);
            assert(values_of(out@) =~= spec_rest(self@));
        }
        out
    }

    /// A copy of the message.
    pub fn duplicate(&self) -> (r: Message)
        ensures
            r@ == self@,
    {
        Message { terms: dup_values(&self.terms), reply_to: self.reply_to }
    }

    /// Equality of messages (see [`spec_message_eq`]).
    pub fn equals(&self, other: &Message) -> (r: bool)
        ensures
            r == spec_message_eq(self@, other@),
    {
        proof {
            lemma_values_of(self.terms@);
            lemma_values_of(other.terms@);
        }
        if self.terms.len() != other.terms.len() {
            return false;
        }
        let mut i: usize = 0;
        while i < self.terms.len()
            invariant
                i <= self.terms@.len(),
                self.terms@.len() == other.terms@.len(),
                values_of(self.terms@).len() == self.terms@.len(),
                values_of(other.terms@).len() == other.terms@.len(),
                forall|j: int| 0 <= j < self.terms@.len() ==> #[trigger] values_of(self.terms@)[j] == self.terms@[j]@,
                forall|j: int| 0 <= j < other.terms@.len() ==> #[trigger] values_of(other.terms@)[j] == other.terms@[j]@,
                forall|j: int| 0 <= j < i ==> spec_value_eq(#[trigger] values_of(self.terms@)[j], values_of(other.terms@)[j]),
            decreases self.terms@.len() - i,
        {
            if !self.terms[i].equals(&other.terms[i]) {
                assert(!spec_value_eq(values_of(self.terms@)[i as int], values_of(other.terms@)[i as int]));
                return false;
            }
            i += 1;
        }
        self.reply_to == other.reply_to
    }
}

} // verus!
