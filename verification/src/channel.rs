//! Channels name the agents of a running program: a channel is the
//! 128-bit UUID of the mailbox that a runtime attaches to it.
use vstd::prelude::*;
use vstd::arithmetic::power::pow;
use crate::text::{digit_char, push_all};

verus! {

/// The identity of an agent's mailbox.
#[derive(Debug, Clone, Copy, PartialEq, Eq, Structural, Hash)]
pub struct Channel {
    pub id: u128,
}

/// A control message that a runtime delivers beside ordinary messages.
#[derive(Debug, Clone, Copy, PartialEq, Eq, Structural, Hash)]
pub enum ControlMessage {
    Stop,
}

/// A lowercase hexadecimal digit.
pub open spec fn hex_char(d: nat) -> char {
    if d < 10 { digit_char(d) }
    else if d == 10 { 'a' }
    else if d == 11 { 'b' }
    else if d == 12 { 'c' }
    else if d == 13 { 'd' }
    else if d == 14 { 'e' }
    else { 'f' }
}

/// The `k`-th hexadecimal digit of a 128-bit value, most significant first.
pub open spec fn uuid_nibble(id: u128, k: int) -> nat {
    ((id as int / pow(16, (31 - k) as nat)) % 16) as nat
}

/// Whether position `p` of the hyphenated text holds a hyphen.
pub open spec fn is_hyphen_position(p: int) -> bool {
    p == 8 || p == 13 || p == 18 || p == 23
}

/// The digit index shown at position `p` of the hyphenated text.
pub open spec fn nibble_at_position(p: int) -> int {
    if p < 8 { p } else if p < 13 { p - 1 } else if p < 18 { p - 2 } else if p < 23 { p - 3 } else { p - 4 }
}

/// The hyphenated lowercase text of a UUID (`8-4-4-4-12` digits).
pub open spec fn uuid_text(id: u128) -> Seq<char> {
    Seq::new(36, |p: int| if is_hyphen_position(p) { '-' } else { hex_char(uuid_nibble(id, nibble_at_position(p))) })
}

/// Whether a UUID, read as a big-endian `u128`, is of version 7 (the
/// high nibble of byte 6 is 7) and of the RFC 9562 variant (the two high
/// bits of byte 8 are `10`).
pub open spec fn is_uuid_v7(id: u128) -> bool {
    &&& (id >> 76u128) & 15u128 == 7u128
    &&& (id >> 62u128) & 3u128 == 2u128
}

/// A new time-ordered UUID: `uuid::Uuid::now_v7`, read as a `u128`
/// (`as_u128` reads the bytes big-endian). Its other bits come from the
/// clock and from random bits, so only its version and variant are
/// stated: `now_v7` builds it with `encode_unix_timestamp_millis`, which
/// sets the version nibble to 7 and the variant bits to `10`.
#[verifier::external_body]
fn fresh_uuid() -> (r: u128)
    ensures
        is_uuid_v7(r),
{
    uuid::Uuid::now_v7().as_u128()
}

/// The text of a UUID: `Display` of `uuid::Uuid` built with `from_u128`,
/// which writes the sixteen big-endian bytes as lowercase hexadecimal pairs,
/// hyphens after the fourth, sixth, eighth and tenth byte.
#[verifier::external_body]
fn hyphenated_uuid(id: u128) -> (r: String)
    ensures
        r@ == uuid_text(id),
{
    uuid::Uuid::from_u128(id).to_string()
}

impl Channel {
    /// A channel with a fresh, time-ordered identity: a version 7 UUID.
    pub fn new() -> (c: Channel)
        ensures
            is_uuid_v7(c.id),
    {
        Channel { id: fresh_uuid() }
    }

    /// The channel with the given identity.
    pub fn from_uuid(id: u128) -> (c: Channel)
        ensures
            c.id == id,
    {
        Channel { id }
    }

    /// The identity of the channel.
    pub fn uuid(&self) -> (r: u128)
        ensures
            r == self.id,
    {
        self.id
    }

    /// The hyphenated text of the channel's identity.
    pub fn uuid_text(&self) -> (r: String)
        ensures
            r@ == uuid_text(self.id),
    {
        hyphenated_uuid(self.id)
    }

    /// The short form that debugging output shows: `Channel(` and the
    /// last eight digits of the identity, then `)`.
    pub fn digest_text(&self) -> (r: String)
        ensures
            r@ == "Channel("@ + uuid_text(self.id).subrange(28, 36) + ")"@,
    {
        let full = hyphenated_uuid(self.id);
        let mut out = String::from_str("Channel(");
        let tail = full.as_str().substring_char(28, 36);
        push_all(&mut out, tail);
        push_all(&mut out, ")");
        out
    }
}

/// The text of a channel as the interpreter shows it in strings.
pub fn channel_label(c: &Channel, out: &mut String)
    ensures
        final(out)@ == old(out)@ + uuid_text(c.id),
{
    let t = c.uuid_text();
    push_all(out, t.as_str());
}

/// A time-ordered identity (UUID version 7) as a 128-bit number.
#[derive(Debug, Clone, Copy, PartialEq, Eq, Structural, Hash)]
pub struct Uuid7(pub u128);

impl Uuid7 {
    /// A fresh identity: a version 7 UUID.
    pub fn new() -> (r: Uuid7)
        ensures
            is_uuid_v7(r.0),
    {
        Uuid7(fresh_uuid())
    }

    /// The hyphenated text of the identity (what `Display` prints).
    pub fn to_text(&self) -> (r: String)
        ensures
            r@ == uuid_text(self.0),
    {
        hyphenated_uuid(self.0)
    }
}

} // verus!
