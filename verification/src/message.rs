//! Messages: a header that protocols read and write, and a body that carries
//! the user's payload.

use std::rc::Rc;
use vstd::prelude::*;
use vstd::std_specs::convert::FromSpecImpl;

verus! {

/// A message is a pair of byte strings: the protocol header and the payload.
#[derive(Debug, PartialEq, Eq, Clone)]
pub struct Message {
    pub header: Vec<u8>,
    pub body: Vec<u8>,
}

impl Message {
    /// Header followed by body.
    pub open spec fn bytes(&self) -> Seq<u8> {
        self.header@ + self.body@
    }

    /// The empty message.
    pub fn new() -> (m: Message)
        ensures
            m.header@ == Seq::<u8>::empty(),
            m.body@ == Seq::<u8>::empty(),
    {
        Message { header: Vec::new(), body: Vec::new() }
    }

    /// A message with an empty header and the given body.
    pub fn from_body(body: Vec<u8>) -> (m: Message)
        ensures
            m.header@ == Seq::<u8>::empty(),
            m.body == body,
    {
        Message { header: Vec::new(), body }
    }

    /// A message with the given header and body.
    pub fn from_header_and_body(header: Vec<u8>, body: Vec<u8>) -> (m: Message)
        ensures
            m.header == header,
            m.body == body,
    {
        Message { header, body }
    }

    /// The number of bytes of header and body together.
    pub fn len(&self) -> (n: usize)
        requires
            self.header@.len() + self.body@.len() <= usize::MAX,
        ensures
            n == self.header@.len() + self.body@.len(),
            n == self.bytes().len(),
    {
        self.header.len() + self.body.len()
    }

    /// The header bytes.
    pub fn get_header(&self) -> (header: &[u8])
        ensures
            header@ == self.header@,
    {
        self.header.as_slice()
    }

    /// The body bytes.
    pub fn get_body(&self) -> (body: &[u8])
        ensures
            body@ == self.body@,
    {
        self.body.as_slice()
    }

    /// Takes the message apart. Header and body come back as they were, so
    /// that joined they are the bytes of the message.
    pub fn split(self) -> (parts: (Vec<u8>, Vec<u8>))
        ensures
            parts.0 == self.header,
            parts.1 == self.body,
            parts.0@ + parts.1@ == self.bytes(),
    {
        (self.header, self.body)
    }

    /// The same body under an empty header.
    pub fn without_header(self) -> (m: Message)
        ensures
            m.header@ == Seq::<u8>::empty(),
            m.body == self.body,
    {
        Message::from_body(self.body)
    }
}

impl Default for Message {
    fn default() -> (m: Message)
        ensures
            m.header@ == Seq::<u8>::empty(),
            m.body@ == Seq::<u8>::empty(),
    {
        Message::new()
    }
}

impl From<Vec<u8>> for Message {
    fn from(value: Vec<u8>) -> (m: Message)
        ensures
            m.header@ == Seq::<u8>::empty(),
            m.body == value,
    {
        Message::from_body(value)
    }
}

impl FromSpecImpl<Vec<u8>> for Message {
    open spec fn obeys_from_spec() -> bool {
        false
    }

    open spec fn from_spec(value: Vec<u8>) -> Message {
        arbitrary()
    }
}

impl From<Message> for Vec<u8> {
    fn from(m: Message) -> (body: Vec<u8>)
        ensures
            body == m.body,
    {
        m.body
    }
}

impl FromSpecImpl<Message> for Vec<u8> {
    open spec fn obeys_from_spec() -> bool {
        true
    }

    open spec fn from_spec(m: Message) -> Vec<u8> {
        m.body
    }
}

/// `Rc::clone`: another handle to the same message. The message itself is
/// not copied.
#[verifier::external_body]
pub(crate) fn share(msg: &Rc<Message>) -> (shared: Rc<Message>)
    ensures
        shared == *msg,
{
    Rc::clone(msg)
}

} // verus!
