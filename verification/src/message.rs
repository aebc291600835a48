//! The message model: frame payloads and the messages assembled from them.

use crate::buffer::{bytes_as_slice, bytes_contents};
use crate::command::{CommandView, ZmqCommand};
use crate::error::{ZmqError, ZmqResult};
use crate::greeting::ZmqGreeting;
use bytes::{Bytes, BytesMut};
use vstd::prelude::*;

verus! {

broadcast use vstd::slice::group_slice_axioms;

/// The payload of one frame.
#[derive(Clone, Debug, PartialEq, Eq)]
pub struct ZmqMessage {
    pub data: Bytes,
}

impl View for ZmqMessage {
    type V = Seq<u8>;

    open spec fn view(&self) -> Seq<u8> {
        bytes_contents(self.data)
    }
}

impl DeepView for ZmqMessage {
    type V = Seq<u8>;

    open spec fn deep_view(&self) -> Seq<u8> {
        self@
    }
}

impl ZmqMessage {
    /// The zero-length payload that REQ and REP put in front of a body.
    pub fn delimiter() -> (m: ZmqMessage)
        ensures
            m@ == Seq::<u8>::empty(),
    {
        ZmqMessage { data: BytesMut::new().freeze() }
    }

    /// A payload holding a copy of `data`.
    pub fn from_slice(data: &[u8]) -> (m: ZmqMessage)
        ensures
            m@ == data@,
    {
        let mut buf = BytesMut::new();
        assert(data@.len() == data.len());
        buf.extend_from_slice(data);
        ZmqMessage { data: buf.freeze() }
    }

    pub fn is_empty(&self) -> (r: bool)
        ensures
            r == (self@.len() == 0),
    {
        self.data.is_empty()
    }

    /// A copy of the payload.
    pub fn to_vec(&self) -> (v: Vec<u8>)
        ensures
            v@ == self@,
    {
        vstd::slice::slice_to_vec(bytes_as_slice(&self.data))
    }
}

/// One unit of traffic as the codec delivers it.
#[derive(Clone, Debug, PartialEq, Eq)]
pub enum Message {
    /// The peer's greeting.
    Greeting(ZmqGreeting),
    /// A command frame.
    Command(ZmqCommand),
    /// An application message of exactly one frame.
    Message(ZmqMessage),
    /// An application message of several frames, in wire order.
    MultipartMessage(Vec<ZmqMessage>),
}

impl Message {
    /// Whether the message is one that can exist: a multipart message has
    /// at least one frame.
    pub fn is_well_formed(&self) -> (r: bool)
        ensures
            r == self@.well_formed(),
    {
        match self {
            Message::MultipartMessage(parts) => parts.len() >= 1,
            _ => true,
        }
    }
}

/// A message as contracts see it: payloads are byte sequences.
pub enum MessageView {
    Greeting(ZmqGreeting),
    Command(CommandView),
    Single(Seq<u8>),
    Multipart(Seq<Seq<u8>>),
}

impl View for Message {
    type V = MessageView;

    open spec fn view(&self) -> MessageView {
        match *self {
            Message::Greeting(g) => MessageView::Greeting(g),
            Message::Command(c) => MessageView::Command(c@),
            Message::Message(m) => MessageView::Single(m@),
            Message::MultipartMessage(parts) => MessageView::Multipart(parts.deep_view()),
        }
    }
}

/// What the transport delivers: a decoded message, its failure, or `None`
/// where the stream has ended.
pub type Incoming = Option<Result<MessageView, ZmqError>>;

/// A delivery as contracts see it.
pub open spec fn incoming_view(incoming: Option<ZmqResult<Message>>) -> Incoming {
    match incoming {
        None => None,
        Some(Err(e)) => Some(Err(e)),
        Some(Ok(m)) => Some(Ok(m@)),
    }
}

/// What a step of the codec or of the handshake hands back, as contracts
/// see it: a message, none, or a failure.
pub open spec fn result_view(r: ZmqResult<Option<Message>>) -> ZmqResult<Option<MessageView>> {
    match r {
        Ok(Some(m)) => Ok(Some(m@)),
        Ok(None) => Ok(None),
        Err(e) => Err(e),
    }
}

impl MessageView {
    /// Whether the message is one that can exist: a multipart message has
    /// at least one frame.
    pub open spec fn well_formed(self) -> bool {
        self matches MessageView::Multipart(parts) ==> parts.len() >= 1
    }

    /// The payload of the first frame, where the message is made of frames
    /// and has one.
    pub open spec fn first_frame(self) -> Option<Seq<u8>> {
        match self {
            MessageView::Single(p) => Some(p),
            MessageView::Multipart(parts) => if parts.len() > 0 {
                Some(parts[0])
            } else {
                None
            },
            _ => None,
        }
    }
}

} // verus!
