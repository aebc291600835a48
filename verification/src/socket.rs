//! The socket as callers hold it: one of the patterns, chosen when the
//! connection is made and kept for its life.

use crate::error::{ZmqError, ZmqResult};
use crate::handshake::{Handshake, HandshakeState};
use crate::message::{incoming_view, Incoming, Message, MessageView, ZmqMessage};
use crate::req_rep::{envelope, outcome_view, recv_step, RecvState, RecvStep, RepSocket, ReqSocket};
use crate::socket_type::SocketType;
use vstd::prelude::*;

verus! {

/// The publishing side of publish-subscribe. It sends and never receives.
#[derive(Debug)]
pub struct PubSocket {
    /// Keeps the socket from being made without a handshake.
    sealed: (),
}

impl PubSocket {
    /// The PUB socket of a connection whose handshake is complete.
    ///
    /// The handshake must have run for a PUB socket and have reached
    /// `Active`; any other is refused.
    pub fn bind(engine: Handshake) -> (r: ZmqResult<PubSocket>)
        ensures
            (r is Ok) == (engine@.state == HandshakeState::Active && engine@.local
                == SocketType::PUB),
            r is Err ==> r == Err::<PubSocket, ZmqError>(
                ZmqError::Other("Handshake has not made a PUB connection"),
            ),
            r is Ok ==> engine@.remote is Some && SocketType::PUB.compatible(engine@.remote->0),
    {
        if engine.is_active() && engine.local() == SocketType::PUB {
            Ok(PubSocket { sealed: () })
        } else {
            Err(ZmqError::Other("Handshake has not made a PUB connection"))
        }
    }

    /// The message to write for `data`: one frame that holds it, with
    /// nothing in front.
    pub fn send(&mut self, data: Vec<u8>) -> (m: Message)
        ensures
            m@ == MessageView::Single(data@),
    {
        Message::Message(ZmqMessage::from_slice(data.as_slice()))
    }
}

/// A socket of any of the patterns.
#[derive(Debug)]
pub enum Socket {
    Req(ReqSocket),
    Rep(RepSocket),
    Pub(PubSocket),
}

impl Socket {
    /// The pattern the socket follows.
    pub open spec fn kind(self) -> SocketType {
        match self {
            Socket::Req(_) => SocketType::REQ,
            Socket::Rep(_) => SocketType::REP,
            Socket::Pub(_) => SocketType::PUB,
        }
    }

    /// Where the socket stands inside a receive. A PUB socket, which does
    /// not receive, is always at the start.
    pub open spec fn recv_state(self) -> RecvState {
        match self {
            Socket::Req(s) => s.recv_state(),
            Socket::Rep(s) => s.recv_state(),
            Socket::Pub(_) => RecvState::Delimiter,
        }
    }

    /// What a socket of pattern `kind` writes for `data`.
    pub open spec fn outgoing(kind: SocketType, data: Seq<u8>) -> MessageView {
        if kind == SocketType::PUB {
            MessageView::Single(data)
        } else {
            envelope(data)
        }
    }

    /// What a delivery comes to on a socket of pattern `kind`.
    pub open spec fn incoming(kind: SocketType, state: RecvState, incoming: Incoming) -> RecvStep {
        if kind == SocketType::PUB {
            RecvStep {
                next: RecvState::Delimiter,
                outcome: Err(ZmqError::Other("PUB sockets do not receive")),
            }
        } else {
            recv_step(state, incoming)
        }
    }

    /// The pattern the socket follows.
    pub fn socket_type(&self) -> (t: SocketType)
        ensures
            t == self.kind(),
    {
        match self {
            Socket::Req(_) => SocketType::REQ,
            Socket::Rep(_) => SocketType::REP,
            Socket::Pub(_) => SocketType::PUB,
        }
    }

    /// The message to write for `data`.
    pub fn send(&mut self, data: Vec<u8>) -> (m: Message)
        ensures
            m@ == Socket::outgoing(old(self).kind(), data@),
            final(self).kind() == old(self).kind(),
            final(self).recv_state() == old(self).recv_state(),
    {
        match self {
            Socket::Req(s) => s.send(data),
            Socket::Rep(s) => s.send(data),
            Socket::Pub(s) => s.send(data),
        }
    }

    /// Takes the next delivery of the transport. `Ok(Some(body))` is a
    /// complete body, `Ok(None)` asks for the next message.
    pub fn recv(&mut self, incoming: Option<ZmqResult<Message>>) -> (r: ZmqResult<Option<Vec<u8>>>)
        ensures
            final(self).kind() == old(self).kind(),
            final(self).recv_state() == Socket::incoming(
                old(self).kind(),
                old(self).recv_state(),
                incoming_view(incoming),
            ).next,
            outcome_view(r) == Socket::incoming(
                old(self).kind(),
                old(self).recv_state(),
                incoming_view(incoming),
            ).outcome,
    {
        match self {
            Socket::Req(s) => s.recv(incoming),
            Socket::Rep(s) => s.recv(incoming),
            Socket::Pub(_) => Err(ZmqError::Other("PUB sockets do not receive")),
        }
    }
}

} // verus!
