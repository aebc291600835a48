//! The REQ and REP sockets.
//!
//! Both put an empty delimiter frame in front of every body they send and
//! insist on one in front of every body they receive. Neither touches the
//! transport: `send` builds the message to be written, and `recv` is handed
//! what the transport delivered, one message at a time.

use crate::codec::{decode_spec, message_bytes, message_encodable, CodecView};
use crate::codec_proofs::lemma_multipart_round_trip;
use crate::error::{ZmqError, ZmqResult};
use crate::handshake::{Handshake, HandshakeState};
use crate::message::{incoming_view, Incoming, Message, MessageView, ZmqMessage};
use crate::socket::Socket;
use crate::socket_type::SocketType;
use crate::wire::MAX_FRAME_LEN;
use vstd::prelude::*;

verus! {

/// How far a socket has come inside one receive.
#[derive(Clone, Copy, Debug, PartialEq, Eq, Structural)]
pub enum RecvState {
    /// Nothing of the next message has been seen.
    Delimiter,
    /// The delimiter came as a message of its own; the body is due.
    Body,
}

/// What one step of a receive comes to.
pub struct RecvStep {
    pub next: RecvState,
    /// `Ok(Some(body))` when a body is complete, `Ok(None)` when the next
    /// message has to be read first.
    pub outcome: Result<Option<Seq<u8>>, ZmqError>,
}

/// The message that carries `body` from one socket to the other: the
/// delimiter, then the body.
pub open spec fn envelope(body: Seq<u8>) -> MessageView {
    MessageView::Multipart(seq![Seq::<u8>::empty(), body])
}

/// What a receive hands back, as contracts see it.
pub open spec fn outcome_view(r: ZmqResult<Option<Vec<u8>>>) -> Result<Option<Seq<u8>>, ZmqError> {
    match r {
        Ok(Some(body)) => Ok(Some(body@)),
        Ok(None) => Ok(None),
        Err(e) => Err(e),
    }
}

/// The receive rule of REQ and REP, one delivered message at a time.
///
/// A failure of any kind ends the receive: the next message is again taken
/// for the start of an envelope.
pub open spec fn recv_step(state: RecvState, incoming: Incoming) -> RecvStep {
    match incoming {
        None => RecvStep { next: RecvState::Delimiter, outcome: Err(ZmqError::NoMessage) },
        Some(Err(e)) => RecvStep { next: RecvState::Delimiter, outcome: Err(e) },
        Some(Ok(msg)) => match state {
            RecvState::Delimiter => match msg {
                MessageView::Single(p) => if p.len() == 0 {
                    RecvStep { next: RecvState::Body, outcome: Ok(None) }
                } else {
                    RecvStep {
                        next: RecvState::Delimiter,
                        outcome: Err(ZmqError::Other("Delimiter frame is not empty")),
                    }
                },
                MessageView::Multipart(parts) => if parts.len() == 0 {
                    RecvStep {
                        next: RecvState::Delimiter,
                        outcome: Err(ZmqError::Other("Multipart message without frames")),
                    }
                } else if parts[0].len() != 0 {
                    RecvStep {
                        next: RecvState::Delimiter,
                        outcome: Err(ZmqError::Other("Delimiter frame is not empty")),
                    }
                } else {
                    RecvStep {
                        next: RecvState::Delimiter,
                        outcome: Ok(Some(parts.skip(1).flatten())),
                    }
                },
                _ => RecvStep {
                    next: RecvState::Delimiter,
                    outcome: Err(ZmqError::Other("Wrong message type received")),
                },
            },
            RecvState::Body => match msg {
                MessageView::Single(p) => RecvStep {
                    next: RecvState::Delimiter,
                    outcome: Ok(Some(p)),
                },
                _ => RecvStep {
                    next: RecvState::Delimiter,
                    outcome: Err(ZmqError::Other("Wrong message type received")),
                },
            },
        },
    }
}

/// The payloads of `parts` from index `start` on, joined in order.
fn join_from(parts: &Vec<ZmqMessage>, start: usize) -> (data: Vec<u8>)
    requires
        start <= parts.len(),
    ensures
        data@ == parts.deep_view().skip(start as int).flatten(),
{
    let mut data: Vec<u8> = Vec::new();
    let mut i: usize = start;
    assert(parts.deep_view().subrange(start as int, start as int) =~= Seq::<Seq<u8>>::empty());
    while i < parts.len()
        invariant
            start <= i <= parts.len(),
            data@ == parts.deep_view().subrange(start as int, i as int).flatten(),
        decreases parts.len() - i,
    {
        let mut piece = parts[i].to_vec();
        data.append(&mut piece);
        proof {
            let all = parts.deep_view();
            assert(all.subrange(start as int, i + 1) =~= all.subrange(start as int, i as int).push(
                all[i as int],
            ));
            all.subrange(start as int, i as int).lemma_flatten_push(all[i as int]);
        }
        i += 1;
    }
    assert(parts.deep_view().subrange(start as int, i as int) =~= parts.deep_view().skip(
        start as int,
    ));
    data
}

/// Wraps `data` for sending: an empty delimiter frame, then the body.
fn wrap(data: Vec<u8>) -> (m: Message)
    ensures
        m@ == envelope(data@),
{
    let mut frames: Vec<ZmqMessage> = Vec::new();
    frames.push(ZmqMessage::delimiter());
    frames.push(ZmqMessage::from_slice(data.as_slice()));
    assert(frames.deep_view() =~= seq![Seq::<u8>::empty(), data@]);
    Message::MultipartMessage(frames)
}

/// One step of a receive: looks at what was delivered and says whether a body
/// is complete, another message is needed, or the receive has failed.
fn unwrap(state: &mut RecvState, incoming: Option<ZmqResult<Message>>) -> (r: ZmqResult<
    Option<Vec<u8>>,
>)
    ensures
        *final(state) == recv_step(*old(state), incoming_view(incoming)).next,
        outcome_view(r) == recv_step(*old(state), incoming_view(incoming)).outcome,
{
    let before = *state;
    *state = RecvState::Delimiter;
    match incoming {
        None => Err(ZmqError::NoMessage),
        Some(Err(e)) => Err(e),
        Some(Ok(Message::Message(m))) => match before {
            RecvState::Delimiter => {
                if m.is_empty() {
                    *state = RecvState::Body;
                    Ok(None)
                } else {
                    Err(ZmqError::Other("Delimiter frame is not empty"))
                }
            },
            RecvState::Body => Ok(Some(m.to_vec())),
        },
        Some(Ok(Message::MultipartMessage(parts))) => match before {
            RecvState::Delimiter => {
                if parts.len() == 0 {
                    Err(ZmqError::Other("Multipart message without frames"))
                } else if !parts[0].is_empty() {
                    Err(ZmqError::Other("Delimiter frame is not empty"))
                } else {
                    Ok(Some(join_from(&parts, 1)))
                }
            },
            RecvState::Body => Err(ZmqError::Other("Wrong message type received")),
        },
        Some(Ok(_)) => Err(ZmqError::Other("Wrong message type received")),
    }
}

/// The requesting side of a request-reply pair.
///
/// The socket checks the envelope of what it receives. It does not check
/// that sends and receives take turns: that is left to the caller.
#[derive(Debug)]
pub struct ReqSocket {
    state: RecvState,
}

/// The replying side of a request-reply pair.
///
/// The socket checks the envelope of what it receives. It does not check
/// that every request is answered before the next is taken: that is left to
/// the caller.
#[derive(Debug)]
pub struct RepSocket {
    state: RecvState,
}

/// The server side that hands out REP sockets, one for each connection it
/// accepts.
#[derive(Debug)]
pub struct RepSocketServer {}

impl ReqSocket {
    /// Where the socket stands inside a receive.
    pub closed spec fn recv_state(&self) -> RecvState {
        self.state
    }

    /// The REQ socket of a connection whose handshake is complete.
    ///
    /// The handshake must have run for a REQ socket and have reached
    /// `Active`; any other is refused.
    pub fn connect(engine: Handshake) -> (r: ZmqResult<ReqSocket>)
        ensures
            engine@.state == HandshakeState::Active && engine@.local == SocketType::REQ ==> r is Ok
                && r->Ok_0.recv_state() == RecvState::Delimiter,
            r is Ok ==> engine@.remote is Some && SocketType::REQ.compatible(engine@.remote->0),
            !(engine@.state == HandshakeState::Active && engine@.local == SocketType::REQ) ==> r
                == Err::<ReqSocket, ZmqError>(
                ZmqError::Other("Handshake has not made a REQ connection"),
            ),
    {
        if engine.is_active() && engine.local() == SocketType::REQ {
            Ok(ReqSocket { state: RecvState::Delimiter })
        } else {
            Err(ZmqError::Other("Handshake has not made a REQ connection"))
        }
    }

    /// The message to write for the request `data`.
    pub fn send(&mut self, data: Vec<u8>) -> (m: Message)
        ensures
            m@ == envelope(data@),
            final(self).recv_state() == old(self).recv_state(),
    {
        wrap(data)
    }

    /// Takes the next delivery of the transport towards a reply.
    ///
    /// `Ok(Some(body))` is a complete reply. `Ok(None)` asks for the next
    /// message: the caller reads one and calls `recv` again.
    pub fn recv(&mut self, incoming: Option<ZmqResult<Message>>) -> (r: ZmqResult<Option<Vec<u8>>>)
        ensures
            final(self).recv_state() == recv_step(
                old(self).recv_state(),
                incoming_view(incoming),
            ).next,
            outcome_view(r) == recv_step(old(self).recv_state(), incoming_view(incoming)).outcome,
    {
        unwrap(&mut self.state, incoming)
    }
}

impl RepSocket {
    /// Where the socket stands inside a receive.
    pub closed spec fn recv_state(&self) -> RecvState {
        self.state
    }

    /// The message to write for the reply `data`.
    pub fn send(&mut self, data: Vec<u8>) -> (m: Message)
        ensures
            m@ == envelope(data@),
            final(self).recv_state() == old(self).recv_state(),
    {
        wrap(data)
    }

    /// Takes the next delivery of the transport towards a request.
    ///
    /// `Ok(Some(body))` is a complete request. `Ok(None)` asks for the next
    /// message: the caller reads one and calls `recv` again.
    pub fn recv(&mut self, incoming: Option<ZmqResult<Message>>) -> (r: ZmqResult<Option<Vec<u8>>>)
        ensures
            final(self).recv_state() == recv_step(
                old(self).recv_state(),
                incoming_view(incoming),
            ).next,
            outcome_view(r) == recv_step(old(self).recv_state(), incoming_view(incoming)).outcome,
    {
        unwrap(&mut self.state, incoming)
    }
}

impl RepSocketServer {
    /// A server that has accepted nothing yet. It keeps no state from one
    /// connection to the next.
    pub fn new() -> RepSocketServer {
        RepSocketServer {  }
    }

    /// The socket of an inbound connection whose handshake is complete.
    ///
    /// The handshake must have run for a REP socket and have reached
    /// `Active`; any other is refused. Each socket handed out is
    /// independent of the server and of every other.
    pub fn accept(&mut self, engine: Handshake) -> (r: ZmqResult<Socket>)
        ensures
            engine@.state == HandshakeState::Active && engine@.local == SocketType::REP ==> r is Ok
                && r->Ok_0 is Rep && r->Ok_0->Rep_0.recv_state() == RecvState::Delimiter,
            r is Ok ==> engine@.remote is Some && SocketType::REP.compatible(engine@.remote->0),
            !(engine@.state == HandshakeState::Active && engine@.local == SocketType::REP) ==> r
                == Err::<Socket, ZmqError>(
                ZmqError::Other("Handshake has not made a REP connection"),
            ),
    {
        if engine.is_active() && engine.local() == SocketType::REP {
            Ok(Socket::Rep(RepSocket { state: RecvState::Delimiter }))
        } else {
            Err(ZmqError::Other("Handshake has not made a REP connection"))
        }
    }
}

/// What one socket sends, the other receives: the envelope of `body`,
/// delivered to a socket that is not inside a receive, yields `body` at once
/// and leaves the socket ready for the next envelope.
pub proof fn lemma_envelope_round_trip(body: Seq<u8>)
    ensures
        recv_step(RecvState::Delimiter, Some(Ok(envelope(body)))) == (RecvStep {
            next: RecvState::Delimiter,
            outcome: Ok(Some(body)),
        }),
{
    let parts = seq![Seq::<u8>::empty(), body];
    assert(parts.skip(1) =~= seq![body]);
    seq![body].lemma_flatten_singleton();
}

/// A body that one socket sends reaches the other unchanged: the envelope
/// fits the wire, is decoded on the other side as the same envelope, and is
/// there taken apart to the very bytes that were sent.
pub proof fn lemma_body_crosses_the_wire(body: Seq<u8>, later: Seq<u8>)
    requires
        body.len() <= MAX_FRAME_LEN,
    ensures
        ({
            let sent = envelope(body);
            let decoded = decode_spec(CodecView::idle(), message_bytes(sent) + later);
            &&& message_encodable(sent)
            &&& decoded.result == Ok::<Option<MessageView>, ZmqError>(Some(sent))
            &&& decoded.rest == later
            &&& recv_step(RecvState::Delimiter, Some(Ok(sent))).outcome == Ok::<
                Option<Seq<u8>>,
                ZmqError,
            >(Some(body))
        }),
{
    let parts = seq![Seq::<u8>::empty(), body];
    lemma_multipart_round_trip(parts, later);
    lemma_envelope_round_trip(body);
}

/// A message whose first frame is not empty is refused as a protocol
/// violation when it arrives where an envelope starts; its bytes are never
/// handed out as a body.
pub proof fn lemma_non_empty_delimiter_is_refused(msg: MessageView)
    requires
        msg.first_frame() is Some,
        msg.first_frame()->0.len() > 0,
    ensures
        recv_step(RecvState::Delimiter, Some(Ok(msg))).outcome is Err,
        recv_step(RecvState::Delimiter, Some(Ok(msg))).outcome->Err_0.is_protocol_violation(),
{
}

/// A stream that ends where a message was expected yields `NoMessage`, which
/// is no protocol violation, whatever the socket was waiting for.
pub proof fn lemma_end_of_stream_is_no_message(state: RecvState)
    ensures
        recv_step(state, None).outcome == Err::<Option<Seq<u8>>, ZmqError>(ZmqError::NoMessage),
        !ZmqError::NoMessage.is_protocol_violation(),
{
}

} // verus!
