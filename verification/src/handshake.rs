//! The handshake: what two peers exchange before application messages flow.
//!
//! Each side sends its greeting, reads the peer's, sends a `READY` command
//! that announces its socket type, and reads the peer's. The engine here
//! decides every step and touches no transport: the caller writes what the
//! engine hands out and hands in what it reads.

use crate::command::{lemma_ready_announces, CommandView, ZmqCommand};
use crate::error::{ZmqError, ZmqResult};
use crate::greeting::{ZmqGreeting, ZmqMechanism};
use crate::message::{incoming_view, result_view, Incoming, Message, MessageView};
use crate::socket_type::{lemma_compatible_is_symmetric, SocketType};
use vstd::prelude::*;

verus! {

/// How far a handshake has come. The states are passed in this order and
/// none is entered twice; `Failed` can follow any other.
#[derive(Clone, Copy, Debug, PartialEq, Eq, Structural)]
pub enum HandshakeState {
    /// Nothing has been sent yet.
    AwaitingGreeting,
    /// The local greeting is out; the peer's is awaited.
    GreetingSent,
    /// The greetings are exchanged and the local `READY` is out; the
    /// peer's is awaited.
    ReadyExchanged,
    /// The peer announced a socket type that fits. Application messages may
    /// flow.
    Active,
    /// The handshake has failed. The connection is to be dropped.
    Failed,
}

/// The handshake of one connection.
#[derive(Debug)]
pub struct Handshake {
    state: HandshakeState,
    local: SocketType,
    remote: Option<SocketType>,
}

/// A handshake as contracts see it.
pub struct HandshakeView {
    pub state: HandshakeState,
    /// The socket type of this side.
    pub local: SocketType,
    /// The socket type the peer announced, once it is known to fit.
    pub remote: Option<SocketType>,
}

impl View for Handshake {
    type V = HandshakeView;

    closed spec fn view(&self) -> HandshakeView {
        HandshakeView { state: self.state, local: self.local, remote: self.remote }
    }
}

/// What a step of the handshake comes to: the engine after it, and the
/// message to write, if any, or the reason of the failure.
pub struct Step {
    pub next: HandshakeView,
    pub outcome: ZmqResult<Option<MessageView>>,
}

impl HandshakeView {
    /// What holds of every handshake: an active one knows the peer's socket
    /// type, and a peer's type that is known fits the local one.
    pub open spec fn well_formed(self) -> bool {
        &&& self.state == HandshakeState::Active ==> self.remote is Some
        &&& self.remote matches Some(remote) ==> self.local.compatible(remote)
    }

    /// The place of the handshake's state in the order in which states are
    /// passed.
    pub open spec fn progress(self) -> nat {
        match self.state {
            HandshakeState::AwaitingGreeting => 0,
            HandshakeState::GreetingSent => 1,
            HandshakeState::ReadyExchanged => 2,
            HandshakeState::Active => 3,
            HandshakeState::Failed => 4,
        }
    }

    /// The handshake of a socket of type `local`, before anything is sent.
    pub open spec fn new(local: SocketType) -> HandshakeView {
        HandshakeView { state: HandshakeState::AwaitingGreeting, local, remote: None }
    }

    /// The same handshake in another state.
    pub open spec fn to(self, state: HandshakeState) -> HandshakeView {
        HandshakeView { state, local: self.local, remote: self.remote }
    }

    /// The step that fails the handshake with `e`.
    pub open spec fn fail(self, e: ZmqError) -> Step {
        Step { next: self.to(HandshakeState::Failed), outcome: Err(e) }
    }

    /// The first step: hands out the greeting to send. It is taken once,
    /// before anything else; taken again, it fails the handshake.
    pub open spec fn start(self) -> Step {
        match self.state {
            HandshakeState::AwaitingGreeting => Step {
                next: self.to(HandshakeState::GreetingSent),
                outcome: Ok(Some(MessageView::Greeting(ZmqGreeting::standard()))),
            },
            _ => self.fail(ZmqError::Other("Handshake has already started")),
        }
    }

    /// A later step: takes what the transport delivered.
    ///
    /// The peer's greeting must speak version 3 of the protocol without a
    /// security mechanism; it is answered with the local `READY`. The
    /// peer's `READY` must announce a socket type that may be connected to
    /// the local one; it completes the handshake. Anything else fails it,
    /// and so does a delivery that the handshake is not waiting for.
    pub open spec fn receive(self, incoming: Incoming) -> Step {
        match self.state {
            HandshakeState::AwaitingGreeting => self.fail(
                ZmqError::Other("Greeting has not been sent"),
            ),
            HandshakeState::Active | HandshakeState::Failed => self.fail(
                ZmqError::Other("Handshake is over"),
            ),
            HandshakeState::GreetingSent => match incoming {
                None => self.fail(ZmqError::NoMessage),
                Some(Err(e)) => self.fail(e),
                Some(Ok(MessageView::Greeting(g))) => if g.version.0 != 3 {
                    self.fail(ZmqError::Other("Unsupported protocol version"))
                } else if g.mechanism != ZmqMechanism::NULL {
                    self.fail(ZmqError::Other("Unsupported security mechanism"))
                } else {
                    Step {
                        next: self.to(HandshakeState::ReadyExchanged),
                        outcome: Ok(Some(MessageView::Command(CommandView::ready(self.local)))),
                    }
                },
                Some(Ok(_)) => self.fail(ZmqError::Codec("Failed Greeting exchange")),
            },
            HandshakeState::ReadyExchanged => match incoming {
                None => self.fail(ZmqError::NoMessage),
                Some(Err(e)) => self.fail(e),
                Some(Ok(MessageView::Command(c))) => match c.socket_type() {
                    None => self.fail(ZmqError::Codec("Peer announced no known socket type")),
                    Some(remote) => if self.local.compatible(remote) {
                        Step {
                            next: HandshakeView {
                                state: HandshakeState::Active,
                                local: self.local,
                                remote: Some(remote),
                            },
                            outcome: Ok(None),
                        }
                    } else {
                        self.fail(ZmqError::Incompatible { local: self.local, remote })
                    },
                },
                Some(Ok(_)) => self.fail(ZmqError::Codec("Failed to confirm ready state")),
            },
        }
    }
}

impl Handshake {
    #[verifier::type_invariant]
    spec fn consistent(self) -> bool {
        self@.well_formed()
    }

    /// The handshake of a socket of type `local`, before anything is sent.
    pub fn new(local: SocketType) -> (h: Handshake)
        ensures
            h@ == HandshakeView::new(local),
    {
        Handshake { state: HandshakeState::AwaitingGreeting, local, remote: None }
    }

    pub fn state(&self) -> (s: HandshakeState)
        ensures
            s == self@.state,
            self@.well_formed(),
    {
        proof {
            use_type_invariant(self);
        }
        self.state
    }

    /// The socket type of this side.
    pub fn local(&self) -> (t: SocketType)
        ensures
            t == self@.local,
    {
        self.local
    }

    /// The socket type the peer announced, once it is known to fit.
    pub fn remote(&self) -> (t: Option<SocketType>)
        ensures
            t == self@.remote,
            self@.well_formed(),
    {
        proof {
            use_type_invariant(self);
        }
        self.remote
    }

    /// Whether application messages may flow.
    pub fn is_active(&self) -> (r: bool)
        ensures
            r == (self@.state == HandshakeState::Active),
            self@.well_formed(),
    {
        proof {
            use_type_invariant(self);
        }
        self.state == HandshakeState::Active
    }

    /// The first step: hands out the greeting to send.
    pub fn start(&mut self) -> (r: ZmqResult<Option<Message>>)
        ensures
            final(self)@ == old(self)@.start().next,
            result_view(r) == old(self)@.start().outcome,
    {
        proof {
            use_type_invariant(&*self);
        }
        match self.state {
            HandshakeState::AwaitingGreeting => {
                self.state = HandshakeState::GreetingSent;
                Ok(Some(Message::Greeting(ZmqGreeting::new())))
            },
            _ => {
                self.state = HandshakeState::Failed;
                Err(ZmqError::Other("Handshake has already started"))
            },
        }
    }

    /// A later step: takes what the transport delivered and hands out what
    /// is to be sent next. `Ok(None)` says that the handshake is complete.
    pub fn receive(&mut self, incoming: Option<ZmqResult<Message>>) -> (r: ZmqResult<
        Option<Message>,
    >)
        ensures
            final(self)@ == old(self)@.receive(incoming_view(incoming)).next,
            result_view(r) == old(self)@.receive(incoming_view(incoming)).outcome,
    {
        proof {
            use_type_invariant(&*self);
        }
        let before = self.state;
        self.state = HandshakeState::Failed;
        match before {
            HandshakeState::AwaitingGreeting => Err(ZmqError::Other("Greeting has not been sent")),
            HandshakeState::Active | HandshakeState::Failed => Err(
                ZmqError::Other("Handshake is over"),
            ),
            HandshakeState::GreetingSent => match incoming {
                None => Err(ZmqError::NoMessage),
                Some(Err(e)) => Err(e),
                Some(Ok(Message::Greeting(g))) => {
                    if g.version.0 != 3 {
                        Err(ZmqError::Other("Unsupported protocol version"))
                    } else if g.mechanism != ZmqMechanism::NULL {
                        Err(ZmqError::Other("Unsupported security mechanism"))
                    } else {
                        self.state = HandshakeState::ReadyExchanged;
                        Ok(Some(Message::Command(ZmqCommand::ready(self.local))))
                    }
                },
                Some(Ok(_)) => Err(ZmqError::Codec("Failed Greeting exchange")),
            },
            HandshakeState::ReadyExchanged => match incoming {
                None => Err(ZmqError::NoMessage),
                Some(Err(e)) => Err(e),
                Some(Ok(Message::Command(c))) => match c.socket_type() {
                    None => Err(ZmqError::Codec("Peer announced no known socket type")),
                    Some(remote) => {
                        if self.local.is_compatible(remote) {
                            self.remote = Some(remote);
                            self.state = HandshakeState::Active;
                            Ok(None)
                        } else {
                            Err(ZmqError::Incompatible { local: self.local, remote })
                        }
                    },
                },
                Some(Ok(_)) => Err(ZmqError::Codec("Failed to confirm ready state")),
            },
        }
    }
}

/// Two handshakes run against each other, as far as they get.
pub struct Exchange {
    /// The last step of the side of the first socket type.
    pub one: Step,
    /// The last step of the other side.
    pub other: Step,
}

/// Runs the handshakes of two sockets against each other: both start, each
/// is handed the greeting of the other, then the `READY` of the other.
pub open spec fn exchange(one: SocketType, other: SocketType) -> Exchange {
    let a1 = HandshakeView::new(one).start();
    let b1 = HandshakeView::new(other).start();
    match (a1.outcome, b1.outcome) {
        (Ok(Some(hello_a)), Ok(Some(hello_b))) => {
            let a2 = a1.next.receive(Some(Ok(hello_b)));
            let b2 = b1.next.receive(Some(Ok(hello_a)));
            match (a2.outcome, b2.outcome) {
                (Ok(Some(ready_a)), Ok(Some(ready_b))) => Exchange {
                    one: a2.next.receive(Some(Ok(ready_b))),
                    other: b2.next.receive(Some(Ok(ready_a))),
                },
                _ => Exchange { one: a2, other: b2 },
            }
        },
        _ => Exchange { one: a1, other: b1 },
    }
}

/// Two sockets whose types may be connected complete the handshake on both
/// sides, and each side knows the type of the other. Two sockets whose types
/// may not be connected fail it on both sides, each with the error that
/// names the two types; neither side becomes active.
pub proof fn lemma_handshake_outcome(one: SocketType, other: SocketType)
    ensures
        one.compatible(other) ==> exchange(one, other).one == (Step {
            next: HandshakeView {
                state: HandshakeState::Active,
                local: one,
                remote: Some(other),
            },
            outcome: Ok(None),
        }) && exchange(one, other).other == (Step {
            next: HandshakeView {
                state: HandshakeState::Active,
                local: other,
                remote: Some(one),
            },
            outcome: Ok(None),
        }),
        !one.compatible(other) ==> exchange(one, other).one == (Step {
            next: HandshakeView { state: HandshakeState::Failed, local: one, remote: None },
            outcome: Err(ZmqError::Incompatible { local: one, remote: other }),
        }) && exchange(one, other).other == (Step {
            next: HandshakeView { state: HandshakeState::Failed, local: other, remote: None },
            outcome: Err(ZmqError::Incompatible { local: other, remote: one }),
        }),
{
    lemma_ready_announces(one);
    lemma_ready_announces(other);
    lemma_compatible_is_symmetric(one, other);
}

/// The states of a handshake are passed in their order: every step moves
/// the handshake to a later state, and none is entered a second time. Only
/// a failed handshake stays what it is.
pub proof fn lemma_handshake_moves_forward(h: HandshakeView, incoming: Incoming)
    ensures
        h.start().next.progress() > h.progress() || (h.state == HandshakeState::Failed
            && h.start().next == h),
        h.receive(incoming).next.progress() > h.progress() || (h.state == HandshakeState::Failed
            && h.receive(incoming).next == h),
{
}

/// Every failure is final: a step fails exactly when it leaves the
/// handshake in `Failed`, from where no step leads away. And a handshake
/// becomes active in one way only: by a step taken while the peer's `READY`
/// is awaited.
pub proof fn lemma_handshake_failure_is_final(h: HandshakeView, incoming: Incoming)
    ensures
        h.start().outcome is Err <==> h.start().next.state == HandshakeState::Failed,
        h.receive(incoming).outcome is Err <==> h.receive(incoming).next.state
            == HandshakeState::Failed,
        h.start().next.state != HandshakeState::Active,
        h.receive(incoming).next.state == HandshakeState::Active ==> h.state
            == HandshakeState::ReadyExchanged,
{
}

/// A well-formed handshake stays well-formed, and a new one is well-formed;
/// so a handshake that is active has met a peer whose socket type fits.
pub proof fn lemma_handshake_stays_well_formed(h: HandshakeView, incoming: Incoming)
    requires
        h.well_formed(),
    ensures
        HandshakeView::new(h.local).well_formed(),
        h.start().next.well_formed(),
        h.receive(incoming).next.well_formed(),
{
}

} // verus!
