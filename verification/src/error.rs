//! The ways an operation of this library can fail.

use crate::socket_type::SocketType;
use vstd::prelude::*;

verus! {

/// Every failure is fatal to the connection it arose on. Nothing in the
/// library retries.
#[derive(Clone, Debug, PartialEq, Eq)]
pub enum ZmqError {
    /// The transport failed to read or write. The text is the transport's own
    /// description; the library only passes it on.
    Network(String),
    /// The peer sent bytes that are no valid greeting, frame or command.
    Codec(&'static str),
    /// A well-formed message arrived whose shape the protocol forbids at this
    /// point, or a step was asked for that the state of the connection does
    /// not allow.
    Other(&'static str),
    /// The stream ended cleanly where a message was expected.
    NoMessage,
    /// The handshake found a socket type on the other side that the local
    /// one cannot be connected to.
    Incompatible { local: SocketType, remote: SocketType },
}

pub type ZmqResult<T> = Result<T, ZmqError>;

/// The kinds of failure that a caller may want to tell apart.
#[derive(Clone, Copy, Debug, PartialEq, Eq, Structural)]
pub enum ErrorKind {
    /// The network failed.
    Stream,
    /// The rules of the protocol were broken.
    Protocol,
    /// The peer left in good order.
    NoMessage,
    /// The two socket types cannot be connected.
    Incompatibility,
}

impl ZmqError {
    /// The kind of the failure.
    pub open spec fn class(self) -> ErrorKind {
        match self {
            ZmqError::Network(_) => ErrorKind::Stream,
            ZmqError::Codec(_) => ErrorKind::Protocol,
            ZmqError::Other(_) => ErrorKind::Protocol,
            ZmqError::NoMessage => ErrorKind::NoMessage,
            ZmqError::Incompatible { .. } => ErrorKind::Incompatibility,
        }
    }

    /// Whether the rules of the protocol were broken, as opposed to the
    /// network failing or the peer leaving in good order.
    pub open spec fn is_protocol_violation(self) -> bool {
        self.class() == ErrorKind::Protocol
    }

    /// The kind of the failure.
    pub fn kind(&self) -> (k: ErrorKind)
        ensures
            k == self.class(),
    {
        match self {
            ZmqError::Network(_) => ErrorKind::Stream,
            ZmqError::Codec(_) => ErrorKind::Protocol,
            ZmqError::Other(_) => ErrorKind::Protocol,
            ZmqError::NoMessage => ErrorKind::NoMessage,
            ZmqError::Incompatible { .. } => ErrorKind::Incompatibility,
        }
    }
}

} // verus!
