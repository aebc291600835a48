//! A sans-I/O engine for the ZMTP wire protocol: frame codec, connection
//! handshake and the REQ, REP and PUB socket disciplines.
//!
//! Nothing here reads or writes a stream. The codec turns the bytes that a
//! transport delivered into messages and messages into the bytes to write;
//! the handshake and the sockets say, message by message, what to write
//! next and what a delivery means.

pub mod buffer;
pub mod codec;
pub mod codec_proofs;
pub mod command;
pub mod error;
pub mod greeting;
pub mod handshake;
pub mod message;
pub mod req_rep;
pub mod socket;
pub mod socket_type;
pub mod wire;

pub use crate::codec::ZmqCodec;
pub use crate::command::{Property, ZmqCommand, ZmqCommandName};
pub use crate::error::{ErrorKind, ZmqError, ZmqResult};
pub use crate::greeting::{ZmqGreeting, ZmqMechanism};
pub use crate::handshake::{Handshake, HandshakeState};
pub use crate::message::{Message, ZmqMessage};
pub use crate::req_rep::{RepSocket, RepSocketServer, ReqSocket};
pub use crate::socket::{PubSocket, Socket};
pub use crate::socket_type::SocketType;
