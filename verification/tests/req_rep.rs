use bytes::{Bytes, BytesMut};
use zmq_rs::req_rep::RecvState;
use zmq_rs::{
    ErrorKind, Handshake, Message, PubSocket, RepSocketServer, ReqSocket, Socket, SocketType,
    ZmqCodec, ZmqCommand, ZmqError, ZmqGreeting, ZmqMessage,
};

fn part(data: &[u8]) -> ZmqMessage {
    ZmqMessage { data: Bytes::copy_from_slice(data) }
}

/// A handshake between `local` and `remote` that has run to its end.
fn shaken(local: SocketType, remote: SocketType) -> Handshake {
    let mut engine = Handshake::new(local);
    engine.start().unwrap();
    engine.receive(Some(Ok(Message::Greeting(ZmqGreeting::new())))).unwrap();
    assert_eq!(engine.receive(Some(Ok(Message::Command(ZmqCommand::ready(remote))))), Ok(None));
    assert!(engine.is_active());
    engine
}

fn req() -> ReqSocket {
    ReqSocket::connect(shaken(SocketType::REQ, SocketType::REP)).unwrap()
}

fn rep() -> Socket {
    RepSocketServer::new().accept(shaken(SocketType::REP, SocketType::REQ)).unwrap()
}

/// One direction of a connection: what one side encodes, the other decodes.
struct Wire {
    encoder: ZmqCodec,
    decoder: ZmqCodec,
    bytes: BytesMut,
}

impl Wire {
    fn new() -> Wire {
        let mut wire =
            Wire { encoder: ZmqCodec::new(), decoder: ZmqCodec::new(), bytes: BytesMut::new() };
        wire.put(Message::Greeting(ZmqGreeting::new()));
        assert_eq!(wire.take(), Some(Ok(Message::Greeting(ZmqGreeting::new()))));
        wire
    }

    fn put(&mut self, item: Message) {
        self.encoder.encode(item, &mut self.bytes).unwrap();
    }

    fn take(&mut self) -> Option<Result<Message, ZmqError>> {
        match self.decoder.decode_eof(&mut self.bytes) {
            Ok(Some(m)) => Some(Ok(m)),
            Ok(None) => None,
            Err(e) => Some(Err(e)),
        }
    }
}

#[test]
fn req_send_wraps_the_body() {
    let mut socket = req();
    assert_eq!(
        socket.send(b"ping".to_vec()),
        Message::MultipartMessage(vec![part(b""), part(b"ping")])
    );
    assert_eq!(socket.send(Vec::new()), Message::MultipartMessage(vec![part(b""), part(b"")]));
}

#[test]
fn rep_send_wraps_the_body() {
    let mut socket = rep();
    assert_eq!(
        socket.send(b"pong".to_vec()),
        Message::MultipartMessage(vec![part(b""), part(b"pong")])
    );
}

#[test]
fn pub_send_does_not_wrap() {
    let mut socket = PubSocket::bind(shaken(SocketType::PUB, SocketType::SUB)).unwrap();
    assert_eq!(socket.send(b"10001 20 30".to_vec()), Message::Message(part(b"10001 20 30")));
    let mut socket = Socket::Pub(socket);
    assert_eq!(socket.socket_type(), SocketType::PUB);
    assert_eq!(socket.send(b"x".to_vec()), Message::Message(part(b"x")));
    assert_eq!(
        socket.recv(Some(Ok(Message::Message(part(b""))))),
        Err(ZmqError::Other("PUB sockets do not receive"))
    );
}

#[test]
fn recv_takes_a_multipart_envelope() {
    let mut socket = req();
    let incoming = Message::MultipartMessage(vec![part(b""), part(b"pong")]);
    assert_eq!(socket.recv(Some(Ok(incoming))), Ok(Some(b"pong".to_vec())));
    let mut socket = rep();
    let incoming = Message::MultipartMessage(vec![part(b""), part(b"ping")]);
    assert_eq!(socket.recv(Some(Ok(incoming))), Ok(Some(b"ping".to_vec())));
}

#[test]
fn recv_joins_the_frames_behind_the_delimiter() {
    let mut socket = req();
    let incoming = Message::MultipartMessage(vec![part(b""), part(b"ab"), part(b""), part(b"cd")]);
    assert_eq!(socket.recv(Some(Ok(incoming))), Ok(Some(b"abcd".to_vec())));
    let incoming = Message::MultipartMessage(vec![part(b"")]);
    assert_eq!(socket.recv(Some(Ok(incoming))), Ok(Some(Vec::new())));
}

#[test]
fn recv_takes_delimiter_and_body_as_two_messages() {
    let mut socket = req();
    assert_eq!(socket.recv(Some(Ok(Message::Message(part(b""))))), Ok(None));
    assert_eq!(socket.recv(Some(Ok(Message::Message(part(b"pong"))))), Ok(Some(b"pong".to_vec())));
    assert_eq!(socket.recv(Some(Ok(Message::Message(part(b""))))), Ok(None));
    assert_eq!(socket.recv(Some(Ok(Message::Message(part(b""))))), Ok(Some(Vec::new())));
    let mut socket = rep();
    assert_eq!(socket.recv(Some(Ok(Message::Message(part(b""))))), Ok(None));
    assert_eq!(socket.recv(Some(Ok(Message::Message(part(b"ping"))))), Ok(Some(b"ping".to_vec())));
}

#[test]
fn non_empty_delimiter_is_a_protocol_error() {
    let mut socket = req();
    assert_eq!(
        socket.recv(Some(Ok(Message::Message(part(b"pong"))))),
        Err(ZmqError::Other("Delimiter frame is not empty"))
    );
    let incoming = Message::MultipartMessage(vec![part(b"x"), part(b"pong")]);
    assert_eq!(
        socket.recv(Some(Ok(incoming))),
        Err(ZmqError::Other("Delimiter frame is not empty"))
    );
    let mut socket = rep();
    assert_eq!(
        socket.recv(Some(Ok(Message::Message(part(b"ping"))))),
        Err(ZmqError::Other("Delimiter frame is not empty"))
    );
    let incoming = Message::MultipartMessage(vec![part(b"ping")]);
    assert_eq!(
        socket.recv(Some(Ok(incoming))),
        Err(ZmqError::Other("Delimiter frame is not empty"))
    );
}

#[test]
fn multipart_without_frames_is_a_protocol_error() {
    let mut socket = req();
    assert_eq!(
        socket.recv(Some(Ok(Message::MultipartMessage(Vec::new())))),
        Err(ZmqError::Other("Multipart message without frames"))
    );
}

#[test]
fn wrong_kind_of_message_is_a_protocol_error() {
    let mut socket = req();
    assert_eq!(
        socket.recv(Some(Ok(Message::Greeting(ZmqGreeting::new())))),
        Err(ZmqError::Other("Wrong message type received"))
    );
    assert_eq!(
        socket.recv(Some(Ok(Message::Command(ZmqCommand::ready(SocketType::REP))))),
        Err(ZmqError::Other("Wrong message type received"))
    );
    assert_eq!(socket.recv(Some(Ok(Message::Message(part(b""))))), Ok(None));
    let incoming = Message::MultipartMessage(vec![part(b""), part(b"pong")]);
    assert_eq!(
        socket.recv(Some(Ok(incoming))),
        Err(ZmqError::Other("Wrong message type received"))
    );
    assert_eq!(socket.recv(Some(Ok(Message::Message(part(b""))))), Ok(None));
    assert_eq!(
        socket.recv(Some(Ok(Message::Command(ZmqCommand::ready(SocketType::REP))))),
        Err(ZmqError::Other("Wrong message type received"))
    );
}

#[test]
fn a_failed_receive_starts_over() {
    let mut socket = req();
    assert_eq!(socket.recv(Some(Ok(Message::Message(part(b""))))), Ok(None));
    assert_eq!(socket.recv(None), Err(ZmqError::NoMessage));
    assert_eq!(
        socket.recv(Some(Ok(Message::Message(part(b"body"))))),
        Err(ZmqError::Other("Delimiter frame is not empty"))
    );
}

#[test]
fn end_of_stream_is_no_message() {
    let mut socket = req();
    assert_eq!(socket.recv(None), Err(ZmqError::NoMessage));
    let mut socket = rep();
    assert_eq!(socket.recv(None), Err(ZmqError::NoMessage));
    assert_eq!(socket.recv(Some(Ok(Message::Message(part(b""))))), Ok(None));
    assert_eq!(socket.recv(None), Err(ZmqError::NoMessage));
}

#[test]
fn end_of_stream_before_any_byte_reaches_recv_as_no_message() {
    let mut wire = Wire::new();
    let mut server = rep();
    assert_eq!(wire.take(), None);
    assert_eq!(server.recv(wire.take()), Err(ZmqError::NoMessage));
}

#[test]
fn transport_and_codec_errors_pass_through() {
    let mut socket = req();
    let lost = ZmqError::Network("connection reset".to_string());
    assert_eq!(socket.recv(Some(Err(lost.clone()))), Err(lost));
    let bad = ZmqError::Codec("Reserved frame flags are set");
    assert_eq!(socket.recv(Some(Err(bad.clone()))), Err(bad));
}

#[test]
fn connect_needs_an_active_req_handshake() {
    let refused = Err(ZmqError::Other("Handshake has not made a REQ connection"));
    assert_eq!(ReqSocket::connect(Handshake::new(SocketType::REQ)).map(|_| ()), refused);
    assert_eq!(ReqSocket::connect(shaken(SocketType::REP, SocketType::REQ)).map(|_| ()), refused);
    let mut failed = Handshake::new(SocketType::REQ);
    failed.start().unwrap();
    assert!(failed.receive(None).is_err());
    assert_eq!(ReqSocket::connect(failed).map(|_| ()), refused);
    assert!(ReqSocket::connect(shaken(SocketType::REQ, SocketType::ROUTER)).is_ok());
}

#[test]
fn accept_needs_an_active_rep_handshake() {
    let refused = Err(ZmqError::Other("Handshake has not made a REP connection"));
    let mut server = RepSocketServer::new();
    assert_eq!(server.accept(Handshake::new(SocketType::REP)).map(|_| ()), refused);
    assert_eq!(server.accept(shaken(SocketType::REQ, SocketType::REP)).map(|_| ()), refused);
    let first = server.accept(shaken(SocketType::REP, SocketType::REQ)).unwrap();
    let second = server.accept(shaken(SocketType::REP, SocketType::DEALER)).unwrap();
    assert_eq!(first.socket_type(), SocketType::REP);
    assert_eq!(second.socket_type(), SocketType::REP);
    assert!(matches!(first, Socket::Rep(_)));
}

#[test]
fn bind_needs_an_active_pub_handshake() {
    let refused = Err(ZmqError::Other("Handshake has not made a PUB connection"));
    assert_eq!(PubSocket::bind(Handshake::new(SocketType::PUB)).map(|_| ()), refused);
    assert_eq!(PubSocket::bind(shaken(SocketType::REQ, SocketType::REP)).map(|_| ()), refused);
}

#[test]
fn request_and_reply_cross_the_wire() {
    for (request, reply) in [
        (&b"ping"[..], &b"pong"[..]),
        (&b""[..], &b""[..]),
        (&[0u8; 300][..], &[0xFFu8; 70000][..]),
    ] {
        let mut up = Wire::new();
        let mut down = Wire::new();
        let mut client = Socket::Req(req());
        let mut server = rep();
        up.put(client.send(request.to_vec()));
        assert_eq!(server.recv(up.take()), Ok(Some(request.to_vec())));
        down.put(server.send(reply.to_vec()));
        assert_eq!(client.recv(down.take()), Ok(Some(reply.to_vec())));
    }
}

#[test]
fn ping_pong() {
    let mut up = Wire::new();
    let mut down = Wire::new();
    let mut client = req();
    let mut server = rep();
    up.put(client.send(b"ping".to_vec()));
    assert_eq!(up.bytes.to_vec(), vec![0x01, 0x00, 0x00, 0x04, b'p', b'i', b'n', b'g']);
    assert_eq!(server.recv(up.take()), Ok(Some(b"ping".to_vec())));
    down.put(server.send(b"pong".to_vec()));
    assert_eq!(down.bytes.to_vec(), vec![0x01, 0x00, 0x00, 0x04, b'p', b'o', b'n', b'g']);
    assert_eq!(client.recv(down.take()), Ok(Some(b"pong".to_vec())));
    assert!(up.bytes.is_empty());
    assert!(down.bytes.is_empty());
}

#[test]
fn peer_that_sends_delimiter_and_body_apart_is_understood() {
    let mut up = Wire::new();
    let mut server = rep();
    up.put(Message::Message(part(b"")));
    up.put(Message::Message(part(b"ping")));
    assert_eq!(server.recv(up.take()), Ok(None));
    assert_eq!(server.recv(up.take()), Ok(Some(b"ping".to_vec())));
}

#[test]
fn kinds_of_failure_are_told_apart() {
    let mut socket = req();
    let unexpected = socket.recv(Some(Ok(Message::Message(part(b"x"))))).unwrap_err();
    assert_eq!(unexpected.kind(), ErrorKind::Protocol);
    let ended = socket.recv(None).unwrap_err();
    assert_eq!(ended.kind(), ErrorKind::NoMessage);
    assert_ne!(ended.kind(), unexpected.kind());
    assert_eq!(ZmqError::Network("timed out".to_string()).kind(), ErrorKind::Stream);
    assert_eq!(ZmqError::Codec("Reserved frame flags are set").kind(), ErrorKind::Protocol);
    let unfit = ZmqError::Incompatible { local: SocketType::REQ, remote: SocketType::REQ };
    assert_eq!(unfit.kind(), ErrorKind::Incompatibility);
}

#[test]
fn recv_state_names() {
    assert_ne!(RecvState::Delimiter, RecvState::Body);
}
