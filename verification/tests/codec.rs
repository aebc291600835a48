use bytes::{Bytes, BytesMut};
use zmq_rs::command::{parse_properties, socket_type_key_bytes};
use zmq_rs::{
    Message, Property, SocketType, ZmqCodec, ZmqCommand, ZmqCommandName, ZmqError, ZmqGreeting,
    ZmqMechanism, ZmqMessage,
};

fn part(data: &[u8]) -> ZmqMessage {
    ZmqMessage { data: Bytes::copy_from_slice(data) }
}

/// A codec that has seen the greeting and expects frames.
fn greeted() -> ZmqCodec {
    let mut codec = ZmqCodec::new();
    let mut wire = BytesMut::new();
    wire.extend_from_slice(&ZmqGreeting::new().encode());
    assert_eq!(codec.decode(&mut wire), Ok(Some(Message::Greeting(ZmqGreeting::new()))));
    assert!(wire.is_empty());
    codec
}

fn encoded(item: Message) -> Vec<u8> {
    let mut codec = ZmqCodec::new();
    let mut dst = BytesMut::new();
    assert_eq!(codec.encode(item, &mut dst), Ok(()));
    dst.to_vec()
}

fn ready_req_frame() -> Vec<u8> {
    let mut expected = vec![0x04u8, 25, 5];
    expected.extend_from_slice(b"READY");
    expected.push(11);
    expected.extend_from_slice(b"Socket-Type");
    expected.extend_from_slice(&[0, 0, 0, 3]);
    expected.extend_from_slice(b"REQ");
    expected
}

#[test]
fn single_message_on_the_wire() {
    assert_eq!(encoded(Message::Message(part(b"ping"))), vec![0x00, 0x04, b'p', b'i', b'n', b'g']);
    assert_eq!(encoded(Message::Message(part(b""))), vec![0x00, 0x00]);
}

#[test]
fn multipart_message_on_the_wire() {
    let item = Message::MultipartMessage(vec![part(b""), part(b"ping")]);
    assert_eq!(encoded(item), vec![0x01, 0x00, 0x00, 0x04, b'p', b'i', b'n', b'g']);
    let item = Message::MultipartMessage(vec![part(b"a"), part(b"bc"), part(b"")]);
    assert_eq!(encoded(item), vec![0x01, 0x01, b'a', 0x01, 0x02, b'b', b'c', 0x00, 0x00]);
}

#[test]
fn long_payload_gets_the_long_header() {
    let payload = vec![0x5Au8; 256];
    let bytes = encoded(Message::Message(part(&payload)));
    assert_eq!(&bytes[..9], &[0x02, 0, 0, 0, 0, 0, 0, 1, 0]);
    assert_eq!(&bytes[9..], &payload[..]);
    let payload = vec![0x5Au8; 255];
    let bytes = encoded(Message::Message(part(&payload)));
    assert_eq!(&bytes[..2], &[0x00, 0xFF]);
    assert_eq!(bytes.len(), 257);
}

#[test]
fn greeting_message_on_the_wire() {
    let bytes = encoded(Message::Greeting(ZmqGreeting::new()));
    assert_eq!(bytes, ZmqGreeting::new().encode());
    assert_eq!(bytes.len(), 64);
}

#[test]
fn ready_command_on_the_wire() {
    let command = ZmqCommand::ready(SocketType::REQ);
    assert_eq!(command.name, ZmqCommandName::READY);
    assert_eq!(
        command.properties,
        vec![Property { name: b"Socket-Type".to_vec(), value: b"REQ".to_vec() }]
    );
    assert_eq!(command.encode(), Ok(ready_req_frame()[2..].to_vec()));
    assert_eq!(encoded(Message::Command(command)), ready_req_frame());
}

#[test]
fn encode_appends_to_what_is_there() {
    let mut codec = ZmqCodec::new();
    let mut dst = BytesMut::new();
    dst.extend_from_slice(&[0xAA, 0xBB]);
    assert_eq!(codec.encode(Message::Message(part(b"x")), &mut dst), Ok(()));
    assert_eq!(dst.to_vec(), vec![0xAA, 0xBB, 0x00, 0x01, b'x']);
}

#[test]
fn empty_multipart_is_not_encoded() {
    let mut codec = ZmqCodec::new();
    let mut dst = BytesMut::new();
    dst.extend_from_slice(&[0xAA]);
    assert_eq!(
        codec.encode(Message::MultipartMessage(Vec::new()), &mut dst),
        Err(ZmqError::Other("Message does not fit the wire"))
    );
    assert_eq!(dst.to_vec(), vec![0xAA]);
}

#[test]
fn command_with_bad_property_is_not_encoded() {
    let nameless = ZmqCommand {
        name: ZmqCommandName::READY,
        properties: vec![Property { name: Vec::new(), value: b"x".to_vec() }],
    };
    assert_eq!(
        nameless.encode(),
        Err(ZmqError::Other("Command property does not fit the wire"))
    );
    let long_name = ZmqCommand {
        name: ZmqCommandName::READY,
        properties: vec![
            Property { name: b"ok".to_vec(), value: Vec::new() },
            Property { name: vec![b'n'; 256], value: Vec::new() },
        ],
    };
    assert_eq!(
        long_name.encode(),
        Err(ZmqError::Other("Command property does not fit the wire"))
    );
    let mut codec = ZmqCodec::new();
    let mut dst = BytesMut::new();
    assert_eq!(
        codec.encode(Message::Command(long_name), &mut dst),
        Err(ZmqError::Other("Message does not fit the wire"))
    );
    assert!(dst.is_empty());
}

#[test]
fn decode_single_round_trip() {
    let payloads =
        [&b""[..], &b"x"[..], &b"ping"[..], &[0u8; 255][..], &[7u8; 256][..], &[9u8; 70000][..]];
    for payload in payloads {
        let mut codec = greeted();
        let mut wire = BytesMut::new();
        wire.extend_from_slice(&encoded(Message::Message(part(payload))));
        assert_eq!(codec.decode(&mut wire), Ok(Some(Message::Message(part(payload)))));
        assert!(wire.is_empty());
        assert_eq!(codec.decode(&mut wire), Ok(None));
    }
}

#[test]
fn decode_multipart_round_trip() {
    let parts = vec![part(b""), part(b"ping"), part(&[1u8; 300]), part(b"")];
    let mut codec = greeted();
    let mut wire = BytesMut::new();
    wire.extend_from_slice(&encoded(Message::MultipartMessage(parts.clone())));
    assert_eq!(codec.decode(&mut wire), Ok(Some(Message::MultipartMessage(parts))));
    assert!(wire.is_empty());
    let two = vec![part(b"a"), part(b"b")];
    wire.extend_from_slice(&encoded(Message::MultipartMessage(two.clone())));
    assert_eq!(codec.decode(&mut wire), Ok(Some(Message::MultipartMessage(two))));
}

#[test]
fn multipart_of_one_frame_decodes_as_single() {
    let mut codec = greeted();
    let mut wire = BytesMut::new();
    wire.extend_from_slice(&encoded(Message::MultipartMessage(vec![part(b"only")])));
    assert_eq!(wire.to_vec(), encoded(Message::Message(part(b"only"))));
    assert_eq!(codec.decode(&mut wire), Ok(Some(Message::Message(part(b"only")))));
}

#[test]
fn decode_takes_one_message_and_leaves_the_rest() {
    let mut codec = greeted();
    let mut wire = BytesMut::new();
    wire.extend_from_slice(&[0x00, 0x01, b'a', 0x01, 0x01, b'b', 0x00, 0x01, b'c', 0x00]);
    assert_eq!(codec.decode(&mut wire), Ok(Some(Message::Message(part(b"a")))));
    assert_eq!(wire.to_vec(), vec![0x01, 0x01, b'b', 0x00, 0x01, b'c', 0x00]);
    assert_eq!(
        codec.decode(&mut wire),
        Ok(Some(Message::MultipartMessage(vec![part(b"b"), part(b"c")])))
    );
    assert_eq!(wire.to_vec(), vec![0x00]);
    assert_eq!(codec.decode(&mut wire), Ok(None));
    assert_eq!(wire.to_vec(), vec![0x00]);
}

#[test]
fn decode_one_byte_at_a_time() {
    let parts = vec![part(b""), part(b"ping"), part(&[3u8; 260])];
    let bytes = encoded(Message::MultipartMessage(parts.clone()));
    let mut codec = greeted();
    let mut wire = BytesMut::new();
    for (i, byte) in bytes.iter().enumerate() {
        wire.extend_from_slice(&[*byte]);
        let got = codec.decode(&mut wire);
        if i + 1 < bytes.len() {
            assert_eq!(got, Ok(None));
        } else {
            assert_eq!(got, Ok(Some(Message::MultipartMessage(parts.clone()))));
        }
    }
    assert!(wire.is_empty());
}

#[test]
fn decode_in_uneven_chunks() {
    let parts = vec![part(b"abc"), part(&[8u8; 400]), part(b"z")];
    let bytes = encoded(Message::MultipartMessage(parts.clone()));
    for size in [1usize, 2, 3, 5, 7, 64, 199, 1000] {
        let mut codec = greeted();
        let mut wire = BytesMut::new();
        let mut out = None;
        for chunk in bytes.chunks(size) {
            assert_eq!(out, None);
            wire.extend_from_slice(chunk);
            out = codec.decode(&mut wire).unwrap();
        }
        assert_eq!(out, Some(Message::MultipartMessage(parts.clone())));
        assert!(wire.is_empty());
    }
}

#[test]
fn greeting_comes_first_and_in_pieces() {
    let mut codec = ZmqCodec::new();
    let mut wire = BytesMut::new();
    let greeting = ZmqGreeting { version: (3, 0), mechanism: ZmqMechanism::NULL, as_server: true };
    let bytes = greeting.encode();
    wire.extend_from_slice(&bytes[..63]);
    assert_eq!(codec.decode(&mut wire), Ok(None));
    assert_eq!(wire.len(), 63);
    wire.extend_from_slice(&bytes[63..]);
    wire.extend_from_slice(&[0x00, 0x01, b'a']);
    assert_eq!(codec.decode(&mut wire), Ok(Some(Message::Greeting(greeting))));
    assert_eq!(wire.to_vec(), vec![0x00, 0x01, b'a']);
    assert_eq!(codec.decode(&mut wire), Ok(Some(Message::Message(part(b"a")))));
}

#[test]
fn malformed_greeting_is_an_error_that_stays() {
    let mut codec = ZmqCodec::new();
    let mut wire = BytesMut::new();
    wire.extend_from_slice(&[0u8; 64]);
    assert_eq!(codec.decode(&mut wire), Err(ZmqError::Codec("Greeting signature is malformed")));
    assert_eq!(wire.len(), 64);
    assert_eq!(codec.decode(&mut wire), Err(ZmqError::Codec("Greeting signature is malformed")));
}

#[test]
fn decode_ready_command() {
    let mut codec = greeted();
    let mut wire = BytesMut::new();
    wire.extend_from_slice(&ready_req_frame());
    wire.extend_from_slice(&[0x00]);
    assert_eq!(
        codec.decode(&mut wire),
        Ok(Some(Message::Command(ZmqCommand::ready(SocketType::REQ))))
    );
    assert_eq!(wire.to_vec(), vec![0x00]);
}

#[test]
fn decode_command_with_several_properties() {
    let command = ZmqCommand {
        name: ZmqCommandName::READY,
        properties: vec![
            Property { name: b"Socket-Type".to_vec(), value: b"DEALER".to_vec() },
            Property { name: b"Identity".to_vec(), value: Vec::new() },
            Property { name: b"X".to_vec(), value: vec![0xAB; 300] },
        ],
    };
    let mut codec = greeted();
    let mut wire = BytesMut::new();
    wire.extend_from_slice(&encoded(Message::Command(command.clone())));
    assert_eq!(wire[0], 0x06);
    assert_eq!(codec.decode(&mut wire), Ok(Some(Message::Command(command.clone()))));
    assert_eq!(command.socket_type(), Some(SocketType::DEALER));
    assert_eq!(ZmqCommand::parse(&command.encode().unwrap()), Ok(command));
}

#[test]
fn last_socket_type_property_counts() {
    let command = ZmqCommand {
        name: ZmqCommandName::READY,
        properties: vec![
            Property { name: b"Socket-Type".to_vec(), value: b"REQ".to_vec() },
            Property { name: b"Socket-Type".to_vec(), value: b"REP".to_vec() },
            Property { name: b"Identity".to_vec(), value: b"REQ".to_vec() },
        ],
    };
    assert_eq!(command.socket_type(), Some(SocketType::REP));
    let unknown = ZmqCommand {
        name: ZmqCommandName::READY,
        properties: vec![Property { name: b"Socket-Type".to_vec(), value: b"nope".to_vec() }],
    };
    assert_eq!(unknown.socket_type(), None);
    let none = ZmqCommand { name: ZmqCommandName::READY, properties: Vec::new() };
    assert_eq!(none.socket_type(), None);
}

#[test]
fn names_inside_a_command() {
    assert_eq!(ZmqCommandName::READY.name_bytes(), b"READY".to_vec());
    assert_eq!(socket_type_key_bytes(), b"Socket-Type".to_vec());
}

#[test]
fn properties_are_read_in_wire_order() {
    assert_eq!(parse_properties(&[]), Some(Vec::new()));
    let wire = [1, b'a', 0, 0, 0, 2, b'x', b'y', 2, b'b', b'c', 0, 0, 0, 0];
    assert_eq!(
        parse_properties(&wire),
        Some(vec![
            Property { name: b"a".to_vec(), value: b"xy".to_vec() },
            Property { name: b"bc".to_vec(), value: Vec::new() },
        ])
    );
    assert_eq!(parse_properties(&wire[..14]), None);
    assert_eq!(parse_properties(&wire[..9]), None);
    assert_eq!(parse_properties(&[1, b'a', 0xFF, 0xFF, 0xFF, 0xFF, 0]), None);
}

#[test]
fn unknown_command_is_refused() {
    let mut codec = greeted();
    let mut wire = BytesMut::new();
    wire.extend_from_slice(&[0x04, 0x06, 5, b'E', b'R', b'R', b'O', b'R']);
    assert_eq!(codec.decode(&mut wire), Err(ZmqError::Codec("Unknown command received")));
    assert_eq!(wire.len(), 8);
}

#[test]
fn command_with_cut_name_is_refused() {
    assert_eq!(ZmqCommand::parse(&[]), Err(ZmqError::Codec("Command name is cut short")));
    assert_eq!(
        ZmqCommand::parse(&[5, b'R', b'E', b'A']),
        Err(ZmqError::Codec("Command name is cut short"))
    );
}

#[test]
fn command_with_malformed_properties_is_refused() {
    let mut body = vec![5u8];
    body.extend_from_slice(b"READY");
    body.extend_from_slice(&[3, b'a', b'b', b'c', 0, 0, 0, 2, b'x']);
    assert_eq!(
        ZmqCommand::parse(&body),
        Err(ZmqError::Codec("Command properties are malformed"))
    );
    let mut body = vec![5u8];
    body.extend_from_slice(b"READY");
    body.extend_from_slice(&[0, 0, 0, 0, 0]);
    assert_eq!(
        ZmqCommand::parse(&body),
        Err(ZmqError::Codec("Command properties are malformed"))
    );
    let mut body = vec![5u8];
    body.extend_from_slice(b"READY");
    body.extend_from_slice(&[1, b'a', 0, 0]);
    assert_eq!(
        ZmqCommand::parse(&body),
        Err(ZmqError::Codec("Command properties are malformed"))
    );
}

#[test]
fn command_inside_multipart_is_refused() {
    let mut codec = greeted();
    let mut wire = BytesMut::new();
    wire.extend_from_slice(&[0x01, 0x01, b'a']);
    wire.extend_from_slice(&ready_req_frame());
    assert_eq!(
        codec.decode(&mut wire),
        Err(ZmqError::Codec("Command frame inside a multipart message"))
    );
    assert_eq!(wire.to_vec(), ready_req_frame());
}

#[test]
fn malformed_frames_are_refused() {
    let mut codec = greeted();
    let mut wire = BytesMut::new();
    wire.extend_from_slice(&[0x10, 0x00]);
    assert_eq!(codec.decode(&mut wire), Err(ZmqError::Codec("Reserved frame flags are set")));
    assert_eq!(wire.to_vec(), vec![0x10, 0x00]);
    let mut codec = greeted();
    let mut wire = BytesMut::new();
    wire.extend_from_slice(&[0x05]);
    assert_eq!(
        codec.decode(&mut wire),
        Err(ZmqError::Codec("Command frame announces more frames"))
    );
    let mut codec = greeted();
    let mut wire = BytesMut::new();
    wire.extend_from_slice(&[0x02, 0xFF, 0, 0, 0, 0, 0, 0, 0]);
    assert_eq!(codec.decode(&mut wire), Err(ZmqError::Codec("Frame length is out of range")));
}

#[test]
fn clean_end_of_stream_is_no_error() {
    let mut codec = ZmqCodec::new();
    let mut wire = BytesMut::new();
    assert_eq!(codec.decode_eof(&mut wire), Ok(None));
    let mut codec = greeted();
    assert_eq!(codec.decode_eof(&mut wire), Ok(None));
}

#[test]
fn end_of_stream_inside_a_message_is_an_error() {
    let mut codec = greeted();
    let mut wire = BytesMut::new();
    wire.extend_from_slice(&[0x00, 0x04, b'p', b'i']);
    assert_eq!(
        codec.decode_eof(&mut wire),
        Err(ZmqError::Codec("Stream ended inside a message"))
    );
    let mut codec = greeted();
    let mut wire = BytesMut::new();
    wire.extend_from_slice(&[0x01, 0x00]);
    assert_eq!(
        codec.decode_eof(&mut wire),
        Err(ZmqError::Codec("Stream ended inside a message"))
    );
    let mut codec = ZmqCodec::new();
    let mut wire = BytesMut::new();
    wire.extend_from_slice(&[0xFF, 0, 0]);
    assert_eq!(
        codec.decode_eof(&mut wire),
        Err(ZmqError::Codec("Stream ended inside a message"))
    );
}

#[test]
fn end_of_stream_after_a_whole_message_hands_it_out() {
    let mut codec = greeted();
    let mut wire = BytesMut::new();
    wire.extend_from_slice(&[0x00, 0x02, b'o', b'k']);
    assert_eq!(codec.decode_eof(&mut wire), Ok(Some(Message::Message(part(b"ok")))));
    assert_eq!(codec.decode_eof(&mut wire), Ok(None));
}

#[test]
fn long_frame_with_a_short_payload_is_understood() {
    let mut codec = greeted();
    let mut wire = BytesMut::new();
    wire.extend_from_slice(&[0x02, 0, 0, 0, 0, 0, 0, 0, 2, b'h', b'i']);
    assert_eq!(codec.decode(&mut wire), Ok(Some(Message::Message(part(b"hi")))));
    wire.extend_from_slice(&[0x03, 0, 0, 0, 0, 0, 0, 0, 0, 0x00, 0x01, b'x']);
    assert_eq!(
        codec.decode(&mut wire),
        Ok(Some(Message::MultipartMessage(vec![part(b""), part(b"x")])))
    );
}

#[test]
fn well_formed_messages() {
    assert!(Message::Message(part(b"")).is_well_formed());
    assert!(Message::MultipartMessage(vec![part(b"")]).is_well_formed());
    assert!(!Message::MultipartMessage(Vec::new()).is_well_formed());
    assert!(Message::Greeting(ZmqGreeting::new()).is_well_formed());
    assert!(Message::Command(ZmqCommand::ready(SocketType::PUB)).is_well_formed());
}

#[test]
fn payload_helpers() {
    let d = ZmqMessage::delimiter();
    assert!(d.is_empty());
    assert_eq!(d.to_vec(), Vec::<u8>::new());
    let m = ZmqMessage::from_slice(b"ping");
    assert!(!m.is_empty());
    assert_eq!(m.to_vec(), b"ping".to_vec());
    assert_eq!(m, part(b"ping"));
}
