//! The codec: bytes into messages and messages into bytes.
//!
//! Decoding is incremental. The caller keeps the bytes that have arrived in
//! a buffer and offers it to `decode`, which takes whole frames off its
//! front and leaves the rest for the next call. Frames that announce more
//! frames are held back until the last frame of their message arrives.

use crate::buffer::{bytes_as_slice, bytes_mut_as_slice, bytes_mut_contents};
use crate::command::{CommandView, ZmqCommand};
use crate::error::{ZmqError, ZmqResult};
use crate::greeting::{ZmqGreeting, GREETING_LEN};
use crate::message::{result_view, Message, MessageView, ZmqMessage};
use crate::wire::{
    encode_header, parse_frame, parse_header, push_bytes, FrameParse, FrameView, MAX_FRAME_LEN,
};
use bytes::BytesMut;
use vstd::prelude::*;

verus! {

broadcast use vstd::slice::group_slice_axioms;

/// What the decoder expects next.
#[derive(Clone, Copy, Debug, PartialEq, Eq, Structural)]
pub enum DecoderState {
    /// The peer's greeting. Every connection starts here.
    Greeting,
    /// Frames.
    Frames,
}

/// The codec of one connection.
#[derive(Debug)]
pub struct ZmqCodec {
    state: DecoderState,
    /// The frames received so far of a message whose last frame is still to
    /// come.
    pending: Vec<ZmqMessage>,
}

/// A codec as contracts see it.
pub struct CodecView {
    pub state: DecoderState,
    pub pending: Seq<Seq<u8>>,
}

impl View for ZmqCodec {
    type V = CodecView;

    closed spec fn view(&self) -> CodecView {
        CodecView { state: self.state, pending: self.pending.deep_view() }
    }
}

impl CodecView {
    /// A codec at the start of a connection.
    pub open spec fn fresh() -> CodecView {
        CodecView { state: DecoderState::Greeting, pending: Seq::empty() }
    }

    /// A codec between two messages, the greeting behind it.
    pub open spec fn idle() -> CodecView {
        CodecView { state: DecoderState::Frames, pending: Seq::empty() }
    }
}

/// What one call of `decode` comes to.
pub struct Decoded {
    /// A message, `None` where more bytes are needed first, or the reason
    /// why the bytes are no message.
    pub result: ZmqResult<Option<MessageView>>,
    /// The codec after the call.
    pub codec: CodecView,
    /// The bytes left in the buffer.
    pub rest: Seq<u8>,
}

/// The message made of the frame payloads `parts`: a single one where there
/// is exactly one.
pub open spec fn assemble(parts: Seq<Seq<u8>>) -> MessageView {
    if parts.len() == 1 {
        MessageView::Single(parts[0])
    } else {
        MessageView::Multipart(parts)
    }
}

/// The decoding rule.
///
/// Takes whole frames off the front of `buf` until one completes a message.
/// A failure leaves the buffer and the codec as they were when the bad
/// bytes came to the front, so every later call fails the same way.
pub open spec fn decode_spec(codec: CodecView, buf: Seq<u8>) -> Decoded
    decreases buf.len(),
{
    match codec.state {
        DecoderState::Greeting => if buf.len() < GREETING_LEN {
            Decoded { result: Ok(None), codec, rest: buf }
        } else {
            match ZmqGreeting::of_bytes(buf) {
                Err(e) => Decoded { result: Err(e), codec, rest: buf },
                Ok(g) => Decoded {
                    result: Ok(Some(MessageView::Greeting(g))),
                    codec: CodecView { state: DecoderState::Frames, pending: codec.pending },
                    rest: buf.skip(GREETING_LEN as int),
                },
            }
        },
        DecoderState::Frames => match parse_frame(buf) {
            FrameParse::Incomplete => Decoded { result: Ok(None), codec, rest: buf },
            FrameParse::Malformed(e) => Decoded { result: Err(e), codec, rest: buf },
            FrameParse::Complete { frame, consumed } => if frame.command {
                if codec.pending.len() > 0 {
                    Decoded {
                        result: Err(ZmqError::Codec("Command frame inside a multipart message")),
                        codec,
                        rest: buf,
                    }
                } else {
                    match CommandView::of_bytes(frame.payload) {
                        Err(e) => Decoded { result: Err(e), codec, rest: buf },
                        Ok(c) => Decoded {
                            result: Ok(Some(MessageView::Command(c))),
                            codec,
                            rest: buf.skip(consumed as int),
                        },
                    }
                }
            } else if frame.more {
                decode_spec(
                    CodecView {
                        state: DecoderState::Frames,
                        pending: codec.pending.push(frame.payload),
                    },
                    buf.skip(consumed as int),
                )
            } else {
                Decoded {
                    result: Ok(Some(assemble(codec.pending.push(frame.payload)))),
                    codec: CodecView { state: DecoderState::Frames, pending: Seq::empty() },
                    rest: buf.skip(consumed as int),
                }
            },
        },
    }
}

/// What the end of the stream makes of a decoding: where no message is
/// complete, bytes or frames that are left over mean that the stream was
/// cut inside a message.
pub open spec fn at_end_of_stream(d: Decoded) -> ZmqResult<Option<MessageView>> {
    if d.result == Ok::<Option<MessageView>, ZmqError>(None) && (d.rest.len() > 0
        || d.codec.pending.len() > 0) {
        Err(ZmqError::Codec("Stream ended inside a message"))
    } else {
        d.result
    }
}

/// The payloads of a multipart message as frames on the wire: each but the
/// last announces that more follow.
pub open spec fn multipart_frames(parts: Seq<Seq<u8>>) -> Seq<Seq<u8>> {
    Seq::new(
        parts.len(),
        |i: int| FrameView { command: false, more: i + 1 < parts.len(), payload: parts[i] }.bytes(),
    )
}

/// Whether a message can be put on the wire.
pub open spec fn message_encodable(m: MessageView) -> bool {
    match m {
        MessageView::Greeting(_) => true,
        MessageView::Command(c) => c.encodable() && c.bytes().len() <= MAX_FRAME_LEN,
        MessageView::Single(p) => p.len() <= MAX_FRAME_LEN,
        MessageView::Multipart(parts) => parts.len() >= 1 && forall|i: int|
            0 <= i < parts.len() ==> (#[trigger] parts[i]).len() <= MAX_FRAME_LEN,
    }
}

/// A message on the wire.
pub open spec fn message_bytes(m: MessageView) -> Seq<u8> {
    match m {
        MessageView::Greeting(g) => g.bytes(),
        MessageView::Command(c) => FrameView {
            command: true,
            more: false,
            payload: c.bytes(),
        }.bytes(),
        MessageView::Single(p) => FrameView { command: false, more: false, payload: p }.bytes(),
        MessageView::Multipart(parts) => multipart_frames(parts).flatten(),
    }
}

/// Appends one frame.
fn push_frame(out: &mut Vec<u8>, command: bool, more: bool, payload: &[u8])
    ensures
        final(out)@ == old(out)@ + (FrameView { command, more, payload: payload@ }).bytes(),
{
    let head = encode_header(command, more, payload.len());
    assert(payload@.len() == payload.len());
    push_bytes(out, head.as_slice());
    push_bytes(out, payload);
    assert(out@ =~= old(out)@ + (FrameView { command, more, payload: payload@ }).bytes());
}

impl ZmqCodec {
    /// The codec of a connection on which nothing has arrived yet.
    pub fn new() -> (codec: ZmqCodec)
        ensures
            codec@ == CodecView::fresh(),
    {
        let codec = ZmqCodec { state: DecoderState::Greeting, pending: Vec::new() };
        assert(codec.pending.deep_view() =~= Seq::<Seq<u8>>::empty());
        codec
    }

    /// Takes the next message off the front of `src`.
    ///
    /// `Ok(None)` asks for more bytes: the caller appends what arrives next
    /// to `src` and calls again.
    pub fn decode(&mut self, src: &mut BytesMut) -> (r: ZmqResult<Option<Message>>)
        ensures
            final(self)@ == decode_spec(old(self)@, bytes_mut_contents(*old(src))).codec,
            bytes_mut_contents(*final(src)) == decode_spec(
                old(self)@,
                bytes_mut_contents(*old(src)),
            ).rest,
            result_view(r) == decode_spec(old(self)@, bytes_mut_contents(*old(src))).result,
    {
        loop
            invariant
                decode_spec(self@, bytes_mut_contents(*src)) == decode_spec(
                    old(self)@,
                    bytes_mut_contents(*old(src)),
                ),
            decreases bytes_mut_contents(*src).len(),
        {
            let ghost buf = bytes_mut_contents(*src);
            match self.state {
                DecoderState::Greeting => {
                    if src.len() < GREETING_LEN {
                        return Ok(None);
                    }
                    let greeting = match ZmqGreeting::parse(bytes_mut_as_slice(src)) {
                        Err(e) => {
                            return Err(e);
                        },
                        Ok(g) => g,
                    };
                    let _head = src.split_to(GREETING_LEN);
                    self.state = DecoderState::Frames;
                    assert(bytes_mut_contents(*src) =~= buf.skip(GREETING_LEN as int));
                    return Ok(Some(Message::Greeting(greeting)));
                },
                DecoderState::Frames => {
                    let header = match parse_header(bytes_mut_as_slice(src)) {
                        Err(e) => {
                            return Err(e);
                        },
                        Ok(None) => {
                            return Ok(None);
                        },
                        Ok(Some(h)) => h,
                    };
                    let available: usize = src.len() - header.size;
                    if (available as u64) < header.length {
                        return Ok(None);
                    }
                    let length: usize = header.length as usize;
                    let ghost payload = buf.subrange(header.size as int, header.size + length);
                    if header.command {
                        if self.pending.len() > 0 {
                            return Err(ZmqError::Codec("Command frame inside a multipart message"));
                        }
                        let body = &bytes_mut_as_slice(src)[header.size..header.size + length];
                        let command = match ZmqCommand::parse(body) {
                            Err(e) => {
                                return Err(e);
                            },
                            Ok(c) => c,
                        };
                        let _frame = src.split_to(header.size + length);
                        assert(bytes_mut_contents(*src) =~= buf.skip(header.size + length));
                        return Ok(Some(Message::Command(command)));
                    }
                    let _head = src.split_to(header.size);
                    let part = ZmqMessage { data: src.split_to(length).freeze() };
                    assert(part@ =~= payload);
                    assert(bytes_mut_contents(*src) =~= buf.skip(header.size + length));
                    let ghost held = self.pending.deep_view();
                    self.pending.push(part);
                    assert(self.pending.deep_view() =~= held.push(payload));
                    if !header.more {
                        let mut parts: Vec<ZmqMessage> = Vec::new();
                        core::mem::swap(&mut parts, &mut self.pending);
                        assert(self.pending.deep_view() =~= Seq::<Seq<u8>>::empty());
                        if parts.len() == 1 {
                            let only = parts.remove(0);
                            return Ok(Some(Message::Message(only)));
                        }
                        return Ok(Some(Message::MultipartMessage(parts)));
                    }
                },
            }
        }
    }

    /// Like `decode`, for the call after the stream has ended: bytes or
    /// frames that are then left over are an error.
    pub fn decode_eof(&mut self, src: &mut BytesMut) -> (r: ZmqResult<Option<Message>>)
        ensures
            final(self)@ == decode_spec(old(self)@, bytes_mut_contents(*old(src))).codec,
            bytes_mut_contents(*final(src)) == decode_spec(
                old(self)@,
                bytes_mut_contents(*old(src)),
            ).rest,
            result_view(r) == at_end_of_stream(
                decode_spec(old(self)@, bytes_mut_contents(*old(src))),
            ),
    {
        match self.decode(src) {
            Ok(None) => {
                if src.len() > 0 || self.pending.len() > 0 {
                    Err(ZmqError::Codec("Stream ended inside a message"))
                } else {
                    Ok(None)
                }
            },
            other => other,
        }
    }

    /// Appends `item` to `dst` as it goes on the wire.
    ///
    /// A message that cannot be put on the wire, or that would make `dst`
    /// longer than a buffer can be, is refused and leaves `dst` as it was.
    pub fn encode(&mut self, item: Message, dst: &mut BytesMut) -> (r: ZmqResult<()>)
        ensures
            final(self)@ == old(self)@,
            message_encodable(item@) && bytes_mut_contents(*old(dst)).len() + message_bytes(
                item@,
            ).len() <= usize::MAX ==> r is Ok && bytes_mut_contents(*final(dst))
                == bytes_mut_contents(*old(dst)) + message_bytes(item@),
            !(message_encodable(item@) && bytes_mut_contents(*old(dst)).len() + message_bytes(
                item@,
            ).len() <= usize::MAX) ==> r == Err::<(), ZmqError>(
                ZmqError::Other("Message does not fit the wire"),
            ) && bytes_mut_contents(*final(dst)) == bytes_mut_contents(*old(dst)),
    {
        let mut out: Vec<u8> = Vec::new();
        match item {
            Message::Greeting(g) => {
                out = g.encode();
            },
            Message::Command(c) => {
                let body = match c.encode() {
                    Err(_) => {
                        return Err(ZmqError::Other("Message does not fit the wire"));
                    },
                    Ok(b) => b,
                };
                if body.len() as u64 > MAX_FRAME_LEN {
                    return Err(ZmqError::Other("Message does not fit the wire"));
                }
                push_frame(&mut out, true, false, body.as_slice());
            },
            Message::Message(m) => {
                if m.data.len() as u64 > MAX_FRAME_LEN {
                    return Err(ZmqError::Other("Message does not fit the wire"));
                }
                push_frame(&mut out, false, false, bytes_as_slice(&m.data));
            },
            Message::MultipartMessage(parts) => {
                if parts.len() == 0 {
                    return Err(ZmqError::Other("Message does not fit the wire"));
                }
                let ghost payloads = parts.deep_view();
                let ghost frames = multipart_frames(payloads);
                let mut i: usize = 0;
                assert(frames.take(0) =~= Seq::<Seq<u8>>::empty());
                while i < parts.len()
                    invariant
                        i <= parts.len(),
                        payloads == parts.deep_view(),
                        item@ == MessageView::Multipart(payloads),
                        frames == multipart_frames(payloads),
                        out@ == frames.take(i as int).flatten(),
                        forall|j: int|
                            0 <= j < i ==> (#[trigger] payloads[j]).len() <= MAX_FRAME_LEN,
                    decreases parts.len() - i,
                {
                    let part = &parts[i];
                    assert(payloads[i as int] == part@);
                    if part.data.len() as u64 > MAX_FRAME_LEN {
                        assert(payloads[i as int].len() > MAX_FRAME_LEN);
                        return Err(ZmqError::Other("Message does not fit the wire"));
                    }
                    push_frame(&mut out, false, i + 1 < parts.len(), bytes_as_slice(&part.data));
                    proof {
                        assert(frames.take(i + 1) =~= frames.take(i as int).push(frames[i as int]));
                        frames.take(i as int).lemma_flatten_push(frames[i as int]);
                    }
                    i += 1;
                }
                assert(frames.take(i as int) =~= frames);
            },
        }
        if out.len() > usize::MAX - dst.len() {
            return Err(ZmqError::Other("Message does not fit the wire"));
        }
        dst.extend_from_slice(out.as_slice());
        Ok(())
    }
}

} // verus!
