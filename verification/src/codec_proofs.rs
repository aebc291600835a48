//! What holds of the codec: what is encoded is decoded as itself, and the
//! way the bytes are cut into chunks on their way makes no difference.

use crate::codec::{
    assemble, at_end_of_stream, decode_spec, message_bytes, message_encodable, multipart_frames,
    CodecView, Decoded, DecoderState,
};
use crate::command::{lemma_command_round_trip, lemma_ready_announces, CommandView};
use crate::error::ZmqError;
use crate::greeting::{lemma_greeting_round_trip, ZmqGreeting, GREETING_LEN};
use crate::message::MessageView;
use crate::socket_type::SocketType;
use crate::wire::{
    lemma_parse_frame_of_bytes, lemma_parse_frame_stable, parse_frame, FrameParse, FrameView,
    MAX_FRAME_LEN,
};
use vstd::prelude::*;

verus! {

/// Bytes that arrive later do not change what the bytes before them mean.
///
/// Where a call of `decode` asked for more bytes, decoding goes on from
/// where it stopped exactly as if all the bytes had been there from the
/// start. Where it gave a message or failed, the same comes out with the
/// later bytes in the buffer, which are left behind untouched.
pub proof fn lemma_decode_more_bytes(codec: CodecView, buf: Seq<u8>, later: Seq<u8>)
    ensures
        decode_spec(codec, buf).result == Ok::<Option<MessageView>, ZmqError>(None)
            ==> decode_spec(codec, buf + later) == decode_spec(
            decode_spec(codec, buf).codec,
            decode_spec(codec, buf).rest + later,
        ),
        decode_spec(codec, buf).result != Ok::<Option<MessageView>, ZmqError>(None)
            ==> decode_spec(codec, buf + later) == (Decoded {
            result: decode_spec(codec, buf).result,
            codec: decode_spec(codec, buf).codec,
            rest: decode_spec(codec, buf).rest + later,
        }),
    decreases buf.len(),
{
    let all = buf + later;
    match codec.state {
        DecoderState::Greeting => {
            if buf.len() >= GREETING_LEN {
                assert(all[0] == buf[0] && all[9] == buf[9] && all[10] == buf[10] && all[11]
                    == buf[11] && all[32] == buf[32]);
                assert(all.subrange(12, 32) =~= buf.subrange(12, 32));
                assert(ZmqGreeting::of_bytes(all) == ZmqGreeting::of_bytes(buf));
                assert(all.skip(GREETING_LEN as int) =~= buf.skip(GREETING_LEN as int) + later);
            }
        },
        DecoderState::Frames => {
            match parse_frame(buf) {
                FrameParse::Incomplete => {},
                FrameParse::Malformed(_) => {
                    lemma_parse_frame_stable(buf, later);
                },
                FrameParse::Complete { frame, consumed } => {
                    lemma_parse_frame_stable(buf, later);
                    assert(all.skip(consumed as int) =~= buf.skip(consumed as int) + later);
                    if !frame.command && frame.more {
                        lemma_decode_more_bytes(
                            CodecView {
                                state: DecoderState::Frames,
                                pending: codec.pending.push(frame.payload),
                            },
                            buf.skip(consumed as int),
                            later,
                        );
                    }
                },
            }
        },
    }
}

/// The decoder hands out well-formed messages only, and a multipart
/// message only where the message has two frames or more.
pub proof fn lemma_decoded_is_well_formed(codec: CodecView, buf: Seq<u8>)
    ensures
        decode_spec(codec, buf).result matches Ok(Some(m)) ==> m.well_formed() && (
        m matches MessageView::Multipart(parts) ==> parts.len() >= 2),
    decreases buf.len(),
{
    if codec.state == DecoderState::Frames {
        match parse_frame(buf) {
            FrameParse::Complete { frame, consumed } => {
                if !frame.command && frame.more {
                    lemma_decoded_is_well_formed(
                        CodecView {
                            state: DecoderState::Frames,
                            pending: codec.pending.push(frame.payload),
                        },
                        buf.skip(consumed as int),
                    );
                }
            },
            _ => {},
        }
    }
}

/// Decoding as the bytes come in: `buf` is what has arrived, `chunks` is
/// what arrives next, piece by piece. After each piece the decoder is asked
/// once more, until it gives a message or fails. What is then left of the
/// stream, read or unread, is the `rest`.
pub open spec fn decode_chunks(codec: CodecView, buf: Seq<u8>, chunks: Seq<Seq<u8>>) -> Decoded
    decreases chunks.len(),
{
    let d = decode_spec(codec, buf);
    if chunks.len() == 0 || d.result != Ok::<Option<MessageView>, ZmqError>(None) {
        Decoded { result: d.result, codec: d.codec, rest: d.rest + chunks.flatten() }
    } else {
        decode_chunks(d.codec, d.rest + chunks[0], chunks.skip(1))
    }
}

/// However a stream is cut into chunks, one byte at a time included,
/// decoding it chunk by chunk gives what decoding it whole gives: the same
/// message or failure, the same codec, the same bytes left over.
pub proof fn lemma_decode_in_chunks(codec: CodecView, buf: Seq<u8>, chunks: Seq<Seq<u8>>)
    ensures
        decode_chunks(codec, buf, chunks) == decode_spec(codec, buf + chunks.flatten()),
    decreases chunks.len(),
{
    let d = decode_spec(codec, buf);
    if chunks.len() == 0 {
        assert(buf + chunks.flatten() =~= buf);
        assert(d.rest + chunks.flatten() =~= d.rest);
    } else {
        lemma_decode_more_bytes(codec, buf, chunks.flatten());
        if d.result == Ok::<Option<MessageView>, ZmqError>(None) {
            let next = chunks.skip(1);
            assert(chunks.drop_first() =~= next);
            assert(chunks.flatten() == chunks[0] + next.flatten());
            lemma_decode_in_chunks(d.codec, d.rest + chunks[0], next);
            assert(d.rest + chunks[0] + next.flatten() =~= d.rest + chunks.flatten());
        }
    }
}

/// The frames of a message, whatever follows them in the buffer, are
/// decoded as the message that is made of the frames held back before and
/// these; the codec is then between two messages, and what followed is left.
pub proof fn lemma_frames_round_trip(pending: Seq<Seq<u8>>, parts: Seq<Seq<u8>>, later: Seq<u8>)
    requires
        parts.len() >= 1,
        forall|i: int| 0 <= i < parts.len() ==> (#[trigger] parts[i]).len() <= MAX_FRAME_LEN,
    ensures
        decode_spec(
            CodecView { state: DecoderState::Frames, pending },
            multipart_frames(parts).flatten() + later,
        ) == (Decoded {
            result: Ok(Some(assemble(pending + parts))),
            codec: CodecView::idle(),
            rest: later,
        }),
    decreases parts.len(),
{
    let frames = multipart_frames(parts);
    let first = FrameView { command: false, more: 1 < parts.len(), payload: parts[0] };
    let others = frames.drop_first().flatten();
    let buf = frames.flatten() + later;
    assert(frames.first() == first.bytes());
    assert(frames.flatten() == first.bytes() + others);
    assert(buf =~= first.bytes() + (others + later));
    assert(first.encodable());
    lemma_parse_frame_of_bytes(first, others + later);
    assert(buf.skip(first.bytes().len() as int) =~= others + later);
    if parts.len() == 1 {
        assert(frames.drop_first() =~= Seq::<Seq<u8>>::empty());
        assert(others + later =~= later);
        assert(pending + parts =~= pending.push(parts[0]));
    } else {
        let rest = parts.skip(1);
        assert(frames.drop_first() =~= multipart_frames(rest));
        assert forall|i: int| 0 <= i < rest.len() implies (#[trigger] rest[i]).len()
            <= MAX_FRAME_LEN by {
            assert(rest[i] == parts[i + 1]);
        }
        lemma_frames_round_trip(pending.push(parts[0]), rest, later);
        assert(pending.push(parts[0]) + rest =~= pending + parts);
    }
}

/// A message of one frame that is encoded and then decoded is the same
/// message again, for every payload, the empty one included.
pub proof fn lemma_single_round_trip(payload: Seq<u8>, later: Seq<u8>)
    requires
        payload.len() <= MAX_FRAME_LEN,
    ensures
        decode_spec(CodecView::idle(), message_bytes(MessageView::Single(payload)) + later) == (
        Decoded {
            result: Ok(Some(MessageView::Single(payload))),
            codec: CodecView::idle(),
            rest: later,
        }),
{
    let frame = FrameView { command: false, more: false, payload };
    lemma_parse_frame_of_bytes(frame, later);
    assert((frame.bytes() + later).skip(frame.bytes().len() as int) =~= later);
    assert(Seq::<Seq<u8>>::empty().push(payload)[0] == payload);
}

/// A message of two or more frames that is encoded and then decoded is the
/// same message again: the same payloads in the same order.
pub proof fn lemma_multipart_round_trip(parts: Seq<Seq<u8>>, later: Seq<u8>)
    requires
        parts.len() >= 2,
        forall|i: int| 0 <= i < parts.len() ==> (#[trigger] parts[i]).len() <= MAX_FRAME_LEN,
    ensures
        decode_spec(CodecView::idle(), message_bytes(MessageView::Multipart(parts)) + later) == (
        Decoded {
            result: Ok(Some(MessageView::Multipart(parts))),
            codec: CodecView::idle(),
            rest: later,
        }),
{
    lemma_frames_round_trip(Seq::empty(), parts, later);
    assert(Seq::<Seq<u8>>::empty() + parts =~= parts);
}

/// A multipart message with a single frame is, on the wire, the message of
/// that one frame, and is decoded as such.
pub proof fn lemma_one_part_decodes_as_single(payload: Seq<u8>, later: Seq<u8>)
    requires
        payload.len() <= MAX_FRAME_LEN,
    ensures
        message_bytes(MessageView::Multipart(seq![payload])) == message_bytes(
            MessageView::Single(payload),
        ),
        decode_spec(
            CodecView::idle(),
            message_bytes(MessageView::Multipart(seq![payload])) + later,
        ).result == Ok::<Option<MessageView>, ZmqError>(Some(MessageView::Single(payload))),
{
    let parts = seq![payload];
    lemma_frames_round_trip(Seq::empty(), parts, later);
    assert(Seq::<Seq<u8>>::empty() + parts =~= parts);
    multipart_frames(parts).lemma_flatten_singleton();
}

/// A stream that ends between two messages ends cleanly: with nothing
/// buffered and no frame held back, the end of the stream is no error and
/// no message.
pub proof fn lemma_clean_end_of_stream(state: DecoderState)
    ensures
        at_end_of_stream(
            decode_spec(CodecView { state, pending: Seq::empty() }, Seq::empty()),
        ) == Ok::<Option<MessageView>, ZmqError>(None),
{
    assert(parse_frame(Seq::<u8>::empty()) is Incomplete);
}

/// A greeting is decoded as itself by a codec at the start of a connection,
/// which then expects frames.
pub proof fn lemma_greeting_decodes(g: ZmqGreeting, later: Seq<u8>)
    ensures
        decode_spec(CodecView::fresh(), message_bytes(MessageView::Greeting(g)) + later) == (
        Decoded {
            result: Ok(Some(MessageView::Greeting(g))),
            codec: CodecView::idle(),
            rest: later,
        }),
{
    lemma_greeting_round_trip(g, later);
    assert((g.bytes() + later).skip(GREETING_LEN as int) =~= later);
}

/// A command that fits the wire is decoded as itself.
pub proof fn lemma_command_decodes(c: CommandView, later: Seq<u8>)
    requires
        c.encodable(),
        c.bytes().len() <= MAX_FRAME_LEN,
    ensures
        decode_spec(CodecView::idle(), message_bytes(MessageView::Command(c)) + later) == (Decoded {
            result: Ok(Some(MessageView::Command(c))),
            codec: CodecView::idle(),
            rest: later,
        }),
{
    let frame = FrameView { command: true, more: false, payload: c.bytes() };
    lemma_parse_frame_of_bytes(frame, later);
    lemma_command_round_trip(c);
    assert((frame.bytes() + later).skip(frame.bytes().len() as int) =~= later);
}

/// The `READY` command that a handshake hands out is decoded on the other
/// side as itself.
pub proof fn lemma_ready_decodes(socket_type: SocketType, later: Seq<u8>)
    ensures
        message_encodable(MessageView::Command(CommandView::ready(socket_type))),
        decode_spec(
            CodecView::idle(),
            message_bytes(MessageView::Command(CommandView::ready(socket_type))) + later,
        ) == (Decoded {
            result: Ok(Some(MessageView::Command(CommandView::ready(socket_type)))),
            codec: CodecView::idle(),
            rest: later,
        }),
{
    lemma_ready_announces(socket_type);
    lemma_command_decodes(CommandView::ready(socket_type), later);
}

} // verus!
