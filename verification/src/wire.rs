//! The layout of a frame on the wire.
//!
//! A frame is a flags byte, a length and the payload. Bit 0 of the flags says
//! that more frames of the same message follow, bit 1 that the length takes
//! eight bytes (big-endian) where it otherwise takes one, bit 2 that the
//! frame is a command. The other bits are reserved and must be zero.

use crate::error::{ZmqError, ZmqResult};
use vstd::prelude::*;

verus! {

broadcast use vstd::slice::group_slice_axioms;

/// The flag that says that more frames of the same message follow.
pub const FLAG_MORE: u8 = 1;

/// The flag that says that the length takes eight bytes.
pub const FLAG_LONG: u8 = 2;

/// The flag that says that the frame is a command.
pub const FLAG_COMMAND: u8 = 4;

/// The longest payload a frame may declare. A length with its top bit set
/// is taken for corrupt: no buffer could ever hold that many bytes.
pub const MAX_FRAME_LEN: u64 = 0x7fff_ffff_ffff_ffff;

/// The eight bytes of `v`, most significant first.
pub open spec fn u64_to_be(v: u64) -> Seq<u8> {
    seq![
        ((v >> 56) & 0xff) as u8,
        ((v >> 48) & 0xff) as u8,
        ((v >> 40) & 0xff) as u8,
        ((v >> 32) & 0xff) as u8,
        ((v >> 24) & 0xff) as u8,
        ((v >> 16) & 0xff) as u8,
        ((v >> 8) & 0xff) as u8,
        (v & 0xff) as u8,
    ]
}

/// The number whose big-endian bytes are the first eight of `s`.
pub open spec fn u64_from_be(s: Seq<u8>) -> u64
    recommends
        s.len() >= 8,
{
    (s[0] as u64) << 56 | (s[1] as u64) << 48 | (s[2] as u64) << 40 | (s[3] as u64) << 32 | (
    s[4] as u64) << 24 | (s[5] as u64) << 16 | (s[6] as u64) << 8 | (s[7] as u64)
}

/// Reading back what was written gives the same number.
pub proof fn lemma_u64_be_round_trip(v: u64)
    ensures
        u64_to_be(v).len() == 8,
        u64_from_be(u64_to_be(v)) == v,
{
    assert((((v >> 56) & 0xff) as u8 as u64) << 56 | (((v >> 48) & 0xff) as u8 as u64) << 48 | (((v
        >> 40) & 0xff) as u8 as u64) << 40 | (((v >> 32) & 0xff) as u8 as u64) << 32 | (((v >> 24)
        & 0xff) as u8 as u64) << 24 | (((v >> 16) & 0xff) as u8 as u64) << 16 | (((v >> 8) & 0xff)
        as u8 as u64) << 8 | ((v & 0xff) as u8 as u64) == v) by (bit_vector);
}

/// The four bytes of `v`, most significant first.
pub open spec fn u32_to_be(v: u32) -> Seq<u8> {
    seq![
        ((v >> 24) & 0xff) as u8,
        ((v >> 16) & 0xff) as u8,
        ((v >> 8) & 0xff) as u8,
        (v & 0xff) as u8,
    ]
}

/// The number whose big-endian bytes are the first four of `s`.
pub open spec fn u32_from_be(s: Seq<u8>) -> u32
    recommends
        s.len() >= 4,
{
    (s[0] as u32) << 24 | (s[1] as u32) << 16 | (s[2] as u32) << 8 | (s[3] as u32)
}

/// Reading back what was written gives the same number.
pub proof fn lemma_u32_be_round_trip(v: u32)
    ensures
        u32_to_be(v).len() == 4,
        u32_from_be(u32_to_be(v)) == v,
{
    assert((((v >> 24) & 0xff) as u8 as u32) << 24 | (((v >> 16) & 0xff) as u8 as u32) << 16 | (((v
        >> 8) & 0xff) as u8 as u32) << 8 | ((v & 0xff) as u8 as u32) == v) by (bit_vector);
}

/// What the first bytes of a frame say about it.
#[derive(Clone, Copy, Debug, PartialEq, Eq, Structural)]
pub struct FrameHeader {
    pub command: bool,
    pub more: bool,
    /// How many bytes the header itself takes: 2 or 9.
    pub size: usize,
    /// How many payload bytes follow the header.
    pub length: u64,
}

/// The flags byte of a frame.
pub open spec fn flags_byte(command: bool, long: bool, more: bool) -> u8 {
    ((if command {
        4int
    } else {
        0int
    }) + (if long {
        2int
    } else {
        0int
    }) + (if more {
        1int
    } else {
        0int
    })) as u8
}

/// The header in front of a payload of `length` bytes. A payload of up to
/// 255 bytes gets the short form.
pub open spec fn header_bytes(command: bool, more: bool, length: nat) -> Seq<u8> {
    if length <= 255 {
        seq![flags_byte(command, false, more), length as u8]
    } else {
        seq![flags_byte(command, true, more)] + u64_to_be(length as u64)
    }
}

/// Reads a header from the front of `buf`.
///
/// `Ok(None)` where `buf` ends before the header does. An error where a
/// reserved flag is set, where a command claims that more frames follow, or
/// where the declared length is over `MAX_FRAME_LEN`.
pub open spec fn header_of(buf: Seq<u8>) -> ZmqResult<Option<FrameHeader>> {
    if buf.len() == 0 {
        Ok(None)
    } else if buf[0] >= 8 {
        Err(ZmqError::Codec("Reserved frame flags are set"))
    } else {
        let more = buf[0] % 2 == 1;
        let long = (buf[0] / 2) % 2 == 1;
        let command = buf[0] / 4 == 1;
        if command && more {
            Err(ZmqError::Codec("Command frame announces more frames"))
        } else if !long {
            if buf.len() < 2 {
                Ok(None)
            } else {
                Ok(Some(FrameHeader { command, more, size: 2, length: buf[1] as u64 }))
            }
        } else if buf.len() < 9 {
            Ok(None)
        } else if u64_from_be(buf.subrange(1, 9)) > MAX_FRAME_LEN {
            Err(ZmqError::Codec("Frame length is out of range"))
        } else {
            Ok(
                Some(
                    FrameHeader { command, more, size: 9, length: u64_from_be(buf.subrange(1, 9)) },
                ),
            )
        }
    }
}

/// A frame as contracts see it.
pub struct FrameView {
    pub command: bool,
    pub more: bool,
    pub payload: Seq<u8>,
}

impl FrameView {
    /// Whether the frame can be put on the wire.
    pub open spec fn encodable(self) -> bool {
        self.payload.len() <= MAX_FRAME_LEN && !(self.command && self.more)
    }

    /// The frame on the wire.
    pub open spec fn bytes(self) -> Seq<u8> {
        header_bytes(self.command, self.more, self.payload.len()) + self.payload
    }
}

/// What the front of a buffer holds.
pub enum FrameParse {
    /// Not yet a whole frame.
    Incomplete,
    /// No frame, however many bytes follow.
    Malformed(ZmqError),
    /// A frame, which takes the first `consumed` bytes.
    Complete { frame: FrameView, consumed: nat },
}

/// Reads one frame from the front of `buf`.
pub open spec fn parse_frame(buf: Seq<u8>) -> FrameParse {
    match header_of(buf) {
        Ok(None) => FrameParse::Incomplete,
        Err(e) => FrameParse::Malformed(e),
        Ok(Some(h)) => if buf.len() < h.size + h.length {
            FrameParse::Incomplete
        } else {
            FrameParse::Complete {
                frame: FrameView {
                    command: h.command,
                    more: h.more,
                    payload: buf.subrange(h.size as int, h.size + h.length),
                },
                consumed: (h.size + h.length) as nat,
            }
        },
    }
}

/// Once the front of a buffer is a frame, or is known to be none, bytes that
/// arrive later change nothing about that.
pub proof fn lemma_parse_frame_stable(buf: Seq<u8>, later: Seq<u8>)
    requires
        !(parse_frame(buf) is Incomplete),
    ensures
        parse_frame(buf + later) == parse_frame(buf),
{
    let all = buf + later;
    assert(all[0] == buf[0]);
    if buf.len() >= 2 {
        assert(all[1] == buf[1]);
    }
    if buf.len() >= 9 {
        assert(all.subrange(1, 9) =~= buf.subrange(1, 9));
    }
    match header_of(buf) {
        Ok(Some(h)) => {
            assert(header_of(all) == header_of(buf));
            assert(all.subrange(h.size as int, h.size + h.length) =~= buf.subrange(
                h.size as int,
                h.size + h.length,
            ));
        },
        _ => {},
    }
}

/// An encodable frame, whatever follows it in the buffer, is read back as
/// itself and takes exactly its own bytes.
pub proof fn lemma_parse_frame_of_bytes(frame: FrameView, later: Seq<u8>)
    requires
        frame.encodable(),
    ensures
        parse_frame(frame.bytes() + later) == (FrameParse::Complete {
            frame,
            consumed: frame.bytes().len(),
        }),
{
    let n = frame.payload.len();
    let head = header_bytes(frame.command, frame.more, n);
    let buf = frame.bytes() + later;
    if n <= 255 {
        assert(buf[0] == flags_byte(frame.command, false, frame.more));
        assert(buf[1] == n as u8);
        assert(buf.subrange(2, 2 + n as int) =~= frame.payload);
    } else {
        lemma_u64_be_round_trip(n as u64);
        assert(head.len() == 9);
        assert(buf[0] == flags_byte(frame.command, true, frame.more));
        assert(buf.subrange(1, 9) =~= u64_to_be(n as u64));
        assert(buf.subrange(9, 9 + n as int) =~= frame.payload);
    }
}

/// Reads the big-endian number in the first four bytes of `s`.
pub(crate) fn read_u32_be(s: &[u8]) -> (v: u32)
    requires
        s@.len() >= 4,
    ensures
        v == u32_from_be(s@),
{
    (s[0] as u32) << 24 | (s[1] as u32) << 16 | (s[2] as u32) << 8 | (s[3] as u32)
}

/// Appends the four bytes of `v`, most significant first.
pub fn push_u32_be(out: &mut Vec<u8>, v: u32)
    ensures
        final(out)@ == old(out)@ + u32_to_be(v),
{
    assert((v >> 24) & 0xff < 256 && (v >> 16) & 0xff < 256 && (v >> 8) & 0xff < 256 && v & 0xff
        < 256) by (bit_vector);
    out.push(((v >> 24) & 0xff) as u8);
    out.push(((v >> 16) & 0xff) as u8);
    out.push(((v >> 8) & 0xff) as u8);
    out.push((v & 0xff) as u8);
    assert(out@ =~= old(out)@ + u32_to_be(v));
}

/// Appends a copy of `src`.
pub fn push_bytes(out: &mut Vec<u8>, src: &[u8])
    ensures
        final(out)@ == old(out)@ + src@,
{
    out.extend_from_slice(src);
    assert(out@ =~= old(out)@ + src@);
}

/// Whether two slices hold the same bytes.
pub fn same_bytes(a: &[u8], b: &[u8]) -> (r: bool)
    ensures
        r == (a@ == b@),
{
    if a.len() != b.len() {
        return false;
    }
    let mut i: usize = 0;
    while i < a.len()
        invariant
            i <= a@.len(),
            a@.len() == b@.len(),
            forall|j: int| 0 <= j < i ==> a@[j] == b@[j],
        decreases a@.len() - i,
    {
        if a[i] != b[i] {
            return false;
        }
        i += 1;
    }
    assert(a@ =~= b@);
    true
}

/// Reads the big-endian number in the first eight bytes of `s`.
pub(crate) fn read_u64_be(s: &[u8]) -> (v: u64)
    requires
        s@.len() >= 8,
    ensures
        v == u64_from_be(s@),
{
    (s[0] as u64) << 56 | (s[1] as u64) << 48 | (s[2] as u64) << 40 | (s[3] as u64) << 32 | (
    s[4] as u64) << 24 | (s[5] as u64) << 16 | (s[6] as u64) << 8 | (s[7] as u64)
}

/// Appends the eight bytes of `v`, most significant first.
pub fn push_u64_be(out: &mut Vec<u8>, v: u64)
    ensures
        final(out)@ == old(out)@ + u64_to_be(v),
{
    assert((v >> 56) & 0xff < 256 && (v >> 48) & 0xff < 256 && (v >> 40) & 0xff < 256 && (v >> 32)
        & 0xff < 256 && (v >> 24) & 0xff < 256 && (v >> 16) & 0xff < 256 && (v >> 8) & 0xff < 256
        && v & 0xff < 256) by (bit_vector);
    out.push(((v >> 56) & 0xff) as u8);
    out.push(((v >> 48) & 0xff) as u8);
    out.push(((v >> 40) & 0xff) as u8);
    out.push(((v >> 32) & 0xff) as u8);
    out.push(((v >> 24) & 0xff) as u8);
    out.push(((v >> 16) & 0xff) as u8);
    out.push(((v >> 8) & 0xff) as u8);
    out.push((v & 0xff) as u8);
    assert(out@ =~= old(out)@ + u64_to_be(v));
}

/// Reads a frame header from the front of `buf`.
pub fn parse_header(buf: &[u8]) -> (r: ZmqResult<Option<FrameHeader>>)
    ensures
        r == header_of(buf@),
{
    if buf.len() == 0 {
        return Ok(None);
    }
    let flags: u8 = buf[0];
    if flags >= 8 {
        return Err(ZmqError::Codec("Reserved frame flags are set"));
    }
    assert(flags < 8 ==> ((flags & 1 != 0) == (flags % 2 == 1)) && ((flags & 2 != 0) == ((flags / 2)
        % 2 == 1)) && ((flags & 4 != 0) == (flags / 4 == 1))) by (bit_vector);
    let more = flags & FLAG_MORE != 0;
    let long = flags & FLAG_LONG != 0;
    let command = flags & FLAG_COMMAND != 0;
    if command && more {
        return Err(ZmqError::Codec("Command frame announces more frames"));
    }
    if !long {
        if buf.len() < 2 {
            return Ok(None);
        }
        return Ok(Some(FrameHeader { command, more, size: 2, length: buf[1] as u64 }));
    }
    if buf.len() < 9 {
        return Ok(None);
    }
    let length: u64 = read_u64_be(&buf[1..9]);
    if length > MAX_FRAME_LEN {
        return Err(ZmqError::Codec("Frame length is out of range"));
    }
    Ok(Some(FrameHeader { command, more, size: 9, length }))
}

/// The header for a payload of `length` bytes.
pub fn encode_header(command: bool, more: bool, length: usize) -> (head: Vec<u8>)
    ensures
        head@ == header_bytes(command, more, length as nat),
{
    let mut flags: u8 = 0;
    if command {
        flags = flags + 4;
    }
    if more {
        flags = flags + 1;
    }
    let mut head: Vec<u8> = Vec::new();
    if length <= 255 {
        head.push(flags);
        head.push(length as u8);
        assert(head@ =~= header_bytes(command, more, length as nat));
    } else {
        head.push(flags + 2);
        push_u64_be(&mut head, length as u64);
        assert(head@ =~= header_bytes(command, more, length as nat));
    }
    head
}

} // verus!
