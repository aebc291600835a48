//! The greeting: the 64 bytes each peer sends first.
//!
//! Byte 0 is `0xFF` and byte 9 is `0x7F`; the eight bytes between them carry
//! nothing. Bytes 10 and 11 are the protocol version, bytes 12 to 31 the name
//! of the security mechanism padded with zeros, byte 32 the as-server flag.
//! The remaining 31 bytes are filler.

use crate::error::{ZmqError, ZmqResult};
use vstd::prelude::*;

verus! {

broadcast use vstd::slice::group_slice_axioms;

/// The length of every greeting.
pub const GREETING_LEN: usize = 64;

/// `n` zero bytes.
pub open spec fn zeros(n: nat) -> Seq<u8> {
    Seq::new(n, |i: int| 0u8)
}

/// `name` filled up with zeros to `width` bytes.
pub open spec fn padded(name: Seq<u8>, width: nat) -> Seq<u8> {
    name + zeros((width - name.len()) as nat)
}

/// The security mechanism a greeting names.
#[derive(Clone, Copy, Debug, PartialEq, Eq, Structural)]
pub enum ZmqMechanism {
    NULL,
    PLAIN,
    CURVE,
}

impl ZmqMechanism {
    /// The mechanism's name in ASCII.
    pub open spec fn name(self) -> Seq<u8> {
        match self {
            ZmqMechanism::NULL => seq![0x4Eu8, 0x55u8, 0x4Cu8, 0x4Cu8],
            ZmqMechanism::PLAIN => seq![0x50u8, 0x4Cu8, 0x41u8, 0x49u8, 0x4Eu8],
            ZmqMechanism::CURVE => seq![0x43u8, 0x55u8, 0x52u8, 0x56u8, 0x45u8],
        }
    }

    /// The mechanism's name in ASCII.
    pub fn name_bytes(self) -> (v: Vec<u8>)
        ensures
            v@ == self.name(),
    {
        let v: Vec<u8> = match self {
            ZmqMechanism::NULL => vec![0x4Eu8, 0x55u8, 0x4Cu8, 0x4Cu8],
            ZmqMechanism::PLAIN => vec![0x50u8, 0x4Cu8, 0x41u8, 0x49u8, 0x4Eu8],
            ZmqMechanism::CURVE => vec![0x43u8, 0x55u8, 0x52u8, 0x56u8, 0x45u8],
        };
        assert(v@ =~= self.name());
        v
    }

    /// The mechanism that a 20-byte field names, if any.
    pub open spec fn of_field(field: Seq<u8>) -> Option<ZmqMechanism> {
        if field == padded(ZmqMechanism::NULL.name(), 20) {
            Some(ZmqMechanism::NULL)
        } else if field == padded(ZmqMechanism::PLAIN.name(), 20) {
            Some(ZmqMechanism::PLAIN)
        } else if field == padded(ZmqMechanism::CURVE.name(), 20) {
            Some(ZmqMechanism::CURVE)
        } else {
            None
        }
    }
}

/// What a greeting announces.
#[derive(Clone, Copy, Debug, PartialEq, Eq)]
pub struct ZmqGreeting {
    /// Major and minor version of the protocol.
    pub version: (u8, u8),
    pub mechanism: ZmqMechanism,
    pub as_server: bool,
}

impl ZmqGreeting {
    /// The greeting this library sends: version 3.0, no security, not a
    /// server.
    pub open spec fn standard() -> ZmqGreeting {
        ZmqGreeting { version: (3, 0), mechanism: ZmqMechanism::NULL, as_server: false }
    }

    /// The greeting on the wire.
    pub open spec fn bytes(self) -> Seq<u8> {
        seq![0xFFu8] + zeros(8) + seq![0x7Fu8, self.version.0, self.version.1] + padded(
            self.mechanism.name(),
            20,
        ) + seq![
            if self.as_server {
                1u8
            } else {
                0u8
            },
        ] + zeros(31)
    }

    /// Reads a greeting from the first 64 bytes of `buf`.
    ///
    /// The padding inside the signature and the filler at the end are not
    /// looked at. Any as-server byte other than 1 reads as `false`.
    pub open spec fn of_bytes(buf: Seq<u8>) -> ZmqResult<ZmqGreeting> {
        if buf.len() < GREETING_LEN {
            Err(ZmqError::Codec("Greeting is cut short"))
        } else if buf[0] != 0xFF || buf[9] != 0x7F {
            Err(ZmqError::Codec("Greeting signature is malformed"))
        } else {
            match ZmqMechanism::of_field(buf.subrange(12, 32)) {
                None => Err(ZmqError::Codec("Greeting names an unknown security mechanism")),
                Some(mechanism) => Ok(
                    ZmqGreeting { version: (buf[10], buf[11]), mechanism, as_server: buf[32] == 1 },
                ),
            }
        }
    }

    /// The greeting this library sends.
    pub fn new() -> (g: ZmqGreeting)
        ensures
            g == ZmqGreeting::standard(),
    {
        ZmqGreeting { version: (3, 0), mechanism: ZmqMechanism::NULL, as_server: false }
    }

    /// The 64 bytes of the greeting.
    pub fn encode(&self) -> (out: Vec<u8>)
        ensures
            out@ == self.bytes(),
            out@.len() == GREETING_LEN,
    {
        let mut out: Vec<u8> = Vec::new();
        out.push(0xFF);
        push_zeros(&mut out, 8);
        out.push(0x7F);
        out.push(self.version.0);
        out.push(self.version.1);
        let mut name = self.mechanism.name_bytes();
        let pad: usize = 20 - name.len();
        out.append(&mut name);
        push_zeros(&mut out, pad);
        out.push(
            if self.as_server {
                1
            } else {
                0
            },
        );
        push_zeros(&mut out, 31);
        assert(out@ =~= self.bytes());
        out
    }

    /// Reads a greeting from the first 64 bytes of `buf`.
    pub fn parse(buf: &[u8]) -> (r: ZmqResult<ZmqGreeting>)
        ensures
            r == ZmqGreeting::of_bytes(buf@),
    {
        if buf.len() < GREETING_LEN {
            return Err(ZmqError::Codec("Greeting is cut short"));
        }
        if buf[0] != 0xFF || buf[9] != 0x7F {
            return Err(ZmqError::Codec("Greeting signature is malformed"));
        }
        let field = &buf[12..32];
        let mechanism = if is_padded(field, ZmqMechanism::NULL.name_bytes().as_slice()) {
            ZmqMechanism::NULL
        } else if is_padded(field, ZmqMechanism::PLAIN.name_bytes().as_slice()) {
            ZmqMechanism::PLAIN
        } else if is_padded(field, ZmqMechanism::CURVE.name_bytes().as_slice()) {
            ZmqMechanism::CURVE
        } else {
            return Err(ZmqError::Codec("Greeting names an unknown security mechanism"));
        };
        Ok(ZmqGreeting { version: (buf[10], buf[11]), mechanism, as_server: buf[32] == 1 })
    }
}

impl Default for ZmqGreeting {
    /// The greeting this library sends.
    fn default() -> (g: ZmqGreeting)
        ensures
            g == ZmqGreeting::standard(),
    {
        ZmqGreeting::new()
    }
}

/// Appends `n` zero bytes.
fn push_zeros(out: &mut Vec<u8>, n: usize)
    ensures
        final(out)@ == old(out)@ + zeros(n as nat),
{
    let mut i: usize = 0;
    while i < n
        invariant
            i <= n,
            out@ == old(out)@ + zeros(i as nat),
        decreases n - i,
    {
        out.push(0);
        i += 1;
        assert(out@ =~= old(out)@ + zeros(i as nat));
    }
}

/// Whether `field` is `name` followed by zeros only.
fn is_padded(field: &[u8], name: &[u8]) -> (r: bool)
    requires
        name@.len() <= field@.len(),
    ensures
        r == (field@ == padded(name@, field@.len())),
{
    let ghost want = padded(name@, field@.len());
    let mut i: usize = 0;
    while i < field.len()
        invariant
            i <= field@.len(),
            name@.len() <= field@.len(),
            want == padded(name@, field@.len()),
            forall|j: int| 0 <= j < i ==> field@[j] == want[j],
        decreases field@.len() - i,
    {
        let expected: u8 = if i < name.len() {
            name[i]
        } else {
            0
        };
        if field[i] != expected {
            assert(field@[i as int] != want[i as int]);
            return false;
        }
        i += 1;
    }
    assert(field@ =~= want);
    true
}

/// A greeting, whatever follows it in the buffer, is read back as itself.
pub proof fn lemma_greeting_round_trip(g: ZmqGreeting, later: Seq<u8>)
    ensures
        g.bytes().len() == GREETING_LEN,
        ZmqGreeting::of_bytes(g.bytes() + later) == Ok::<ZmqGreeting, ZmqError>(g),
{
    let buf = g.bytes() + later;
    let field = padded(g.mechanism.name(), 20);
    assert(buf.subrange(12, 32) =~= field);
    let null = padded(ZmqMechanism::NULL.name(), 20);
    let plain = padded(ZmqMechanism::PLAIN.name(), 20);
    let curve = padded(ZmqMechanism::CURVE.name(), 20);
    assert(null[0] == 0x4E && plain[0] == 0x50 && curve[0] == 0x43);
    assert(buf[0] == 0xFF);
    assert(buf[9] == 0x7F);
    assert(buf[10] == g.version.0);
    assert(buf[11] == g.version.1);
    assert(buf[32] == if g.as_server { 1u8 } else { 0u8 });
}

} // verus!
