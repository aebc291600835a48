//! Commands: the frames that carry the protocol's own traffic.
//!
//! The body of a command frame is the command's name behind a length byte,
//! then its properties. A property is a name behind a length byte, then a
//! value behind a four-byte big-endian length.

use crate::error::{ZmqError, ZmqResult};
use crate::socket_type::SocketType;
use crate::wire::{
    lemma_u32_be_round_trip, push_bytes, push_u32_be, read_u32_be, same_bytes, u32_from_be,
    u32_to_be,
};
use vstd::prelude::*;

verus! {

broadcast use vstd::slice::group_slice_axioms;

/// The commands this library knows.
#[derive(Clone, Copy, Debug, PartialEq, Eq, Structural)]
pub enum ZmqCommandName {
    READY,
}

impl ZmqCommandName {
    /// The command's name in ASCII.
    pub open spec fn name(self) -> Seq<u8> {
        match self {
            ZmqCommandName::READY => seq![0x52u8, 0x45u8, 0x41u8, 0x44u8, 0x59u8],
        }
    }

    /// The command's name in ASCII.
    pub fn name_bytes(self) -> (v: Vec<u8>)
        ensures
            v@ == self.name(),
    {
        let v: Vec<u8> = match self {
            ZmqCommandName::READY => vec![0x52u8, 0x45u8, 0x41u8, 0x44u8, 0x59u8],
        };
        assert(v@ =~= self.name());
        v
    }
}

/// A property as contracts see it: its name, then its value.
pub type PropertyView = (Seq<u8>, Seq<u8>);

/// One metadata property of a command: a name and a value, both raw bytes.
#[derive(Clone, Debug, PartialEq, Eq)]
pub struct Property {
    pub name: Vec<u8>,
    pub value: Vec<u8>,
}

impl DeepView for Property {
    type V = PropertyView;

    open spec fn deep_view(&self) -> PropertyView {
        (self.name@, self.value@)
    }
}

/// A command with its properties in wire order.
#[derive(Clone, Debug, PartialEq, Eq)]
pub struct ZmqCommand {
    pub name: ZmqCommandName,
    pub properties: Vec<Property>,
}

/// A command as contracts see it.
pub struct CommandView {
    pub name: ZmqCommandName,
    pub properties: Seq<PropertyView>,
}

impl View for ZmqCommand {
    type V = CommandView;

    open spec fn view(&self) -> CommandView {
        CommandView { name: self.name, properties: self.properties.deep_view() }
    }
}

/// The name of the property that announces a socket type: `Socket-Type`.
pub open spec fn socket_type_key() -> Seq<u8> {
    seq![
        0x53u8,
        0x6Fu8,
        0x63u8,
        0x6Bu8,
        0x65u8,
        0x74u8,
        0x2Du8,
        0x54u8,
        0x79u8,
        0x70u8,
        0x65u8,
    ]
}

/// The name of the property that announces a socket type.
pub fn socket_type_key_bytes() -> (key: Vec<u8>)
    ensures
        key@ == socket_type_key(),
{
    let key: Vec<u8> = vec![
        0x53u8,
        0x6Fu8,
        0x63u8,
        0x6Bu8,
        0x65u8,
        0x74u8,
        0x2Du8,
        0x54u8,
        0x79u8,
        0x70u8,
        0x65u8,
    ];
    assert(key@ =~= socket_type_key());
    key
}

/// Whether a property fits the wire: a name of 1 to 255 bytes and a value
/// whose length fits four bytes.
pub open spec fn property_encodable(p: PropertyView) -> bool {
    1 <= p.0.len() <= 255 && p.1.len() <= u32::MAX
}

/// One property on the wire.
#[verifier::opaque]
pub open spec fn property_bytes(p: PropertyView) -> Seq<u8> {
    seq![p.0.len() as u8] + p.0 + u32_to_be(p.1.len() as u32) + p.1
}

/// A list of properties on the wire: one after the other.
pub open spec fn properties_bytes(ps: Seq<PropertyView>) -> Seq<u8> {
    ps.map_values(|p: PropertyView| property_bytes(p)).flatten()
}

/// Reads one property from the front of `s`; with it, the number of bytes
/// it takes.
#[verifier::opaque]
pub open spec fn property_of(s: Seq<u8>) -> Option<(PropertyView, int)> {
    if s.len() < 1 {
        None
    } else {
        let n = s[0] as int;
        if n == 0 || s.len() < 5 + n {
            None
        } else {
            let m = u32_from_be(s.subrange(1 + n, 5 + n)) as int;
            if s.len() < 5 + n + m {
                None
            } else {
                Some(((s.subrange(1, 1 + n), s.subrange(5 + n, 5 + n + m)), 5 + n + m))
            }
        }
    }
}

/// Reads properties until `s` is used up. `None` where `s` does not end
/// with the end of a property, or a property has an empty name.
pub open spec fn properties_of(s: Seq<u8>) -> Option<Seq<PropertyView>>
    decreases s.len(),
{
    if s.len() == 0 {
        Some(Seq::empty())
    } else {
        proof {
            reveal(property_of);
        }
        match property_of(s) {
            None => None,
            Some((p, used)) => match properties_of(s.skip(used)) {
                None => None,
                Some(rest) => Some(seq![p] + rest),
            },
        }
    }
}

/// The value of the last property called `key`, if there is one.
pub open spec fn lookup(ps: Seq<PropertyView>, key: Seq<u8>) -> Option<Seq<u8>>
    decreases ps.len(),
{
    if ps.len() == 0 {
        None
    } else if ps.last().0 == key {
        Some(ps.last().1)
    } else {
        lookup(ps.drop_last(), key)
    }
}

impl CommandView {
    /// Whether the command fits the wire.
    pub open spec fn encodable(self) -> bool {
        forall|i: int|
            0 <= i < self.properties.len() ==> property_encodable(#[trigger] self.properties[i])
    }

    /// The body of the command's frame.
    pub open spec fn bytes(self) -> Seq<u8> {
        seq![self.name.name().len() as u8] + self.name.name() + properties_bytes(self.properties)
    }

    /// Reads a command from the body of a command frame.
    pub open spec fn of_bytes(body: Seq<u8>) -> ZmqResult<CommandView> {
        if body.len() < 1 || body.len() < 1 + body[0] {
            Err(ZmqError::Codec("Command name is cut short"))
        } else if body.subrange(1, 1 + body[0]) != ZmqCommandName::READY.name() {
            Err(ZmqError::Codec("Unknown command received"))
        } else {
            match properties_of(body.skip(1 + body[0])) {
                None => Err(ZmqError::Codec("Command properties are malformed")),
                Some(properties) => Ok(CommandView { name: ZmqCommandName::READY, properties }),
            }
        }
    }

    /// The `READY` command that announces `socket_type`.
    pub open spec fn ready(socket_type: SocketType) -> CommandView {
        CommandView {
            name: ZmqCommandName::READY,
            properties: seq![(socket_type_key(), socket_type.name())],
        }
    }

    /// The socket type the command announces, if it announces one that this
    /// library knows.
    pub open spec fn socket_type(self) -> Option<SocketType> {
        match lookup(self.properties, socket_type_key()) {
            None => None,
            Some(name) => SocketType::of_name(name),
        }
    }
}

/// Reads properties until `buf` is used up.
pub fn parse_properties(buf: &[u8]) -> (r: Option<Vec<Property>>)
    ensures
        match properties_of(buf@) {
            None => r is None,
            Some(ps) => r is Some && r->0.deep_view() == ps,
        },
{
    let mut out: Vec<Property> = Vec::new();
    let mut pos: usize = 0;
    assert(buf@.skip(0) =~= buf@);
    assert(out.deep_view() =~= Seq::<PropertyView>::empty());
    while pos < buf.len()
        invariant
            pos <= buf@.len(),
            properties_of(buf@) == match properties_of(buf@.skip(pos as int)) {
                None => None::<Seq<PropertyView>>,
                Some(rest) => Some(out.deep_view() + rest),
            },
        decreases buf@.len() - pos,
    {
        reveal(property_of);
        let ghost tail = buf@.skip(pos as int);
        let ghost before = out.deep_view();
        assert(tail[0] == buf@[pos as int]);
        let n: usize = buf[pos] as usize;
        if n == 0 || buf.len() - pos < 5 + n {
            return None;
        }
        assert(tail.subrange(1 + n, 5 + n) =~= buf@.subrange(pos + 1 + n, pos + 5 + n));
        let m: usize = read_u32_be(&buf[pos + 1 + n..pos + 5 + n]) as usize;
        if buf.len() - pos - 5 - n < m {
            return None;
        }
        let name = vstd::slice::slice_to_vec(&buf[pos + 1..pos + 1 + n]);
        let value = vstd::slice::slice_to_vec(&buf[pos + 5 + n..pos + 5 + n + m]);
        let property = Property { name, value };
        proof {
            assert(tail.subrange(1, 1 + n) =~= property.name@);
            assert(tail.subrange(5 + n, 5 + n + m) =~= property.value@);
            assert(tail.skip(5 + n + m) =~= buf@.skip(pos + 5 + n + m));
            assert(property_of(tail) == Some((property.deep_view(), 5 + n + m)));
        }
        out.push(property);
        pos = pos + 5 + n + m;
        proof {
            assert(out.deep_view() =~= before.push(property.deep_view()));
            match properties_of(buf@.skip(pos as int)) {
                None => {},
                Some(rest) => {
                    assert(before + (seq![property.deep_view()] + rest) =~= out.deep_view() + rest);
                },
            }
        }
    }
    assert(buf@.skip(pos as int) =~= Seq::<u8>::empty());
    assert(out.deep_view() + Seq::<PropertyView>::empty() =~= out.deep_view());
    Some(out)
}

impl ZmqCommand {
    /// The `READY` command that announces `socket_type`.
    pub fn ready(socket_type: SocketType) -> (c: ZmqCommand)
        ensures
            c@ == CommandView::ready(socket_type),
    {
        let key = socket_type_key_bytes();
        let mut properties: Vec<Property> = Vec::new();
        properties.push(Property { name: key, value: socket_type.name_bytes() });
        assert(properties.deep_view() =~= seq![(socket_type_key(), socket_type.name())]);
        ZmqCommand { name: ZmqCommandName::READY, properties }
    }

    /// The socket type the command announces, if it announces one that this
    /// library knows.
    pub fn socket_type(&self) -> (r: Option<SocketType>)
        ensures
            r == self@.socket_type(),
    {
        let key = socket_type_key_bytes();
        let ghost ps = self.properties.deep_view();
        let mut i: usize = self.properties.len();
        assert(ps.take(i as int) =~= ps);
        while i > 0
            invariant
                i <= self.properties.len(),
                ps == self.properties.deep_view(),
                key@ == socket_type_key(),
                lookup(ps, socket_type_key()) == lookup(ps.take(i as int), socket_type_key()),
            decreases i,
        {
            i -= 1;
            let property = &self.properties[i];
            assert(ps.take(i + 1).last() == property.deep_view());
            assert(ps.take(i + 1).drop_last() =~= ps.take(i as int));
            if same_bytes(property.name.as_slice(), key.as_slice()) {
                return SocketType::from_name(property.value.as_slice());
            }
        }
        None
    }

    /// The body of the command's frame. An error where a property has an
    /// empty name, a name of more than 255 bytes, or a value whose length
    /// does not fit four bytes.
    pub fn encode(&self) -> (r: ZmqResult<Vec<u8>>)
        ensures
            self@.encodable() ==> r is Ok && r->Ok_0@ == self@.bytes(),
            !self@.encodable() ==> r == Err::<Vec<u8>, ZmqError>(
                ZmqError::Other("Command property does not fit the wire"),
            ),
    {
        let mut out: Vec<u8> = Vec::new();
        let name = self.name.name_bytes();
        out.push(name.len() as u8);
        push_bytes(&mut out, name.as_slice());
        let ghost head = out@;
        let ghost ps = self.properties.deep_view();
        let ghost encoded = ps.map_values(|p: PropertyView| property_bytes(p));
        let mut i: usize = 0;
        assert(encoded.take(0) =~= Seq::<Seq<u8>>::empty());
        while i < self.properties.len()
            invariant
                i <= self.properties.len(),
                ps == self.properties.deep_view(),
                encoded == ps.map_values(|p: PropertyView| property_bytes(p)),
                head == seq![self.name.name().len() as u8] + self.name.name(),
                out@ == head + encoded.take(i as int).flatten(),
                forall|j: int| 0 <= j < i ==> property_encodable(#[trigger] ps[j]),
            decreases self.properties.len() - i,
        {
            let property = &self.properties[i];
            assert(ps[i as int] == property.deep_view());
            if property.name.len() == 0 || property.name.len() > 255 || property.value.len()
                > 0xffff_ffff {
                assert(!property_encodable(self@.properties[i as int]));
                return Err(ZmqError::Other("Command property does not fit the wire"));
            }
            let ghost before = out@;
            out.push(property.name.len() as u8);
            push_bytes(&mut out, property.name.as_slice());
            push_u32_be(&mut out, property.value.len() as u32);
            push_bytes(&mut out, property.value.as_slice());
            proof {
                reveal(property_bytes);
                assert(out@ =~= before + property_bytes(ps[i as int]));
                assert(encoded.take(i + 1) =~= encoded.take(i as int).push(encoded[i as int]));
                encoded.take(i as int).lemma_flatten_push(encoded[i as int]);
            }
            i += 1;
        }
        assert(encoded.take(i as int) =~= encoded);
        Ok(out)
    }

    /// Reads a command from the body of a command frame.
    pub fn parse(body: &[u8]) -> (r: ZmqResult<ZmqCommand>)
        ensures
            match CommandView::of_bytes(body@) {
                Ok(c) => r is Ok && r->Ok_0@ == c,
                Err(e) => r == Err::<ZmqCommand, ZmqError>(e),
            },
    {
        if body.len() < 1 || body.len() - 1 < body[0] as usize {
            return Err(ZmqError::Codec("Command name is cut short"));
        }
        let n: usize = body[0] as usize;
        let name = &body[1..1 + n];
        if !same_bytes(name, ZmqCommandName::READY.name_bytes().as_slice()) {
            return Err(ZmqError::Codec("Unknown command received"));
        }
        let rest = &body[1 + n..body.len()];
        assert(rest@ =~= body@.skip(1 + n));
        match parse_properties(rest) {
            None => Err(ZmqError::Codec("Command properties are malformed")),
            Some(properties) => Ok(ZmqCommand { name: ZmqCommandName::READY, properties }),
        }
    }
}

/// An encodable property, whatever follows it in the buffer, is read back as
/// itself and takes exactly its own bytes.
pub proof fn lemma_property_round_trip(p: PropertyView, later: Seq<u8>)
    requires
        property_encodable(p),
    ensures
        property_bytes(p).len() >= 5,
        property_of(property_bytes(p) + later) == Some((p, property_bytes(p).len() as int)),
{
    reveal(property_of);
    reveal(property_bytes);
    let s = property_bytes(p) + later;
    let n = p.0.len() as int;
    let m = p.1.len() as int;
    lemma_u32_be_round_trip(m as u32);
    assert(s[0] == n as u8);
    assert(s.subrange(1 + n, 5 + n) =~= u32_to_be(m as u32));
    assert(s.subrange(1, 1 + n) =~= p.0);
    assert(s.subrange(5 + n, 5 + n + m) =~= p.1);
}

/// The bytes of a list of properties are those of the first, then those of
/// the others.
proof fn lemma_properties_bytes_unfold(ps: Seq<PropertyView>)
    requires
        ps.len() > 0,
    ensures
        properties_bytes(ps) == property_bytes(ps[0]) + properties_bytes(ps.skip(1)),
{
    let encoded = ps.map_values(|p: PropertyView| property_bytes(p));
    assert(encoded.drop_first() =~= ps.skip(1).map_values(|p: PropertyView| property_bytes(p)));
    assert(encoded.first() == property_bytes(ps[0]));
}

/// A list of encodable properties is read back as itself.
pub proof fn lemma_properties_round_trip(ps: Seq<PropertyView>)
    requires
        forall|i: int| 0 <= i < ps.len() ==> property_encodable(#[trigger] ps[i]),
    ensures
        properties_of(properties_bytes(ps)) == Some(ps),
    decreases ps.len(),
{
    if ps.len() == 0 {
        assert(ps.map_values(|p: PropertyView| property_bytes(p)) =~= Seq::<Seq<u8>>::empty());
        assert(properties_bytes(ps).len() == 0);
        assert(ps =~= Seq::<PropertyView>::empty());
    } else {
        let first = property_bytes(ps[0]);
        let rest = ps.skip(1);
        let tail = properties_bytes(rest);
        let all = first + tail;
        lemma_properties_bytes_unfold(ps);
        assert(property_encodable(ps[0]));
        lemma_property_round_trip(ps[0], tail);
        assert forall|i: int| 0 <= i < rest.len() implies property_encodable(
            #[trigger] rest[i],
        ) by {
            assert(rest[i] == ps[i + 1]);
        }
        lemma_properties_round_trip(rest);
        assert(all.len() > 0);
        assert(property_of(all) == Some((ps[0], first.len() as int)));
        assert(all.skip(first.len() as int) =~= tail);
        assert(properties_of(all) == Some(seq![ps[0]] + rest));
        assert(seq![ps[0]] + rest =~= ps);
    }
}

/// An encodable command is read back from its bytes as itself.
pub proof fn lemma_command_round_trip(c: CommandView)
    requires
        c.encodable(),
    ensures
        CommandView::of_bytes(c.bytes()) == Ok::<CommandView, ZmqError>(c),
{
    let name = ZmqCommandName::READY.name();
    let properties = properties_bytes(c.properties);
    let body = seq![5u8] + name + properties;
    assert(c.name == ZmqCommandName::READY);
    assert(name.len() == 5);
    assert(c.bytes() == body);
    assert(body[0] == 5);
    assert(body.subrange(1, 6) =~= name);
    assert(body.skip(6) =~= properties);
    lemma_properties_round_trip(c.properties);
}

/// The `READY` command of a socket type fits the wire, in a short frame, and
/// announces that type.
pub proof fn lemma_ready_announces(socket_type: SocketType)
    ensures
        CommandView::ready(socket_type).encodable(),
        CommandView::ready(socket_type).bytes().len() <= 255,
        CommandView::ready(socket_type).socket_type() == Some(socket_type),
{
    let c = CommandView::ready(socket_type);
    let property = (socket_type_key(), socket_type.name());
    assert(c.properties.len() == 1);
    assert(c.properties.last() == property);
    crate::socket_type::lemma_name_round_trip(socket_type);
    let encoded = c.properties.map_values(|p: PropertyView| property_bytes(p));
    assert(encoded.len() == 1);
    assert(encoded[0] == property_bytes(property));
    encoded.lemma_flatten_singleton();
    reveal(property_bytes);
    assert(property_bytes(property).len() == 16 + socket_type.name().len());
}

} // verus!
