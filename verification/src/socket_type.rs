//! Socket types and the rule that says which two of them may be connected.

use crate::wire::same_bytes;
use vstd::prelude::*;

verus! {

broadcast use vstd::slice::group_slice_axioms;

/// The pattern a socket follows. Each peer announces its own during the
/// handshake.
#[derive(Clone, Copy, Debug, PartialEq, Eq, Structural, Hash)]
pub enum SocketType {
    PAIR,
    PUB,
    SUB,
    REQ,
    REP,
    DEALER,
    ROUTER,
    PULL,
    PUSH,
    XPUB,
    XSUB,
}

impl SocketType {
    /// The name by which the type is announced, in ASCII.
    pub open spec fn name(self) -> Seq<u8> {
        match self {
            SocketType::PAIR => seq![0x50u8, 0x41u8, 0x49u8, 0x52u8],
            SocketType::PUB => seq![0x50u8, 0x55u8, 0x42u8],
            SocketType::SUB => seq![0x53u8, 0x55u8, 0x42u8],
            SocketType::REQ => seq![0x52u8, 0x45u8, 0x51u8],
            SocketType::REP => seq![0x52u8, 0x45u8, 0x50u8],
            SocketType::DEALER => seq![0x44u8, 0x45u8, 0x41u8, 0x4Cu8, 0x45u8, 0x52u8],
            SocketType::ROUTER => seq![0x52u8, 0x4Fu8, 0x55u8, 0x54u8, 0x45u8, 0x52u8],
            SocketType::PULL => seq![0x50u8, 0x55u8, 0x4Cu8, 0x4Cu8],
            SocketType::PUSH => seq![0x50u8, 0x55u8, 0x53u8, 0x48u8],
            SocketType::XPUB => seq![0x58u8, 0x50u8, 0x55u8, 0x42u8],
            SocketType::XSUB => seq![0x58u8, 0x53u8, 0x55u8, 0x42u8],
        }
    }

    /// The type that `name` announces, if it is the name of one.
    pub open spec fn of_name(name: Seq<u8>) -> Option<SocketType> {
        if exists|t: SocketType| #[trigger] t.name() == name {
            Some(choose|t: SocketType| #[trigger] t.name() == name)
        } else {
            None
        }
    }

    /// Whether a socket of this type may be connected to one of type `peer`.
    pub open spec fn compatible(self, peer: SocketType) -> bool {
        match self {
            SocketType::PAIR => peer == SocketType::PAIR,
            SocketType::PUB => peer == SocketType::SUB || peer == SocketType::XSUB,
            SocketType::SUB => peer == SocketType::PUB || peer == SocketType::XPUB,
            SocketType::REQ => peer == SocketType::REP || peer == SocketType::ROUTER,
            SocketType::REP => peer == SocketType::REQ || peer == SocketType::DEALER,
            SocketType::DEALER => peer == SocketType::REP || peer == SocketType::DEALER || peer
                == SocketType::ROUTER,
            SocketType::ROUTER => peer == SocketType::REQ || peer == SocketType::DEALER || peer
                == SocketType::ROUTER,
            SocketType::PULL => peer == SocketType::PUSH,
            SocketType::PUSH => peer == SocketType::PULL,
            SocketType::XPUB => peer == SocketType::SUB || peer == SocketType::XSUB,
            SocketType::XSUB => peer == SocketType::PUB || peer == SocketType::XPUB,
        }
    }

    /// The name by which the type is announced, in ASCII.
    pub fn name_bytes(self) -> (v: Vec<u8>)
        ensures
            v@ == self.name(),
    {
        let v: Vec<u8> = match self {
            SocketType::PAIR => vec![0x50u8, 0x41u8, 0x49u8, 0x52u8],
            SocketType::PUB => vec![0x50u8, 0x55u8, 0x42u8],
            SocketType::SUB => vec![0x53u8, 0x55u8, 0x42u8],
            SocketType::REQ => vec![0x52u8, 0x45u8, 0x51u8],
            SocketType::REP => vec![0x52u8, 0x45u8, 0x50u8],
            SocketType::DEALER => vec![0x44u8, 0x45u8, 0x41u8, 0x4Cu8, 0x45u8, 0x52u8],
            SocketType::ROUTER => vec![0x52u8, 0x4Fu8, 0x55u8, 0x54u8, 0x45u8, 0x52u8],
            SocketType::PULL => vec![0x50u8, 0x55u8, 0x4Cu8, 0x4Cu8],
            SocketType::PUSH => vec![0x50u8, 0x55u8, 0x53u8, 0x48u8],
            SocketType::XPUB => vec![0x58u8, 0x50u8, 0x55u8, 0x42u8],
            SocketType::XSUB => vec![0x58u8, 0x53u8, 0x55u8, 0x42u8],
        };
        assert(v@ =~= self.name());
        v
    }

    /// The type that `name` announces, if it is the name of one.
    pub fn from_name(name: &[u8]) -> (r: Option<SocketType>)
        ensures
            r == SocketType::of_name(name@),
    {
        let all: [SocketType; 11] = [
            SocketType::PAIR,
            SocketType::PUB,
            SocketType::SUB,
            SocketType::REQ,
            SocketType::REP,
            SocketType::DEALER,
            SocketType::ROUTER,
            SocketType::PULL,
            SocketType::PUSH,
            SocketType::XPUB,
            SocketType::XSUB,
        ];
        let mut i: usize = 0;
        while i < 11
            invariant
                i <= 11,
                all@.len() == 11,
                forall|t: SocketType| #[trigger] all@.contains(t),
                forall|j: int| 0 <= j < i ==> (#[trigger] all@[j]).name() != name@,
            decreases 11 - i,
        {
            let t = all[i];
            if same_bytes(t.name_bytes().as_slice(), name) {
                proof {
                    lemma_names_differ(t, choose|u: SocketType| #[trigger] u.name() == name@);
                }
                return Some(t);
            }
            i += 1;
        }
        assert forall|t: SocketType| #[trigger] t.name() != name@ by {
            assert(all@.contains(t));
        }
        None
    }

    /// Whether a socket of this type may be connected to one of type `peer`.
    pub fn is_compatible(self, peer: SocketType) -> (r: bool)
        ensures
            r == self.compatible(peer),
    {
        match self {
            SocketType::PAIR => peer == SocketType::PAIR,
            SocketType::PUB => peer == SocketType::SUB || peer == SocketType::XSUB,
            SocketType::SUB => peer == SocketType::PUB || peer == SocketType::XPUB,
            SocketType::REQ => peer == SocketType::REP || peer == SocketType::ROUTER,
            SocketType::REP => peer == SocketType::REQ || peer == SocketType::DEALER,
            SocketType::DEALER => peer == SocketType::REP || peer == SocketType::DEALER || peer
                == SocketType::ROUTER,
            SocketType::ROUTER => peer == SocketType::REQ || peer == SocketType::DEALER || peer
                == SocketType::ROUTER,
            SocketType::PULL => peer == SocketType::PUSH,
            SocketType::PUSH => peer == SocketType::PULL,
            SocketType::XPUB => peer == SocketType::SUB || peer == SocketType::XSUB,
            SocketType::XSUB => peer == SocketType::PUB || peer == SocketType::XPUB,
        }
    }
}

/// No two socket types share a name.
pub proof fn lemma_names_differ(a: SocketType, b: SocketType)
    requires
        a.name() == b.name(),
    ensures
        a == b,
{
    let x = a.name();
    let y = b.name();
    assert(x.len() == y.len());
    assert(x[0] == y[0]);
    assert(x[1] == y[1]);
    assert(x[2] == y[2]);
}

/// A name that a socket type announces is read back as that type.
pub proof fn lemma_name_round_trip(t: SocketType)
    ensures
        SocketType::of_name(t.name()) == Some(t),
{
    let u = choose|u: SocketType| #[trigger] u.name() == t.name();
    lemma_names_differ(u, t);
}

/// Whether two types may be connected does not depend on which side asks.
pub proof fn lemma_compatible_is_symmetric(a: SocketType, b: SocketType)
    ensures
        a.compatible(b) == b.compatible(a),
{
}

} // verus!
