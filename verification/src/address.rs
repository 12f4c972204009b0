//! IPv4 addresses as the four bytes that go on the wire.

use vstd::prelude::*;

verus! {

/// A four-octet IPv4 address, most significant octet first.
#[derive(Clone, Copy, Debug, PartialEq, Eq)]
pub struct Ipv4Address(pub [u8; 4]);

impl Ipv4Address {
    /// The four octets in wire order.
    pub open spec fn octets(self) -> Seq<u8> {
        self.0@
    }

    /// Builds the address `a0.a1.a2.a3`.
    pub fn new(a0: u8, a1: u8, a2: u8, a3: u8) -> (r: Self)
        ensures
            r.octets() == seq![a0, a1, a2, a3],
    {
        let r = Ipv4Address([a0, a1, a2, a3]);
        assert(r.octets() =~= seq![a0, a1, a2, a3]);
        r
    }

    /// The four octets in wire order.
    pub fn as_bytes(&self) -> (r: &[u8])
        ensures
            r@ == self.octets(),
            r@.len() == 4,
    {
        self.0.as_slice()
    }
}

} // verus!
