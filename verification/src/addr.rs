//! Listen addresses: an IPv4 address and a TCP port.

use vstd::prelude::*;

verus! {

/// The `(IPv4, port)` pair a node binds its listener to; a node's identity in
/// the overlay.
#[derive(Clone, Copy, Debug, PartialEq, Eq, Hash, Structural)]
pub struct Addr {
    /// The four octets of the IPv4 address, most significant first.
    pub a: u8,
    pub b: u8,
    pub c: u8,
    pub d: u8,
    /// The TCP port.
    pub port: u16,
}

impl Addr {
    /// Builds an address from its octets and port.
    pub fn new(octets: [u8; 4], port: u16) -> (r: Addr)
        ensures
            r == (Addr { a: octets[0], b: octets[1], c: octets[2], d: octets[3], port }),
    {
        Addr { a: octets[0], b: octets[1], c: octets[2], d: octets[3], port }
    }

    /// The four octets of the IPv4 address, most significant first.
    pub fn octets(&self) -> (r: [u8; 4])
        ensures
            r@ == seq![self.a, self.b, self.c, self.d],
    {
        let r: [u8; 4] = [self.a, self.b, self.c, self.d];
        assert(r@ =~= seq![self.a, self.b, self.c, self.d]);
        r
    }

    /// The TCP port.
    pub fn port(&self) -> (r: u16)
        ensures
            r == self.port,
    {
        self.port
    }
}

} // verus!
