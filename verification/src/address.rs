//! IPv4 endpoints as plain values.

use vstd::prelude::*;

verus! {

/// An IPv4 host address, most significant octet first.
#[derive(Clone, Copy, Debug, PartialEq, Eq, Hash)]
pub struct Ipv4Address {
    pub octets: [u8; 4],
}

/// An IPv4 host address together with a UDP port.
#[derive(Clone, Copy, Debug, PartialEq, Eq, Hash)]
pub struct SocketAddress {
    pub addr: Ipv4Address,
    pub port: u16,
}

impl Ipv4Address {
    /// The address `a.b.c.d`.
    pub fn new(a: u8, b: u8, c: u8, d: u8) -> (addr: Ipv4Address)
        ensures
            addr.octets@ == seq![a, b, c, d],
    {
        Ipv4Address { octets: [a, b, c, d] }
    }
}

impl SocketAddress {
    /// The endpoint `addr:port`.
    pub fn new(addr: Ipv4Address, port: u16) -> (endpoint: SocketAddress)
        ensures
            endpoint == (SocketAddress { addr, port }),
    {
        SocketAddress { addr, port }
    }
}

} // verus!
