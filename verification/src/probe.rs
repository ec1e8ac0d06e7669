//! A single datagram outside any flow.

use vstd::prelude::*;
use crate::address::Ipv4Address;
use crate::address::SocketAddress;
use crate::tx_block::zero_payload;

verus! {

/// The UDP port a probe is sent from.
pub const PROBE_SOURCE_PORT: u16 = 34254;

/// The payload size of a probe, in bytes.
pub const PROBE_LEN: usize = 10;

/// A datagram that stands for itself: the local endpoint to send it from,
/// the endpoint it goes to and its bytes.
#[derive(Debug, PartialEq, Eq)]
pub struct UdpPacket {
    pub source: SocketAddress,
    pub dest: SocketAddress,
    pub payload: Vec<u8>,
}

/// The local endpoint every probe is sent from: `127.0.0.1:34254`.
pub open spec fn probe_source(endpoint: SocketAddress) -> bool {
    &&& endpoint.addr.octets@ == seq![127u8, 0u8, 0u8, 1u8]
    &&& endpoint.port == PROBE_SOURCE_PORT
}

/// The probe for `destination_addr:port_number`: ten zero bytes from
/// `127.0.0.1:34254`. The caller binds the source, sends the payload and
/// reports whichever of the two fails.
pub fn send_a_udp_packet(destination_addr: Ipv4Address, port_number: u16) -> (packet: UdpPacket)
    ensures
        probe_source(packet.source),
        packet.dest == (SocketAddress { addr: destination_addr, port: port_number }),
        packet.payload@ == zero_payload(PROBE_LEN as nat),
{
    let source = SocketAddress::new(Ipv4Address::new(127, 0, 0, 1), PROBE_SOURCE_PORT);
    let payload = vec![0u8; PROBE_LEN];
    assert(payload@ =~= zero_payload(PROBE_LEN as nat));
    UdpPacket { source, dest: SocketAddress::new(destination_addr, port_number), payload }
}

} // verus!
