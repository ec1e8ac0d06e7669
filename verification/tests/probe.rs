use traffic_generation::address::Ipv4Address;
use traffic_generation::address::SocketAddress;
use traffic_generation::probe::send_a_udp_packet;
use traffic_generation::probe::PROBE_LEN;
use traffic_generation::probe::PROBE_SOURCE_PORT;

#[test]
fn probe_goes_from_the_loopback_port_to_the_destination() {
    let packet = send_a_udp_packet(Ipv4Address::new(10, 1, 2, 3), 4242);
    assert_eq!(
        packet.source,
        SocketAddress { addr: Ipv4Address::new(127, 0, 0, 1), port: 34254 }
    );
    assert_eq!(packet.dest, SocketAddress { addr: Ipv4Address::new(10, 1, 2, 3), port: 4242 });
    assert_eq!(packet.payload, vec![0u8; 10]);
}

#[test]
fn probe_constants_name_port_and_length() {
    assert_eq!(PROBE_SOURCE_PORT, 34254);
    assert_eq!(PROBE_LEN, 10);
}

#[test]
fn probe_destination_follows_the_arguments() {
    let one = send_a_udp_packet(Ipv4Address::new(1, 1, 1, 1), 53);
    let other = send_a_udp_packet(Ipv4Address::new(8, 8, 8, 8), 0);
    assert_eq!(one.dest.addr.octets, [1, 1, 1, 1]);
    assert_eq!(one.dest.port, 53);
    assert_eq!(other.dest.addr.octets, [8, 8, 8, 8]);
    assert_eq!(other.dest.port, 0);
    assert_eq!(one.source, other.source);
    assert_eq!(one.payload, other.payload);
}
