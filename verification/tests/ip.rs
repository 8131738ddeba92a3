use kernel_core::net::ip::{datagram_bytes, verify_header, IpPacket, IpProtocol};
use kernel_core::net::IpAddress;

#[test]
fn protocol_numbers() {
    assert_eq!(IpProtocol::from_u8(1), IpProtocol::Icmp);
    assert_eq!(IpProtocol::from_u8(6), IpProtocol::Tcp);
    assert_eq!(IpProtocol::from_u8(17), IpProtocol::Udp);
    assert_eq!(IpProtocol::from_u8(47), IpProtocol::Unknown);
    assert_eq!(IpProtocol::from(17u8), IpProtocol::Udp);
    assert_eq!(IpProtocol::Icmp.to_u8(), 1);
    assert_eq!(IpProtocol::Tcp.to_u8(), 6);
    assert_eq!(IpProtocol::Udp.to_u8(), 17);
    assert_eq!(IpProtocol::Unknown.to_u8(), 255);
}

#[test]
fn ip_round_trip() {
    let mut packet = IpPacket::new(
        IpAddress::new([10, 0, 0, 1]),
        IpAddress::new([10, 0, 0, 2]),
        IpProtocol::Udp,
        vec![0xDE, 0xAD, 0xBE, 0xEF],
    );
    let bytes = packet.to_bytes();
    assert_eq!(
        bytes,
        vec![
            0x45, 0x00, 0x00, 0x18, 0x00, 0x00, 0x00, 0x00, 0x40, 0x11, 0x66, 0xd3, 10, 0, 0, 1,
            10, 0, 0, 2, 0xDE, 0xAD, 0xBE, 0xEF
        ]
    );
    assert_eq!(packet.checksum, 0x66d3);
    assert!(verify_header(&bytes));
    let decoded = IpPacket::parse(&bytes).unwrap();
    assert_eq!(decoded.source(), IpAddress::new([10, 0, 0, 1]));
    assert_eq!(decoded.destination(), IpAddress::new([10, 0, 0, 2]));
    assert_eq!(decoded.protocol(), IpProtocol::Udp);
    assert_eq!(decoded.ttl, 64);
    assert_eq!(decoded.payload(), &[0xDE, 0xAD, 0xBE, 0xEF]);
    assert_eq!(decoded.version, 4);
    assert_eq!(decoded.header_length, 5);
    assert_eq!(decoded.total_length, 24);
    assert_eq!(decoded.checksum, 0x66d3);
    assert_eq!(decoded.identification, 0);
    assert_eq!(decoded.flags, 0);
    assert_eq!(decoded.fragment_offset, 0);
}

#[test]
fn round_trip_keeps_every_header_field() {
    let mut packet = IpPacket {
        version: 4,
        header_length: 5,
        dscp: 46,
        ecn: 2,
        total_length: 1234,
        identification: 0xBEEF,
        flags: 5,
        fragment_offset: 0x1ABC,
        ttl: 3,
        protocol: IpProtocol::Tcp,
        checksum: 0,
        source: IpAddress::new([192, 168, 1, 1]),
        destination: IpAddress::new([8, 8, 8, 8]),
        payload: vec![1, 2, 3],
    };
    let bytes = packet.to_bytes();
    assert!(verify_header(&bytes));
    let decoded = IpPacket::parse(&bytes).unwrap();
    assert_eq!(decoded.version, 4);
    assert_eq!(decoded.header_length, 5);
    assert_eq!(decoded.dscp, 46);
    assert_eq!(decoded.ecn, 2);
    assert_eq!(decoded.total_length, 1234);
    assert_eq!(decoded.identification, 0xBEEF);
    assert_eq!(decoded.flags, 5);
    assert_eq!(decoded.fragment_offset, 0x1ABC);
    assert_eq!(decoded.ttl, 3);
    assert_eq!(decoded.protocol, IpProtocol::Tcp);
    assert_eq!(decoded.checksum, packet.checksum);
    assert_eq!(decoded.source, IpAddress::new([192, 168, 1, 1]));
    assert_eq!(decoded.destination, IpAddress::new([8, 8, 8, 8]));
    assert_eq!(decoded.payload, vec![1, 2, 3]);
}

#[test]
fn parse_rejects_short_and_wrong_version() {
    assert!(IpPacket::parse(&[0x45; 19]).is_none());
    let mut bytes = vec![0u8; 20];
    bytes[0] = 0x65;
    assert!(IpPacket::parse(&bytes).is_none());
    bytes[0] = 0x45;
    assert!(IpPacket::parse(&bytes).is_some());
}

#[test]
fn parse_takes_empty_payload() {
    let mut bytes = vec![0u8; 20];
    bytes[0] = 0x4F;
    bytes[9] = 1;
    let packet = IpPacket::parse(&bytes).unwrap();
    assert_eq!(packet.header_length, 15);
    assert_eq!(packet.protocol, IpProtocol::Icmp);
    assert!(packet.payload.is_empty());
}

#[test]
fn corrupted_header_does_not_verify() {
    let mut packet = IpPacket::new(
        IpAddress::new([10, 0, 0, 1]),
        IpAddress::new([10, 0, 0, 2]),
        IpProtocol::Udp,
        vec![],
    );
    let mut bytes = packet.to_bytes();
    assert!(verify_header(&bytes));
    bytes[8] = 63;
    assert!(!verify_header(&bytes));
    assert!(!verify_header(&bytes[..19]));
}

#[test]
fn payload_does_not_count_for_the_header_checksum() {
    let mut packet = IpPacket::new(
        IpAddress::new([10, 0, 0, 1]),
        IpAddress::new([10, 0, 0, 2]),
        IpProtocol::Udp,
        vec![0xFF; 4],
    );
    let mut bytes = packet.to_bytes();
    bytes[21] = 0;
    assert!(verify_header(&bytes));
}

#[test]
fn calculate_checksum_covers_the_first_20_bytes() {
    let packet = IpPacket::new(
        IpAddress::new([10, 0, 0, 1]),
        IpAddress::new([10, 0, 0, 2]),
        IpProtocol::Udp,
        vec![],
    );
    let header = [
        0x45, 0x00, 0x00, 0x18, 0x00, 0x00, 0x00, 0x00, 0x40, 0x11, 0x00, 0x00, 10, 0, 0, 1, 10,
        0, 0, 2, 0xFF, 0xFF,
    ];
    assert_eq!(packet.calculate_checksum(&header), 0x66d3);
}

#[test]
fn total_length_wraps_at_16_bits() {
    let packet = IpPacket::new(
        IpAddress::new([10, 0, 0, 1]),
        IpAddress::new([10, 0, 0, 2]),
        IpProtocol::Udp,
        vec![0u8; 65536],
    );
    assert_eq!(packet.total_length, 20);
    let small = IpPacket::new(
        IpAddress::new([10, 0, 0, 1]),
        IpAddress::new([10, 0, 0, 2]),
        IpProtocol::Udp,
        vec![0u8; 65515],
    );
    assert_eq!(small.total_length, 65535);
}

#[test]
fn datagram_bytes_is_a_fresh_packet() {
    let bytes = datagram_bytes(
        IpAddress::new([10, 0, 0, 1]),
        IpAddress::new([10, 0, 0, 2]),
        IpProtocol::Udp,
        vec![0xDE, 0xAD, 0xBE, 0xEF],
    );
    assert_eq!(&bytes[..12], &[0x45, 0, 0, 0x18, 0, 0, 0, 0, 0x40, 0x11, 0x66, 0xd3]);
    assert_eq!(&bytes[20..], &[0xDE, 0xAD, 0xBE, 0xEF]);
}
