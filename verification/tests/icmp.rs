use kernel_core::net::icmp::{
    handle_icmp_packet, send_echo_request, verify_message, IcmpCode, IcmpOutcome, IcmpPacket,
    IcmpType,
};
use kernel_core::net::ip::{verify_header, IpPacket, IpProtocol};
use kernel_core::net::IpAddress;

#[test]
fn icmp_type_numbers() {
    assert_eq!(IcmpType::from_u8(0), IcmpType::EchoReply);
    assert_eq!(IcmpType::from_u8(3), IcmpType::DestinationUnreachable);
    assert_eq!(IcmpType::from_u8(8), IcmpType::EchoRequest);
    assert_eq!(IcmpType::from_u8(11), IcmpType::TimeExceeded);
    assert_eq!(IcmpType::from_u8(42), IcmpType::EchoReply);
    assert_eq!(IcmpType::from(8u8), IcmpType::EchoRequest);
    assert_eq!(IcmpType::EchoReply.to_u8(), 0);
    assert_eq!(IcmpType::DestinationUnreachable.to_u8(), 3);
    assert_eq!(IcmpType::EchoRequest.to_u8(), 8);
    assert_eq!(IcmpType::TimeExceeded.to_u8(), 11);
}

#[test]
fn icmp_code_numbers() {
    let codes = [
        (0u8, IcmpCode::NetworkUnreachable),
        (1, IcmpCode::HostUnreachable),
        (2, IcmpCode::ProtocolUnreachable),
        (3, IcmpCode::PortUnreachable),
        (4, IcmpCode::FragmentationNeeded),
        (5, IcmpCode::SourceRouteFailed),
        (11, IcmpCode::TtlExceeded),
        (12, IcmpCode::FragmentReassemblyTimeExceeded),
    ];
    for (number, code) in codes {
        assert_eq!(IcmpCode::from_u8(number), code);
        assert_eq!(IcmpCode::from(number), code);
        assert_eq!(code.to_u8(), number);
    }
    assert_eq!(IcmpCode::from_u8(8), IcmpCode::EchoCode);
    assert_eq!(IcmpCode::from_u8(200), IcmpCode::EchoCode);
    assert_eq!(IcmpCode::EchoCode.to_u8(), 8);
}

#[test]
fn echo_request_bytes() {
    let mut packet = IcmpPacket::new_echo_request(0x1234, 1, vec![0x41, 0x42, 0x43, 0x44]);
    assert_eq!(packet.checksum, 0);
    let bytes = packet.to_bytes();
    assert_eq!(bytes, vec![8, 8, 0x61, 0x3c, 0x12, 0x34, 0, 1, 0x41, 0x42, 0x43, 0x44]);
    assert_eq!(packet.checksum, 0x613c);
    assert!(verify_message(&bytes));
    assert_eq!(packet.get_identifier(), 0x1234);
    assert_eq!(packet.get_sequence(), 1);
    assert_eq!(packet.get_type(), IcmpType::EchoRequest);
}

#[test]
fn echo_reply_with_odd_payload_verifies() {
    let mut packet = IcmpPacket::new_echo_reply(0xFFFF, 0xFFFF, vec![1, 2, 3]);
    let bytes = packet.to_bytes();
    assert_eq!(bytes.len(), 11);
    assert!(verify_message(&bytes));
    assert_eq!(packet.get_identifier(), 0xFFFF);
    assert_eq!(packet.get_sequence(), 0xFFFF);
}

#[test]
fn verify_rejects_short_and_corrupted_messages() {
    assert!(!verify_message(&[0, 0, 0xFF, 0xFF]));
    let mut packet = IcmpPacket::new_echo_request(1, 2, vec![9, 9]);
    let mut bytes = packet.to_bytes();
    assert!(verify_message(&bytes));
    bytes[9] = 8;
    assert!(!verify_message(&bytes));
}

#[test]
fn parse_reads_the_header() {
    let packet = IcmpPacket::parse(&[8, 0, 0xAB, 0xCD, 0x12, 0x34, 0x00, 0x07, 5, 6]).unwrap();
    assert_eq!(packet.icmp_type, IcmpType::EchoRequest);
    assert_eq!(packet.code, IcmpCode::EchoCode);
    assert_eq!(packet.checksum, 0xABCD);
    assert_eq!(packet.rest_of_header, 0x12340007);
    assert_eq!(packet.payload, vec![5, 6]);
    assert!(IcmpPacket::parse(&[8, 0, 0, 0, 0, 0, 0]).is_none());
    assert!(IcmpPacket::parse(&[8, 0, 0, 0, 0, 0, 0, 0]).unwrap().payload.is_empty());
}

#[test]
fn parse_reads_the_code_by_type() {
    let unreachable = IcmpPacket::parse(&[3, 3, 0, 0, 0, 0, 0, 0]).unwrap();
    assert_eq!(unreachable.code, IcmpCode::PortUnreachable);
    let unreachable = IcmpPacket::parse(&[3, 4, 0, 0, 0, 0, 0, 0]).unwrap();
    assert_eq!(unreachable.code, IcmpCode::EchoCode);
    let expired = IcmpPacket::parse(&[11, 1, 0, 0, 0, 0, 0, 0]).unwrap();
    assert_eq!(expired.icmp_type, IcmpType::TimeExceeded);
    assert_eq!(expired.code, IcmpCode::HostUnreachable);
    let expired = IcmpPacket::parse(&[11, 2, 0, 0, 0, 0, 0, 0]).unwrap();
    assert_eq!(expired.code, IcmpCode::EchoCode);
    let echo = IcmpPacket::parse(&[0, 1, 0, 0, 0, 0, 0, 0]).unwrap();
    assert_eq!(echo.code, IcmpCode::EchoCode);
}

#[test]
fn destination_unreachable_quotes_64_bytes() {
    let original: Vec<u8> = (0..100u8).collect();
    let mut packet = IcmpPacket::new_destination_unreachable(IcmpCode::HostUnreachable, &original);
    assert_eq!(packet.icmp_type, IcmpType::DestinationUnreachable);
    assert_eq!(packet.code, IcmpCode::HostUnreachable);
    assert_eq!(packet.rest_of_header, 0);
    assert_eq!(packet.payload, original[..64].to_vec());
    let bytes = packet.to_bytes();
    assert_eq!(bytes.len(), 72);
    assert_eq!(&bytes[..2], &[3, 1]);
    assert!(verify_message(&bytes));
}

#[test]
fn icmp_echo_reply() {
    let request = IcmpPacket::new_echo_request(0x1234, 1, vec![0x41, 0x42, 0x43, 0x44]);
    let outcome =
        handle_icmp_packet(request, IpAddress::new([10, 0, 0, 2]), IpAddress::new([10, 0, 0, 1]));
    let datagram = match outcome {
        IcmpOutcome::Reply { datagram } => datagram,
        other => panic!("an echo request is answered, not {:?}", other),
    };
    assert!(verify_header(&datagram));
    let ip = IpPacket::parse(&datagram).unwrap();
    assert_eq!(ip.protocol(), IpProtocol::Icmp);
    assert_eq!(ip.source(), IpAddress::new([10, 0, 0, 1]));
    assert_eq!(ip.destination(), IpAddress::new([10, 0, 0, 2]));
    assert_eq!(ip.total_length, 32);
    assert_eq!(ip.checksum, 0x66db);
    assert!(verify_message(ip.payload()));
    assert_eq!(ip.payload(), &[0, 8, 0x69, 0x3c, 0x12, 0x34, 0, 1, 0x41, 0x42, 0x43, 0x44]);
    let reply = IcmpPacket::parse(ip.payload()).unwrap();
    assert_eq!(reply.get_type(), IcmpType::EchoReply);
    assert_eq!(reply.get_identifier(), 0x1234);
    assert_eq!(reply.get_sequence(), 1);
    assert_eq!(reply.payload, vec![0x41, 0x42, 0x43, 0x44]);
    assert_eq!(reply.checksum, 0x693c);
}

#[test]
fn other_messages_are_handed_on() {
    let local = IpAddress::new([10, 0, 0, 1]);
    let peer = IpAddress::new([10, 0, 0, 2]);
    let reply = IcmpPacket::new_echo_reply(7, 9, vec![]);
    match handle_icmp_packet(reply, peer, local) {
        IcmpOutcome::EchoAnswered { identifier, sequence } => {
            assert_eq!(identifier, 7);
            assert_eq!(sequence, 9);
        }
        other => panic!("unexpected {:?}", other),
    }
    let unreachable = IcmpPacket::new_destination_unreachable(IcmpCode::PortUnreachable, &[0; 64]);
    match handle_icmp_packet(unreachable, peer, local) {
        IcmpOutcome::Unreachable { code } => assert_eq!(code, IcmpCode::PortUnreachable),
        other => panic!("unexpected {:?}", other),
    }
    let expired = IcmpPacket::parse(&[11, 0, 0, 0, 0, 0, 0, 0]).unwrap();
    match handle_icmp_packet(expired, peer, local) {
        IcmpOutcome::Expired { code } => assert_eq!(code, IcmpCode::NetworkUnreachable),
        other => panic!("unexpected {:?}", other),
    }
}

#[test]
fn echo_request_goes_out_in_an_ip_packet() {
    let datagram = send_echo_request(
        IpAddress::new([10, 0, 0, 1]),
        IpAddress::new([10, 0, 0, 2]),
        0x1234,
        1,
        vec![0x41, 0x42, 0x43, 0x44],
    );
    assert!(verify_header(&datagram));
    let ip = IpPacket::parse(&datagram).unwrap();
    assert_eq!(ip.protocol(), IpProtocol::Icmp);
    assert_eq!(ip.source(), IpAddress::new([10, 0, 0, 1]));
    assert_eq!(ip.destination(), IpAddress::new([10, 0, 0, 2]));
    assert_eq!(ip.ttl, 64);
    assert_eq!(ip.payload(), &[8, 8, 0x61, 0x3c, 0x12, 0x34, 0, 1, 0x41, 0x42, 0x43, 0x44]);
}
