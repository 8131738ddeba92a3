use kernel_core::net::ip::{verify_header, IpPacket, IpProtocol};
use kernel_core::net::udp::{bind, handle_udp_packet, send, unbind, UdpDemux, UdpPacket};
use kernel_core::net::{IpAddress, NetworkError};

fn a() -> IpAddress {
    IpAddress::new([10, 0, 0, 1])
}

fn b() -> IpAddress {
    IpAddress::new([10, 0, 0, 2])
}

#[test]
fn new_datagram_has_its_length() {
    let packet = UdpPacket::new(1234, 5678, vec![b'h', b'i']);
    assert_eq!(packet.source_port, 1234);
    assert_eq!(packet.destination_port, 5678);
    assert_eq!(packet.length, 10);
    assert_eq!(packet.checksum, 0);
    assert_eq!(packet.to_bytes(), vec![0x04, 0xd2, 0x16, 0x2e, 0, 10, 0, 0, b'h', b'i']);
    assert_eq!(UdpPacket::new(1, 2, vec![0u8; 65528]).length, 0);
    assert_eq!(UdpPacket::new(1, 2, vec![]).length, 8);
}

#[test]
fn checksum_covers_the_pseudo_header() {
    let mut packet = UdpPacket::new(1234, 5678, vec![b'h', b'i']);
    packet.calculate_checksum(a(), b());
    assert_eq!(packet.checksum, 0x686e);
    assert_eq!(packet.to_bytes(), vec![0x04, 0xd2, 0x16, 0x2e, 0, 10, 0x68, 0x6e, b'h', b'i']);
    assert!(packet.verify_checksum(a(), b()));
    assert_eq!(packet.checksum_residue(a(), b()), 0);
    assert!(!packet.verify_checksum(a(), IpAddress::new([10, 0, 0, 3])));
    assert_ne!(packet.checksum_residue(a(), IpAddress::new([10, 0, 0, 3])), 0);
}

#[test]
fn verification_is_zero_iff_the_sum_folds_to_all_ones() {
    // the covered sum of this datagram is 0x0a00+1+0x0a00+2+17+10+1234+5678+10+c+0x6869
    let mut packet = UdpPacket::new(1234, 5678, vec![b'h', b'i']);
    for checksum in [0u16, 1, 0x686d, 0x686e, 0x686f, 0xFFFF] {
        packet.checksum = checksum;
        let sum: u32 = 0x0a00 + 1 + 0x0a00 + 2 + 17 + 10 + 1234 + 5678 + 10 + 0x6869
            + checksum as u32;
        let folded = (sum & 0xFFFF) + (sum >> 16);
        assert_eq!(packet.checksum_residue(a(), b()) == 0, folded == 0xFFFF);
    }
}

#[test]
fn calculate_checksum_ignores_the_old_checksum() {
    let mut packet = UdpPacket::new(1234, 5678, vec![b'h', b'i']);
    packet.checksum = 0xAAAA;
    packet.calculate_checksum(a(), b());
    assert_eq!(packet.checksum, 0x686e);
}

#[test]
fn zero_checksum_means_no_check() {
    let mut packet = UdpPacket::new(1234, 5678, vec![b'h', b'i']);
    assert!(packet.acceptable(a(), b()));
    assert!(!packet.verify_checksum(a(), b()));
    packet.checksum = 0x1111;
    assert!(!packet.acceptable(a(), b()));
    packet.checksum = 0x686e;
    assert!(packet.acceptable(a(), b()));
}

#[test]
fn parse_checks_the_length_field() {
    let bytes = [0x04, 0xd2, 0x16, 0x2e, 0, 10, 0x68, 0x6e, b'h', b'i'];
    let packet = UdpPacket::parse(&bytes).unwrap();
    assert_eq!(packet.source_port, 1234);
    assert_eq!(packet.destination_port, 5678);
    assert_eq!(packet.length, 10);
    assert_eq!(packet.checksum, 0x686e);
    assert_eq!(packet.payload, vec![b'h', b'i']);
    assert!(UdpPacket::parse(&bytes[..9]).is_none());
    assert!(UdpPacket::parse(&bytes[..7]).is_none());
    let mut longer = bytes.to_vec();
    longer.push(0);
    assert!(UdpPacket::parse(&longer).is_none());
    assert!(UdpPacket::parse(&[0, 1, 0, 2, 0, 8, 0, 0]).unwrap().payload.is_empty());
}

#[test]
fn bound_port_cannot_be_bound_again() {
    let mut demux = UdpDemux::new();
    assert_eq!(bind(&mut demux, 53, 7), Ok(()));
    assert_eq!(bind(&mut demux, 53, 8), Err(NetworkError::AddressInUse));
    assert_eq!(demux.lookup(53), Some(7));
    assert_eq!(bind(&mut demux, 54, 8), Ok(()));
    unbind(&mut demux, 53);
    assert_eq!(demux.lookup(53), None);
    assert_eq!(demux.lookup(54), Some(8));
    assert_eq!(bind(&mut demux, 53, 9), Ok(()));
    assert_eq!(demux.lookup(53), Some(9));
    unbind(&mut demux, 9999);
}

#[test]
fn datagram_goes_to_the_socket_of_its_port() {
    let mut demux = UdpDemux::new();
    bind(&mut demux, 5678, 3).unwrap();
    let packet = UdpPacket::new(1234, 5678, vec![1, 2, 3]);
    let delivery = handle_udp_packet(&demux, packet, a()).unwrap();
    assert_eq!(delivery.socket, 3);
    assert_eq!(delivery.payload, vec![1, 2, 3]);
    assert_eq!(delivery.source_ip, a());
    assert_eq!(delivery.source_port, 1234);
    let stray = UdpPacket::new(1234, 5679, vec![1, 2, 3]);
    assert!(handle_udp_packet(&demux, stray, a()).is_none());
}

#[test]
fn sent_datagram_is_wrapped_and_checksummed() {
    let bytes = send(a(), 1234, b(), 5678, b"hi");
    assert!(verify_header(&bytes));
    let ip = IpPacket::parse(&bytes).unwrap();
    assert_eq!(ip.protocol(), IpProtocol::Udp);
    assert_eq!(ip.source(), a());
    assert_eq!(ip.destination(), b());
    assert_eq!(ip.total_length, 30);
    assert_eq!(ip.payload(), &[0x04, 0xd2, 0x16, 0x2e, 0, 10, 0x68, 0x6e, b'h', b'i']);
    let udp = UdpPacket::parse(ip.payload()).unwrap();
    assert!(udp.verify_checksum(a(), b()));
}

#[test]
fn datagram_that_sums_to_all_ones_verifies_whatever_its_field_holds() {
    // with a zeroed field the sum is 17 + 8 + 65502 + 8 = 0xFFFF, so the
    // checksum over it is 0; with 0xFFFF in the field the sum still folds
    // to 0xFFFF
    let nowhere = IpAddress::new([0, 0, 0, 0]);
    let mut packet = UdpPacket::new(65502, 0, vec![]);
    assert_eq!(packet.length, 8);
    packet.checksum = 0xFFFF;
    assert_eq!(packet.checksum_residue(nowhere, nowhere), 0);
    assert!(packet.verify_checksum(nowhere, nowhere));
    assert!(packet.acceptable(nowhere, nowhere));
    // another field value does not verify
    packet.checksum = 0xFFFE;
    assert_eq!(packet.checksum_residue(nowhere, nowhere), 1);
    assert!(!packet.verify_checksum(nowhere, nowhere));
    assert!(!packet.acceptable(nowhere, nowhere));
    // zero in the field means that there is nothing to verify
    packet.checksum = 0;
    assert!(packet.acceptable(nowhere, nowhere));
}
