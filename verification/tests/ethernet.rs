use kernel_core::net::ethernet::{EtherType, EthernetFrame};
use kernel_core::net::MacAddress;

fn mac(last: u8) -> MacAddress {
    MacAddress::new([0x02, 0, 0, 0, 0, last])
}

#[test]
fn ether_type_numbers() {
    assert_eq!(EtherType::from_u16(0x0800), EtherType::Ipv4);
    assert_eq!(EtherType::from_u16(0x0806), EtherType::Arp);
    assert_eq!(EtherType::from_u16(0x86DD), EtherType::Unknown);
    assert_eq!(EtherType::from(0x0806u16), EtherType::Arp);
    assert_eq!(EtherType::Ipv4.to_u16(), 0x0800);
    assert_eq!(EtherType::Arp.to_u16(), 0x0806);
    assert_eq!(EtherType::Unknown.to_u16(), 0xFFFF);
}

#[test]
fn short_frame_is_padded_to_64_bytes() {
    let frame = EthernetFrame::new(mac(1), mac(2), EtherType::Ipv4, vec![0xAA, 0xBB]);
    let bytes = frame.to_bytes();
    assert_eq!(bytes.len(), 64);
    assert_eq!(&bytes[0..6], &[0x02, 0, 0, 0, 0, 1]);
    assert_eq!(&bytes[6..12], &[0x02, 0, 0, 0, 0, 2]);
    assert_eq!(&bytes[12..14], &[0x08, 0x00]);
    assert_eq!(&bytes[14..16], &[0xAA, 0xBB]);
    assert!(bytes[16..].iter().all(|b| *b == 0));
}

#[test]
fn long_frame_is_not_padded() {
    let payload: Vec<u8> = (0..100u8).collect();
    let frame = EthernetFrame::new(mac(1), mac(2), EtherType::Arp, payload.clone());
    let bytes = frame.to_bytes();
    assert_eq!(bytes.len(), 114);
    assert_eq!(&bytes[14..], &payload[..]);
}

#[test]
fn frame_of_exactly_64_bytes_is_not_padded() {
    let frame = EthernetFrame::new(mac(1), mac(2), EtherType::Ipv4, vec![7u8; 50]);
    assert_eq!(frame.to_bytes().len(), 64);
}

#[test]
fn parse_rejects_short_buffer() {
    assert!(EthernetFrame::parse(&[0u8; 13]).is_none());
    assert!(EthernetFrame::parse(&[]).is_none());
}

#[test]
fn parse_takes_header_only_frame() {
    let frame = EthernetFrame::parse(&[1, 2, 3, 4, 5, 6, 7, 8, 9, 10, 11, 12, 0x08, 0x06]).unwrap();
    assert_eq!(frame.destination().octets(), [1, 2, 3, 4, 5, 6]);
    assert_eq!(frame.source().octets(), [7, 8, 9, 10, 11, 12]);
    assert_eq!(frame.ethertype(), EtherType::Arp);
    assert!(frame.payload().is_empty());
}

#[test]
fn frame_round_trip_keeps_long_payload() {
    let payload: Vec<u8> = (0..60u8).collect();
    let frame = EthernetFrame::new(mac(9), mac(8), EtherType::Ipv4, payload.clone());
    let parsed = EthernetFrame::parse(&frame.to_bytes()).unwrap();
    assert_eq!(*parsed.destination(), mac(9));
    assert_eq!(*parsed.source(), mac(8));
    assert_eq!(parsed.ethertype(), EtherType::Ipv4);
    assert_eq!(parsed.payload(), &payload[..]);
}

#[test]
fn unknown_ether_type_round_trips_as_unknown() {
    let mut bytes = vec![0u8; 14];
    bytes[12] = 0x12;
    bytes[13] = 0x34;
    let frame = EthernetFrame::parse(&bytes).unwrap();
    assert_eq!(frame.ethertype(), EtherType::Unknown);
    assert_eq!(&frame.to_bytes()[12..14], &[0xFF, 0xFF]);
}
