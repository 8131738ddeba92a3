use kernel_core::net::arp::{ArpCache, ArpOperation, ArpPacket};
use kernel_core::net::dhcp::DhcpAction;
use kernel_core::net::driver::NetworkDriver;
use kernel_core::net::ethernet::{EtherType, EthernetFrame};
use kernel_core::net::icmp::{IcmpOutcome, IcmpPacket};
use kernel_core::net::ip::{datagram_bytes, IpPacket, IpProtocol};
use kernel_core::net::rx::RxOutcome;
use kernel_core::net::socket::{bind, listen, socket, SocketTable, SocketType};
use kernel_core::net::tcp::{TcpFlags, TcpSegment};
use kernel_core::net::tx::{init, IpSend};
use kernel_core::net::udp::{send as udp_send, UdpDemux, UdpPacket};
use kernel_core::net::{IpAddress, MacAddress, NetworkError, NetworkInterface};

struct Recorder {
    frames: Vec<Vec<u8>>,
    refuse: bool,
}

impl NetworkDriver for Recorder {
    fn init(&mut self) -> Result<(), NetworkError> {
        Ok(())
    }

    fn send(&mut self, data: &[u8]) -> Result<(), NetworkError> {
        if self.refuse {
            return Err(NetworkError::BufferTooSmall);
        }
        self.frames.push(data.to_vec());
        Ok(())
    }

    fn receive(&mut self) -> Option<Vec<u8>> {
        None
    }

    fn mac_address(&self) -> MacAddress {
        MacAddress::new([0; 6])
    }
}

fn local() -> IpAddress {
    IpAddress::new([10, 0, 0, 1])
}

fn peer() -> IpAddress {
    IpAddress::new([10, 0, 0, 2])
}

fn peer_mac() -> MacAddress {
    MacAddress::new([0x02, 0, 0, 0, 0, 0x02])
}

fn interface() -> NetworkInterface {
    let mut interface = NetworkInterface::new(MacAddress::new([0x02, 0, 0, 0, 0, 0x01]));
    interface.configure(local(), IpAddress::new([255, 255, 255, 0]), IpAddress::new([10, 0, 0, 254]));
    interface
}

fn frame(ethertype: EtherType, payload: Vec<u8>) -> Vec<u8> {
    EthernetFrame::new(MacAddress::new([0x02, 0, 0, 0, 0, 0x01]), peer_mac(), ethertype, payload)
        .to_bytes()
}

fn ip_frame(protocol: IpProtocol, payload: Vec<u8>) -> Vec<u8> {
    // 46 bytes of payload and more, so that the frame needs no padding
    frame(EtherType::Ipv4, datagram_bytes(peer(), local(), protocol, payload))
}

struct World {
    interface: NetworkInterface,
    cache: ArpCache,
    demux: UdpDemux,
    sockets: SocketTable,
}

fn world() -> World {
    World {
        interface: interface(),
        cache: ArpCache::new(),
        demux: UdpDemux::new(),
        sockets: SocketTable::new(),
    }
}

fn feed(w: &mut World, data: &[u8], now: u64) -> RxOutcome {
    w.interface.receive(data, &mut w.cache, &w.demux, &mut w.sockets, now)
}

#[test]
fn short_and_unknown_frames_are_dropped() {
    let mut w = world();
    assert!(matches!(feed(&mut w, &[0u8; 13], 0), RxOutcome::Dropped));
    assert!(matches!(feed(&mut w, &frame(EtherType::Unknown, vec![0; 50]), 0), RxOutcome::Dropped));
    assert_eq!(w.interface.rx_buffer.len(), 64);
    let mut short_arp = vec![0u8; 41];
    short_arp[12] = 0x08;
    short_arp[13] = 0x06;
    assert!(matches!(feed(&mut w, &short_arp, 0), RxOutcome::Dropped));
}

#[test]
fn arp_request_is_answered_through_the_receive_path() {
    let mut w = world();
    let request = ArpPacket::new_request(peer_mac(), peer(), local());
    match feed(&mut w, &frame(EtherType::Arp, request.to_bytes()), 0) {
        RxOutcome::Arp { reply: Some(bytes) } => {
            let parsed = EthernetFrame::parse(&bytes).unwrap();
            assert_eq!(*parsed.destination(), peer_mac());
            let reply = ArpPacket::parse(parsed.payload()).unwrap();
            assert_eq!(reply.operation, ArpOperation::Reply);
            assert_eq!(reply.target_ip, peer());
        }
        other => panic!("unexpected {:?}", other),
    }
    let reply = ArpPacket::new_reply(peer_mac(), peer(), w.interface.mac_address(), local());
    match feed(&mut w, &frame(EtherType::Arp, reply.to_bytes()), 77) {
        RxOutcome::Arp { reply: None } => {}
        other => panic!("unexpected {:?}", other),
    }
    assert_eq!(w.cache.lookup(peer(), 376), Some(peer_mac()));
}

#[test]
fn echo_request_is_answered_through_the_receive_path() {
    let mut w = world();
    let mut request = IcmpPacket::new_echo_request(0x1234, 1, vec![0x41; 40]);
    let data = ip_frame(IpProtocol::Icmp, request.to_bytes());
    match feed(&mut w, &data, 0) {
        RxOutcome::Icmp(IcmpOutcome::Reply { datagram }) => {
            let ip = IpPacket::parse(&datagram).unwrap();
            assert_eq!(ip.source(), local());
            assert_eq!(ip.destination(), peer());
            let reply = IcmpPacket::parse(ip.payload()).unwrap();
            assert_eq!(reply.get_identifier(), 0x1234);
            assert_eq!(reply.get_sequence(), 1);
            assert_eq!(reply.payload, vec![0x41; 40]);
        }
        other => panic!("unexpected {:?}", other),
    }
}

#[test]
fn packets_with_bad_checksums_are_dropped() {
    let mut w = world();
    let mut request = IcmpPacket::new_echo_request(0x1234, 1, vec![0x41; 40]);
    let good = ip_frame(IpProtocol::Icmp, request.to_bytes());
    let mut bad_header = good.clone();
    bad_header[14 + 8] = 1;
    assert!(matches!(feed(&mut w, &bad_header, 0), RxOutcome::Dropped));
    let mut bad_message = good.clone();
    bad_message[14 + 20 + 10] = 0;
    assert!(matches!(feed(&mut w, &bad_message, 0), RxOutcome::Dropped));
    let mut version = good.clone();
    version[14] = 0x65;
    assert!(matches!(feed(&mut w, &version, 0), RxOutcome::Dropped));
    assert!(matches!(feed(&mut w, &good, 0), RxOutcome::Icmp(_)));
    assert!(matches!(
        feed(&mut w, &ip_frame(IpProtocol::Unknown, vec![0; 40]), 0),
        RxOutcome::Dropped
    ));
}

#[test]
fn datagram_reaches_the_bound_socket() {
    let mut w = world();
    let id = socket(&mut w.sockets, SocketType::Dgram).unwrap();
    bind(&mut w.sockets, &mut w.demux, id, local(), 5678).unwrap();
    let payload = vec![7u8; 40];
    let mut datagram = UdpPacket::new(1234, 5678, payload.clone());
    datagram.calculate_checksum(peer(), local());
    let data = ip_frame(IpProtocol::Udp, datagram.to_bytes());
    assert!(matches!(feed(&mut w, &data, 0), RxOutcome::Udp { delivered: true }));
    assert_eq!(w.sockets.get(id).unwrap().receive_buffer, payload);

    let mut other = UdpPacket::new(1234, 5679, payload.clone());
    other.calculate_checksum(peer(), local());
    let data = ip_frame(IpProtocol::Udp, other.to_bytes());
    assert!(matches!(feed(&mut w, &data, 0), RxOutcome::Udp { delivered: false }));

    let unchecked = UdpPacket::new(1234, 5678, vec![8u8; 40]);
    let data = ip_frame(IpProtocol::Udp, unchecked.to_bytes());
    assert!(matches!(feed(&mut w, &data, 0), RxOutcome::Udp { delivered: true }));
    assert_eq!(w.sockets.get(id).unwrap().receive_buffer.len(), 80);

    let mut wrong = UdpPacket::new(1234, 5678, vec![9u8; 40]);
    wrong.checksum = 0x1234;
    let data = ip_frame(IpProtocol::Udp, wrong.to_bytes());
    assert!(matches!(feed(&mut w, &data, 0), RxOutcome::Dropped));
    assert_eq!(w.sockets.get(id).unwrap().receive_buffer.len(), 80);
}

#[test]
fn segment_reaches_the_listening_socket() {
    let mut w = world();
    let id = socket(&mut w.sockets, SocketType::Stream).unwrap();
    bind(&mut w.sockets, &mut w.demux, id, local(), 80).unwrap();
    listen(&mut w.sockets, id).unwrap();
    let mut syn = TcpSegment::new(4000, 80, 100, 0, TcpFlags::from_byte(0x02), 512, vec![0; 30]);
    // without its checksum the segment is dropped
    let data = ip_frame(IpProtocol::Tcp, syn.to_bytes());
    assert!(matches!(feed(&mut w, &data, 0), RxOutcome::Dropped));
    syn.calculate_checksum(peer(), local());
    let mut damaged = syn.to_bytes();
    damaged[25] ^= 0x01;
    let data = ip_frame(IpProtocol::Tcp, damaged);
    assert!(matches!(feed(&mut w, &data, 0), RxOutcome::Dropped));
    let data = ip_frame(IpProtocol::Tcp, syn.to_bytes());
    match feed(&mut w, &data, 0) {
        RxOutcome::Tcp { response: Some(answer), peer: from } => {
            assert_eq!(from, peer());
            assert_eq!(answer.flags, TcpFlags::from_byte(0x12));
            assert_eq!(answer.acknowledgment_number, 101);
        }
        other => panic!("unexpected {:?}", other),
    }
    // a segment shorter than its header, in a frame without padding
    let mut runt = vec![0u8; 12];
    runt.extend_from_slice(&[0x08, 0x00]);
    runt.extend_from_slice(&datagram_bytes(peer(), local(), IpProtocol::Tcp, vec![0; 19]));
    assert!(matches!(feed(&mut w, &runt, 0), RxOutcome::Dropped));
}

#[test]
fn datagram_for_the_dhcp_client_port_goes_to_the_client() {
    let mut w = world();
    let mut datagram = UdpPacket::new(67, 68, vec![0u8; 40]);
    datagram.calculate_checksum(peer(), local());
    let data = ip_frame(IpProtocol::Udp, datagram.to_bytes());
    assert!(matches!(feed(&mut w, &data, 0), RxOutcome::Dhcp(DhcpAction::Ignore)));
    assert_eq!(w.interface.ip_address(), local());
}

#[test]
fn transmit_buffer_is_handed_to_the_card_and_emptied() {
    let mut interface = interface();
    let mut card = Recorder { frames: vec![], refuse: false };
    interface.send(&[1, 2, 3], &mut card);
    assert_eq!(card.frames, vec![vec![1, 2, 3]]);
    assert!(interface.tx_buffer.is_empty());
    interface.tx_buffer = vec![9, 9];
    interface.process_tx_buffer(&mut card);
    assert_eq!(card.frames.len(), 2);
    assert_eq!(card.frames[1], vec![9, 9]);
    assert!(interface.tx_buffer.is_empty());
    let mut broken = Recorder { frames: vec![], refuse: true };
    interface.send(&[1], &mut broken);
    assert!(interface.tx_buffer.is_empty());
}

#[test]
fn ip_packet_is_framed_for_the_resolved_address() {
    let interface = interface();
    let mut cache = ArpCache::new();
    cache.insert(peer(), peer_mac(), 0);
    let mut packet = IpPacket::new(local(), peer(), IpProtocol::Udp, vec![1u8; 60]);
    match interface.frame_ip(&mut cache, &mut packet, 10) {
        IpSend::Frame(bytes) => {
            let frame = EthernetFrame::parse(&bytes).unwrap();
            assert_eq!(*frame.destination(), peer_mac());
            assert_eq!(*frame.source(), interface.mac_address());
            assert_eq!(frame.ethertype(), EtherType::Ipv4);
            let ip = IpPacket::parse(frame.payload()).unwrap();
            assert_eq!(ip.payload, vec![1u8; 60]);
            assert_eq!(ip.checksum, packet.checksum);
            assert_ne!(packet.checksum, 0);
        }
        IpSend::Unresolved { .. } => panic!("the address is in the cache"),
    }
}

#[test]
fn ip_packet_for_an_unknown_address_gives_an_arp_request() {
    let mut interface = interface();
    let mut cache = ArpCache::new();
    let mut packet = IpPacket::new(local(), peer(), IpProtocol::Udp, vec![1u8; 60]);
    match interface.frame_ip(&mut cache, &mut packet, 10) {
        IpSend::Unresolved { request } => {
            let frame = EthernetFrame::parse(&request).unwrap();
            assert_eq!(*frame.destination(), MacAddress::broadcast());
            assert_eq!(frame.ethertype(), EtherType::Arp);
            assert_eq!(ArpPacket::parse(frame.payload()).unwrap().target_ip, peer());
        }
        IpSend::Frame(_) => panic!("the address is not known"),
    }
    let mut card = Recorder { frames: vec![], refuse: false };
    assert!(interface.send_ip(&mut card, &mut cache, &mut packet, 10).is_err());
    assert_eq!(card.frames.len(), 1);
    assert_eq!(EthernetFrame::parse(&card.frames[0]).unwrap().ethertype(), EtherType::Arp);
    cache.insert(peer(), peer_mac(), 10);
    assert_eq!(interface.send_ip(&mut card, &mut cache, &mut packet, 11), Ok(()));
    assert_eq!(card.frames.len(), 2);
    assert_eq!(EthernetFrame::parse(&card.frames[1]).unwrap().ethertype(), EtherType::Ipv4);
}

#[test]
fn broadcast_packet_needs_no_resolution() {
    let interface = interface();
    let mut cache = ArpCache::new();
    let mut packet = IpPacket::new(
        IpAddress::new([0, 0, 0, 0]),
        IpAddress::new([255, 255, 255, 255]),
        IpProtocol::Udp,
        udp_send(IpAddress::new([0, 0, 0, 0]), 68, IpAddress::new([255, 255, 255, 255]), 67, &[0; 40]),
    );
    match interface.frame_ip(&mut cache, &mut packet, 0) {
        IpSend::Frame(bytes) => {
            assert_eq!(&bytes[..6], &[0xFF; 6]);
        }
        IpSend::Unresolved { .. } => panic!("broadcast needs no address"),
    }
}

#[test]
fn init_gives_the_default_interface_and_a_discover_message() {
    let (interface, discover) = init();
    assert_eq!(interface.mac_address(), MacAddress::new([0x52, 0x54, 0x00, 0x12, 0x34, 0x56]));
    assert_eq!(interface.ip_address(), IpAddress::new([0, 0, 0, 0]));
    assert_eq!(discover[0], 1);
    assert_eq!(&discover[28..34], &[0x52, 0x54, 0x00, 0x12, 0x34, 0x56]);
}
