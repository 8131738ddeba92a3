use kernel_core::net::ip::{IpPacket, IpProtocol};
use kernel_core::net::socket::{
    bind, close, connect, deliver, find_socket_by_port, handle_tcp_segment, listen, receive,
    recv_from, send, send_to, socket, Outgoing, Socket, SocketState, SocketTable, SocketType,
};
use kernel_core::net::tcp::{TcpFlags, TcpSegment, TcpState};
use kernel_core::net::udp::{Delivery, UdpDemux, UdpPacket};
use kernel_core::net::{IpAddress, NetworkError};

fn local() -> IpAddress {
    IpAddress::new([10, 0, 0, 1])
}

fn remote() -> IpAddress {
    IpAddress::new([10, 0, 0, 2])
}

#[test]
fn new_socket_is_closed_and_unbound() {
    let s = Socket::new(5, SocketType::Dgram).unwrap();
    assert_eq!(s.id, 5);
    assert_eq!(s.socket_type, SocketType::Dgram);
    assert_eq!(s.state(), SocketState::Closed);
    assert_eq!(s.local_addr(), IpAddress::new([0, 0, 0, 0]));
    assert_eq!(s.local_port, 0);
    assert!(s.remote_addr.is_none());
    assert!(s.remote_port.is_none());
    assert!(s.receive_buffer.is_empty());
    assert!(s.tcp_connection.is_none());
}

#[test]
fn socket_ids_count_up_from_one() {
    let mut table = SocketTable::new();
    assert_eq!(socket(&mut table, SocketType::Stream), Ok(1));
    assert_eq!(socket(&mut table, SocketType::Dgram), Ok(2));
    close(&mut table, 1).unwrap();
    assert_eq!(socket(&mut table, SocketType::Dgram), Ok(3));
    assert!(table.get(1).is_none());
    assert_eq!(table.get(2).unwrap().socket_type, SocketType::Dgram);
    assert_eq!(table.find(3), Some(1));
    assert_eq!(table.find(9), None);
}

#[test]
fn datagram_socket_takes_its_port() {
    let mut table = SocketTable::new();
    let mut demux = UdpDemux::new();
    let id = socket(&mut table, SocketType::Dgram).unwrap();
    assert_eq!(bind(&mut table, &mut demux, id, local(), 5000), Ok(()));
    assert_eq!(demux.lookup(5000), Some(id));
    let s = table.get(id).unwrap();
    assert_eq!(s.local_addr(), local());
    assert_eq!(s.local_port, 5000);
    assert_eq!(s.state(), SocketState::Closed);
    assert_eq!(find_socket_by_port(&table, 5000), Some(id));
    assert_eq!(find_socket_by_port(&table, 5001), None);
}

#[test]
fn bound_port_conflict() {
    let mut table = SocketTable::new();
    let mut demux = UdpDemux::new();
    let first = socket(&mut table, SocketType::Dgram).unwrap();
    let second = socket(&mut table, SocketType::Dgram).unwrap();
    bind(&mut table, &mut demux, first, local(), 5000).unwrap();
    assert_eq!(
        bind(&mut table, &mut demux, second, local(), 5000),
        Err(NetworkError::AddressInUse)
    );
    assert_eq!(table.get(second).unwrap().local_port, 0);
    // the same port at another address is taken in the datagram table
    assert_eq!(
        bind(&mut table, &mut demux, second, remote(), 5000),
        Err(NetworkError::AddressInUse)
    );
    assert_eq!(table.get(second).unwrap().local_port, 0);
    assert_eq!(bind(&mut table, &mut demux, second, local(), 5001), Ok(()));
    assert_eq!(demux.lookup(5000), Some(first));
    assert_eq!(demux.lookup(5001), Some(second));
}

#[test]
fn unknown_socket_id_is_an_error() {
    let mut table = SocketTable::new();
    let mut demux = UdpDemux::new();
    let mut buffer = [0u8; 4];
    assert_eq!(bind(&mut table, &mut demux, 9, local(), 1), Err(NetworkError::SocketError));
    assert_eq!(listen(&mut table, 9), Err(NetworkError::SocketError));
    assert_eq!(connect(&mut table, 9, remote(), 1).err(), Some(NetworkError::SocketError));
    assert_eq!(send(&mut table, 9, b"x").err(), Some(NetworkError::SocketError));
    assert_eq!(send_to(&mut table, 9, b"x", remote(), 1).err(), Some(NetworkError::SocketError));
    assert_eq!(recv_from(&mut table, 9, &mut buffer, 0, 10), Err(NetworkError::SocketError));
    assert_eq!(receive(&mut table, 9, &mut buffer, 0), Err(NetworkError::SocketError));
    assert_eq!(close(&mut table, 9), Ok(()));
}

#[test]
fn stream_socket_connects_with_a_syn() {
    let mut table = SocketTable::new();
    let mut demux = UdpDemux::new();
    let id = socket(&mut table, SocketType::Stream).unwrap();
    assert!(connect(&mut table, id, remote(), 80).is_err());
    bind(&mut table, &mut demux, id, local(), 4000).unwrap();
    assert_eq!(demux.lookup(4000), None);
    let syn = connect(&mut table, id, remote(), 80).unwrap().unwrap();
    assert_eq!(syn.flags, TcpFlags::from_byte(0x02));
    assert_eq!(syn.sequence_number, 0);
    assert_eq!(syn.source_port, 4000);
    assert_eq!(syn.destination_port, 80);
    let s = table.get(id).unwrap();
    assert_eq!(s.state(), SocketState::Connected);
    assert_eq!(s.remote_addr, Some(remote()));
    assert_eq!(s.remote_port, Some(80));
    assert_eq!(s.tcp_connection.as_ref().unwrap().state, TcpState::SynSent);
    assert!(connect(&mut table, id, remote(), 80).is_err());
}

#[test]
fn stream_socket_sends_once_established() {
    let mut table = SocketTable::new();
    let mut demux = UdpDemux::new();
    let id = socket(&mut table, SocketType::Stream).unwrap();
    assert_eq!(send(&mut table, id, b"x").err(), Some(NetworkError::NotConnected));
    bind(&mut table, &mut demux, id, local(), 4000).unwrap();
    connect(&mut table, id, remote(), 80).unwrap();
    // connected as a socket, but the handshake is not done
    assert_eq!(send(&mut table, id, b"x").err(), Some(NetworkError::NotConnected));
    let syn_ack = TcpSegment::new(80, 4000, 500, 1, TcpFlags::from_byte(0x12), 100, vec![]);
    let ack = handle_tcp_segment(&mut table, syn_ack, remote(), local()).unwrap();
    assert_eq!(ack.acknowledgment_number, 501);
    match send(&mut table, id, b"abc").unwrap() {
        Outgoing::Segment(segment) => {
            assert_eq!(segment.payload, b"abc".to_vec());
            assert_eq!(segment.sequence_number, 1);
            assert_eq!(segment.flags, TcpFlags::from_byte(0x18));
        }
        Outgoing::Datagram(_) => panic!("a stream socket sends segments"),
    }
    assert_eq!(table.get(id).unwrap().tcp_connection.as_ref().unwrap().sequence_number, 4);
}

#[test]
fn segment_for_an_unserved_port_is_dropped() {
    let mut table = SocketTable::new();
    let mut demux = UdpDemux::new();
    let id = socket(&mut table, SocketType::Stream).unwrap();
    bind(&mut table, &mut demux, id, local(), 4000).unwrap();
    listen(&mut table, id).unwrap();
    let syn = TcpSegment::new(80, 4001, 500, 0, TcpFlags::from_byte(0x02), 100, vec![]);
    assert!(handle_tcp_segment(&mut table, syn, remote(), local()).is_none());
    assert_eq!(table.get(id).unwrap().tcp_connection.as_ref().unwrap().state, TcpState::Listen);
    let syn = TcpSegment::new(80, 4000, 500, 0, TcpFlags::from_byte(0x02), 100, vec![]);
    let answer = handle_tcp_segment(&mut table, syn, remote(), local()).unwrap();
    assert_eq!(answer.flags, TcpFlags::from_byte(0x12));
    assert_eq!(
        table.get(id).unwrap().tcp_connection.as_ref().unwrap().state,
        TcpState::SynReceived
    );
}

#[test]
fn only_stream_sockets_listen() {
    let mut table = SocketTable::new();
    let mut demux = UdpDemux::new();
    let udp = socket(&mut table, SocketType::Dgram).unwrap();
    let tcp = socket(&mut table, SocketType::Stream).unwrap();
    assert!(listen(&mut table, udp).is_err());
    assert!(listen(&mut table, tcp).is_err());
    bind(&mut table, &mut demux, tcp, local(), 80).unwrap();
    assert_eq!(listen(&mut table, tcp), Ok(()));
    assert_eq!(table.get(tcp).unwrap().state(), SocketState::Listening);
    assert!(listen(&mut table, tcp).is_err());
    assert!(bind(&mut table, &mut demux, tcp, local(), 81).is_err());
    assert_eq!(table.get(tcp).unwrap().local_port, 80);
}

#[test]
fn datagram_socket_sends_to_its_peer() {
    let mut table = SocketTable::new();
    let mut demux = UdpDemux::new();
    let id = socket(&mut table, SocketType::Dgram).unwrap();
    bind(&mut table, &mut demux, id, local(), 1234).unwrap();
    assert!(send(&mut table, id, b"hi").is_err());
    assert!(connect(&mut table, id, remote(), 5678).unwrap().is_none());
    assert_eq!(table.get(id).unwrap().state(), SocketState::Connected);
    match send(&mut table, id, b"hi").unwrap() {
        Outgoing::Datagram(bytes) => {
            let ip = IpPacket::parse(&bytes).unwrap();
            assert_eq!(ip.protocol(), IpProtocol::Udp);
            assert_eq!(ip.source(), local());
            assert_eq!(ip.destination(), remote());
            let udp = UdpPacket::parse(ip.payload()).unwrap();
            assert_eq!(udp.source_port, 1234);
            assert_eq!(udp.destination_port, 5678);
            assert_eq!(udp.checksum, 0x686e);
            assert_eq!(udp.payload, b"hi".to_vec());
        }
        Outgoing::Segment(_) => panic!("a datagram socket sends datagrams"),
    }
}

#[test]
fn send_to_is_for_datagram_sockets() {
    let mut table = SocketTable::new();
    let mut demux = UdpDemux::new();
    let udp = socket(&mut table, SocketType::Dgram).unwrap();
    let tcp = socket(&mut table, SocketType::Stream).unwrap();
    bind(&mut table, &mut demux, udp, local(), 1234).unwrap();
    let bytes = send_to(&mut table, udp, b"hi", remote(), 5678).unwrap();
    let ip = IpPacket::parse(&bytes).unwrap();
    let datagram = UdpPacket::parse(ip.payload()).unwrap();
    assert_eq!(datagram.destination_port, 5678);
    assert_eq!(datagram.source_port, 1234);
    assert!(datagram.verify_checksum(local(), remote()));
    assert!(send_to(&mut table, tcp, b"hi", remote(), 5678).is_err());
    assert!(table.get(udp).unwrap().remote_addr.is_none());
}

#[test]
fn receive_polls_until_data_or_timeout() {
    let mut table = SocketTable::new();
    let mut demux = UdpDemux::new();
    let id = socket(&mut table, SocketType::Dgram).unwrap();
    bind(&mut table, &mut demux, id, local(), 1234).unwrap();
    let mut buffer = [0xEEu8; 4];
    assert_eq!(recv_from(&mut table, id, &mut buffer, 0, 10), Ok(None));
    assert_eq!(recv_from(&mut table, id, &mut buffer, 10, 10), Ok(None));
    assert_eq!(recv_from(&mut table, id, &mut buffer, 11, 10), Err(NetworkError::Timeout));
    assert_eq!(receive(&mut table, id, &mut buffer, 1000), Ok(None));
    assert_eq!(receive(&mut table, id, &mut buffer, 1001), Err(NetworkError::Timeout));
    assert_eq!(buffer, [0xEE; 4]);
    assert!(table.get(id).unwrap().receive_buffer.is_empty());

    deliver(
        &mut table,
        Delivery { socket: id, payload: vec![1, 2, 3, 4, 5, 6], source_ip: remote(), source_port: 9 },
    );
    assert_eq!(
        recv_from(&mut table, id, &mut buffer, 99, 10),
        Ok(Some((4, IpAddress::new([0, 0, 0, 0]), 0)))
    );
    assert_eq!(buffer, [1, 2, 3, 4]);
    let mut big = [0xEEu8; 4];
    assert_eq!(
        recv_from(&mut table, id, &mut big, 0, 10),
        Ok(Some((2, IpAddress::new([0, 0, 0, 0]), 0)))
    );
    assert_eq!(big, [5, 6, 0xEE, 0xEE]);
    assert_eq!(recv_from(&mut table, id, &mut big, 0, 10), Ok(None));
}

#[test]
fn receive_is_for_datagram_sockets() {
    let mut table = SocketTable::new();
    let id = socket(&mut table, SocketType::Stream).unwrap();
    let mut buffer = [0u8; 4];
    assert!(matches!(
        recv_from(&mut table, id, &mut buffer, 0, 10),
        Err(NetworkError::Other(_))
    ));
}

#[test]
fn connected_datagram_socket_takes_data_from_its_peer_only() {
    let mut table = SocketTable::new();
    let mut demux = UdpDemux::new();
    let id = socket(&mut table, SocketType::Dgram).unwrap();
    bind(&mut table, &mut demux, id, local(), 1234).unwrap();
    connect(&mut table, id, remote(), 5678).unwrap();
    deliver(
        &mut table,
        Delivery {
            socket: id,
            payload: vec![1],
            source_ip: IpAddress::new([10, 0, 0, 3]),
            source_port: 5678,
        },
    );
    assert!(table.get(id).unwrap().receive_buffer.is_empty());
    deliver(
        &mut table,
        Delivery { socket: id, payload: vec![2], source_ip: remote(), source_port: 1 },
    );
    assert_eq!(table.get(id).unwrap().receive_buffer, vec![2]);
    let mut buffer = [0u8; 8];
    assert_eq!(recv_from(&mut table, id, &mut buffer, 0, 10), Ok(Some((1, remote(), 5678))));
    // a delivery for a socket that is gone changes nothing
    deliver(
        &mut table,
        Delivery { socket: 77, payload: vec![3], source_ip: remote(), source_port: 1 },
    );
    assert!(table.get(id).unwrap().receive_buffer.is_empty());
}

#[test]
fn closed_socket_is_gone() {
    let mut table = SocketTable::new();
    let a = socket(&mut table, SocketType::Dgram).unwrap();
    let b = socket(&mut table, SocketType::Dgram).unwrap();
    assert_eq!(close(&mut table, a), Ok(()));
    assert!(table.get(a).is_none());
    assert!(table.get(b).is_some());
    assert_eq!(close(&mut table, a), Ok(()));
}
