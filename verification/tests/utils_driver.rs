use kernel_core::net::driver::{init, Rtl8139, TxCommand};
use kernel_core::net::icmp::{IcmpPacket, IcmpType};
use kernel_core::net::socket::{self, SocketState, SocketTable, SocketType};
use kernel_core::net::udp::UdpDemux;
use kernel_core::net::utils::{check_sockets, netstat, ping, route_print, sleep, PingStatistics};
use kernel_core::net::{IpAddress, MacAddress, NetworkError, NetworkInterface};

#[test]
fn new_statistics_are_empty() {
    let stats = PingStatistics::new();
    assert_eq!(stats.packets_sent, 0);
    assert_eq!(stats.packets_received, 0);
    assert_eq!(stats.min_rtt, u64::MAX);
    assert_eq!(stats.max_rtt, 0);
    assert_eq!(stats.avg_rtt, 0);
}

#[test]
fn statistics_follow_the_round_trip_times() {
    let mut stats = PingStatistics::new();
    stats.update(10);
    assert_eq!((stats.min_rtt, stats.max_rtt, stats.avg_rtt, stats.packets_received), (10, 10, 10, 1));
    stats.update(20);
    assert_eq!((stats.min_rtt, stats.max_rtt, stats.avg_rtt, stats.packets_received), (10, 20, 15, 2));
    stats.update(3);
    assert_eq!((stats.min_rtt, stats.max_rtt, stats.avg_rtt, stats.packets_received), (3, 20, 11, 3));
    stats.update(0);
    assert_eq!((stats.min_rtt, stats.max_rtt, stats.avg_rtt, stats.packets_received), (0, 20, 8, 4));
    assert_eq!(stats.packets_sent, 0);
}

#[test]
fn average_of_the_largest_times_does_not_run_over() {
    let mut stats = PingStatistics::new();
    stats.update(u64::MAX);
    stats.update(u64::MAX);
    stats.update(u64::MAX);
    assert_eq!(stats.avg_rtt, u64::MAX);
    assert_eq!(stats.min_rtt, u64::MAX);
}

#[test]
fn sleep_is_over_after_its_time() {
    assert!(!sleep(100, 100, 5));
    assert!(!sleep(100, 104, 5));
    assert!(sleep(100, 105, 5));
    assert!(sleep(100, 100, 0));
    assert!(!sleep(100, 50, 0));
}

#[test]
fn sockets_check_out() {
    assert_eq!(check_sockets(&SocketTable::new()), Ok(()));
}

#[test]
fn ping_session_sends_and_counts() {
    let mut session = ping(IpAddress::new([8, 8, 8, 8]), 2, 0x0042).unwrap();
    assert_eq!(session.count, 2);
    assert_eq!(session.sequence, 0);
    assert!(!session.waiting);
    let request = session.next_request(1000).unwrap();
    let packet = IcmpPacket::parse(&request).unwrap();
    assert_eq!(packet.get_type(), IcmpType::EchoRequest);
    assert_eq!(packet.get_identifier(), 0x0042);
    assert_eq!(packet.get_sequence(), 1);
    assert_eq!(packet.payload, 1000u64.to_be_bytes().to_vec());
    assert_eq!(session.stats.packets_sent, 1);
    assert!(session.waiting);
    assert!(session.next_request(1001).is_none());

    let mut reply = IcmpPacket::new_echo_reply(0x0042, 1, vec![]);
    assert!(!session.on_poll(Some(&reply.to_bytes()), 1030));
    assert_eq!(session.stats.packets_received, 1);
    assert_eq!(session.stats.avg_rtt, 30);
    assert_eq!(session.stats.min_rtt, 30);

    let request = session.next_request(2000).unwrap();
    assert_eq!(IcmpPacket::parse(&request).unwrap().get_sequence(), 2);
    let mut wrong_id = IcmpPacket::new_echo_reply(0x0043, 2, vec![]);
    assert!(session.on_poll(Some(&wrong_id.to_bytes()), 2001));
    let mut a_request = IcmpPacket::new_echo_request(0x0042, 2, vec![]);
    assert!(session.on_poll(Some(&a_request.to_bytes()), 2002));
    assert_eq!(session.attempts, 2);
    assert!(!session.on_poll(None, 2003));
    assert_eq!(session.stats.packets_received, 1);
    assert_eq!(session.stats.packets_sent, 2);
    assert!(session.next_request(3000).is_none());
}

#[test]
fn ping_reply_before_its_request_counts_as_no_time() {
    let mut session = ping(IpAddress::new([8, 8, 8, 8]), 1, 1).unwrap();
    session.next_request(1000).unwrap();
    let mut reply = IcmpPacket::new_echo_reply(1, 1, vec![]);
    assert!(!session.on_poll(Some(&reply.to_bytes()), 900));
    assert_eq!(session.stats.max_rtt, 0);
    assert_eq!(session.stats.min_rtt, 0);
}

#[test]
fn ping_of_nothing_sends_nothing() {
    let mut session = ping(IpAddress::new([8, 8, 8, 8]), 0, 1).unwrap();
    assert!(session.next_request(0).is_none());
    assert_eq!(session.stats.packets_sent, 0);
}

#[test]
fn card_stages_frames_in_turn() {
    let mut card = Rtl8139::new(0xC000);
    assert_eq!(card.current_tx_buffer, 0);
    assert_eq!(card.mac_address(), MacAddress::new([0; 6]));
    assert_eq!(
        card.stage(&[1, 2, 3]),
        Ok(TxCommand { buffer: 0, address_port: 0xC010, length_port: 0xC014, length: 3 })
    );
    assert_eq!(card.tx_buffer[0], vec![1, 2, 3]);
    assert_eq!(
        card.stage(&[4]),
        Ok(TxCommand { buffer: 1, address_port: 0xC014, length_port: 0xC018, length: 1 })
    );
    card.stage(&[5]).unwrap();
    assert_eq!(
        card.stage(&[6]),
        Ok(TxCommand { buffer: 3, address_port: 0xC01C, length_port: 0xC020, length: 1 })
    );
    assert_eq!(card.current_tx_buffer, 0);
    card.stage(&[7, 8]).unwrap();
    assert_eq!(card.tx_buffer[0], vec![7, 8]);
    assert_eq!(card.tx_buffer[1], vec![4]);
}

#[test]
fn card_refuses_large_frames() {
    let mut card = Rtl8139::new(0xC000);
    assert!(card.stage(&[0u8; 1792]).is_ok());
    assert_eq!(card.stage(&[0u8; 1793]), Err(NetworkError::BufferTooSmall));
    assert_eq!(card.current_tx_buffer, 1);
    assert!(card.tx_buffer[1].is_empty());
}

#[test]
fn driver_init_takes_the_address_of_the_card() {
    let mut interface = NetworkInterface::new(MacAddress::new([0; 6]));
    interface.set_ip_address(IpAddress::new([10, 0, 0, 1]));
    assert_eq!(init(&mut interface, MacAddress::new([1, 2, 3, 4, 5, 6])), Ok(()));
    assert_eq!(interface.mac_address(), MacAddress::new([1, 2, 3, 4, 5, 6]));
    assert_eq!(interface.ip_address(), IpAddress::new([10, 0, 0, 1]));
}

#[test]
fn netstat_lists_every_socket_with_its_state() {
    let mut table = SocketTable::new();
    let mut demux = UdpDemux::new();
    assert!(netstat(&table).is_empty());
    let first = socket::socket(&mut table, SocketType::Stream).unwrap();
    let second = socket::socket(&mut table, SocketType::Stream).unwrap();
    socket::bind(&mut table, &mut demux, second, IpAddress::new([10, 0, 0, 2]), 5000).unwrap();
    socket::listen(&mut table, second).unwrap();
    assert_eq!(
        netstat(&table),
        vec![(first, SocketState::Closed), (second, SocketState::Listening)]
    );
}

#[test]
fn route_print_lists_every_socket_with_its_local_address() {
    let mut table = SocketTable::new();
    let mut demux = UdpDemux::new();
    let first = socket::socket(&mut table, SocketType::Dgram).unwrap();
    let second = socket::socket(&mut table, SocketType::Dgram).unwrap();
    socket::bind(&mut table, &mut demux, second, IpAddress::new([10, 0, 0, 2]), 5000).unwrap();
    assert_eq!(
        route_print(&table),
        vec![(first, IpAddress::new([0, 0, 0, 0])), (second, IpAddress::new([10, 0, 0, 2]))]
    );
}

#[test]
fn the_first_reply_sets_minimum_maximum_and_average() {
    let mut stats = PingStatistics::new();
    stats.update(42);
    assert_eq!(
        stats,
        PingStatistics { packets_sent: 0, packets_received: 1, min_rtt: 42, max_rtt: 42, avg_rtt: 42 }
    );
    stats.update(10);
    assert_eq!(
        stats,
        PingStatistics { packets_sent: 0, packets_received: 2, min_rtt: 10, max_rtt: 42, avg_rtt: 26 }
    );
    stats.update(99);
    assert_eq!(stats.avg_rtt, (26 * 2 + 99) / 3);
    assert_eq!(stats.max_rtt, 99);
}
