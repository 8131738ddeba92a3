//! The receive path: from a frame to the protocol that takes it.

use vstd::prelude::*;
use crate::net::{address_of, lemma_address_of, IpAddress, NetworkInterface};
use crate::net::arp::{handle_arp_packet, ArpCache, ArpCacheEntry, ArpPacket};
use crate::net::checksum::be16;
use crate::net::dhcp::{handle_dhcp_packet, DhcpAction, DhcpPacket, DHCP_CLIENT_PORT};
use crate::net::ethernet::{EtherType, EthernetFrame};
use crate::net::icmp::{handle_icmp_packet, message_verifies, verify_message, IcmpOutcome, IcmpPacket};
use crate::net::ip::{header_verifies, verify_header, IpPacket, IpProtocol};
use crate::net::socket::{deliver, delivered, dispatched, handle_tcp_segment, Socket, SocketTable};
use crate::net::tcp::{segment_verifies, verify_segment, TcpSegment};
use crate::net::udp::{
    datagram_acceptable, destination_port_of, handle_udp_packet, UdpDemux, UdpPacket,
};
use crate::net::wire::copy_range;

verus! {

/// The protocol that takes a received frame.
#[derive(Debug, Clone, Copy, PartialEq, Eq, Structural)]
pub enum RxKind {
    /// Nobody: the frame is malformed, fails a checksum or names a
    /// protocol that is not served.
    Dropped,
    Arp,
    Icmp,
    Tcp,
    Udp,
    /// A datagram for the DHCP client port.
    Dhcp,
}

/// What a received frame led to.
#[derive(Debug)]
pub enum RxOutcome {
    Dropped,
    /// An ARP packet was handled; `reply` is the frame to send in answer.
    Arp { reply: Option<Vec<u8>> },
    /// An ICMP message was handled.
    Icmp(IcmpOutcome),
    /// A TCP segment from `peer` was handled; `response` is the segment to
    /// send in answer.
    Tcp { response: Option<TcpSegment>, peer: IpAddress },
    /// A UDP datagram was handled; `delivered` says whether its port is bound.
    Udp { delivered: bool },
    /// A datagram for the DHCP client was handled.
    Dhcp(DhcpAction),
}

/// The IP packet in the frame `frame`: what follows the Ethernet header.
pub open spec fn ip_part(frame: Seq<u8>) -> Seq<u8> {
    frame.skip(14)
}

/// What the IP packet in `frame` carries: what follows the IP header.
pub open spec fn transport_part(frame: Seq<u8>) -> Seq<u8> {
    frame.skip(14).skip(20)
}

/// The source address of the IP packet in `frame`.
pub open spec fn source_of(frame: Seq<u8>) -> IpAddress {
    address_of(ip_part(frame).subrange(12, 16))
}

/// The destination address of the IP packet in `frame`.
pub open spec fn destination_of(frame: Seq<u8>) -> IpAddress {
    address_of(ip_part(frame).subrange(16, 20))
}

/// The protocol that takes the IP packet in `frame`.
pub open spec fn ip_kind(frame: Seq<u8>) -> RxKind {
    let ip = ip_part(frame);
    let payload = transport_part(frame);
    if !IpPacket::accepts(ip) || !header_verifies(ip) {
        RxKind::Dropped
    } else {
        match IpProtocol::of(ip[9]) {
            IpProtocol::Icmp => if message_verifies(payload) {
                RxKind::Icmp
            } else {
                RxKind::Dropped
            },
            IpProtocol::Tcp => if segment_verifies(payload, source_of(frame), destination_of(frame)) {
                RxKind::Tcp
            } else {
                RxKind::Dropped
            },
            IpProtocol::Udp => if !UdpPacket::accepts(payload) || !datagram_acceptable(
                payload,
                source_of(frame),
                destination_of(frame),
            ) {
                RxKind::Dropped
            } else if destination_port_of(payload) == DHCP_CLIENT_PORT {
                RxKind::Dhcp
            } else {
                RxKind::Udp
            },
            IpProtocol::Unknown => RxKind::Dropped,
        }
    }
}

/// The protocol that takes the frame `frame`. A frame shorter than its
/// header, an ARP packet shorter than 28 bytes, an IP packet that is too
/// short, not of version 4 or fails its header checksum, an ICMP message,
/// a UDP datagram or a TCP segment that fails its checksum, a TCP segment
/// shorter than its header, and every unknown protocol are dropped.
pub open spec fn kind_of(frame: Seq<u8>) -> RxKind {
    if frame.len() < 14 {
        RxKind::Dropped
    } else {
        match EtherType::of(be16(frame[12], frame[13])) {
            EtherType::Arp => if frame.len() >= 42 {
                RxKind::Arp
            } else {
                RxKind::Dropped
            },
            EtherType::Ipv4 => ip_kind(frame),
            EtherType::Unknown => RxKind::Dropped,
        }
    }
}

/// Whether `after` is `before` but perhaps for the IP address.
pub open spec fn same_but_address(before: &NetworkInterface, after: &NetworkInterface) -> bool {
    *after == (NetworkInterface { ip_address: after.ip_address, ..*before })
}

/// What the handling of the frame `frame` at second `now` did, by the
/// protocol that took it.
pub open spec fn processed(
    frame: Seq<u8>,
    now: u64,
    before: &NetworkInterface,
    after: &NetworkInterface,
    cache: Map<u32, ArpCacheEntry>,
    cache_after: Map<u32, ArpCacheEntry>,
    ports: Map<u16, u32>,
    sockets: Seq<Socket>,
    sockets_after: Seq<Socket>,
    r: RxOutcome,
) -> bool {
    match kind_of(frame) {
        RxKind::Dropped => {
            &&& r matches RxOutcome::Dropped
            &&& *after == *before
            &&& cache_after == cache
            &&& sockets_after == sockets
        },
        RxKind::Arp => {
            &&& r matches RxOutcome::Arp { reply }
            &&& *after == *before
            &&& sockets_after == sockets
            &&& exists|p: ArpPacket|
                p.decodes(ip_part(frame)) && crate::net::arp::handled(
                    p,
                    before,
                    cache,
                    cache_after,
                    now,
                    r->Arp_reply,
                )
        },
        RxKind::Icmp => {
            &&& r matches RxOutcome::Icmp(outcome)
            &&& *after == *before
            &&& cache_after == cache
            &&& sockets_after == sockets
            &&& exists|m: IcmpPacket|
                m.decodes(transport_part(frame)) && crate::net::icmp::handled(
                    &m,
                    source_of(frame),
                    before.ip_address,
                    r->Icmp_0,
                )
        },
        RxKind::Tcp => {
            &&& r matches RxOutcome::Tcp { response, peer }
            &&& r->Tcp_peer == source_of(frame)
            &&& *after == *before
            &&& cache_after == cache
            &&& exists|s: TcpSegment|
                s.decodes(transport_part(frame)) && dispatched(
                    sockets,
                    sockets_after,
                    &s,
                    source_of(frame),
                    r->Tcp_response,
                )
        },
        RxKind::Udp => {
            let port = destination_port_of(transport_part(frame));
            &&& r matches RxOutcome::Udp { delivered: d }
            &&& r->Udp_delivered == ports.contains_key(port)
            &&& *after == *before
            &&& cache_after == cache
            &&& if ports.contains_key(port) {
                delivered(
                    sockets,
                    sockets_after,
                    ports[port],
                    transport_part(frame).skip(8),
                    source_of(frame),
                )
            } else {
                sockets_after == sockets
            }
        },
        RxKind::Dhcp => {
            let payload = transport_part(frame).skip(8);
            &&& r matches RxOutcome::Dhcp(action)
            &&& same_but_address(before, after)
            &&& cache_after == cache
            &&& sockets_after == sockets
            &&& if payload.len() < 240 {
                r->Dhcp_0 matches DhcpAction::Ignore && after.ip_address == before.ip_address
            } else {
                exists|p: DhcpPacket|
                    p.decodes(payload) && crate::net::dhcp::handled(p, before, after, r->Dhcp_0)
            }
        },
    }
}

impl NetworkInterface {
    /// Takes the received frame `data` into the receive buffer and handles it.
    pub fn receive(
        &mut self,
        data: &[u8],
        cache: &mut ArpCache,
        demux: &UdpDemux,
        sockets: &mut SocketTable,
        now: u64,
    ) -> (r: RxOutcome)
        requires
            old(sockets).wf(),
        ensures
            final(sockets).wf(),
            final(sockets).next_id() == old(sockets).next_id(),
            final(self).rx_buffer@ == data@,
            processed(
                data@,
                now,
                &(NetworkInterface { rx_buffer: final(self).rx_buffer, ..*old(self) }),
                final(self),
                old(cache)@,
                final(cache)@,
                demux@,
                old(sockets)@,
                final(sockets)@,
                r,
            ),
    {
        self.rx_buffer = copy_range(data, 0, data.len());
        assert(data@.subrange(0, data@.len() as int) == data@);
        self.process_rx_buffer(cache, demux, sockets, now)
    }

    /// Handles the frame in the receive buffer: it goes to the protocol that
    /// `kind_of` names, and the outcome says what that protocol made of it.
    pub fn process_rx_buffer(
        &mut self,
        cache: &mut ArpCache,
        demux: &UdpDemux,
        sockets: &mut SocketTable,
        now: u64,
    ) -> (r: RxOutcome)
        requires
            old(sockets).wf(),
        ensures
            final(sockets).wf(),
            final(sockets).next_id() == old(sockets).next_id(),
            processed(
                old(self).rx_buffer@,
                now,
                old(self),
                final(self),
                old(cache)@,
                final(cache)@,
                demux@,
                old(sockets)@,
                final(sockets)@,
                r,
            ),
    {
        let ghost bytes = self.rx_buffer@;
        let frame = match EthernetFrame::parse(self.rx_buffer.as_slice()) {
            Some(frame) => frame,
            None => {
                return RxOutcome::Dropped;
            },
        };
        assert(frame.payload@ == ip_part(bytes));
        match frame.ethertype {
            EtherType::Arp => {
                match ArpPacket::parse(frame.payload.as_slice()) {
                    Some(packet) => {
                        let reply = handle_arp_packet(cache, &*self, packet, now);
                        RxOutcome::Arp { reply }
                    },
                    None => RxOutcome::Dropped,
                }
            },
            EtherType::Ipv4 => {
                if !verify_header(frame.payload.as_slice()) {
                    return RxOutcome::Dropped;
                }
                let packet = match IpPacket::parse(frame.payload.as_slice()) {
                    Some(packet) => packet,
                    None => {
                        return RxOutcome::Dropped;
                    },
                };
                assert(packet.payload@ == transport_part(bytes));
                proof {
                    lemma_address_of(ip_part(bytes).subrange(12, 16));
                    lemma_address_of(ip_part(bytes).subrange(16, 20));
                    assert(packet.source.octets@ =~= source_of(bytes).octets@);
                    assert(packet.destination.octets@ =~= destination_of(bytes).octets@);
                    assert(packet.source.octets == source_of(bytes).octets);
                    assert(packet.destination.octets == destination_of(bytes).octets);
                }
                let source = packet.source;
                let destination = packet.destination;
                match packet.protocol {
                    IpProtocol::Icmp => {
                        if !verify_message(packet.payload.as_slice()) {
                            return RxOutcome::Dropped;
                        }
                        match IcmpPacket::parse(packet.payload.as_slice()) {
                            Some(message) => {
                                let ghost m = message;
                                let outcome = handle_icmp_packet(message, source, self.ip_address);
                                assert(m.decodes(transport_part(bytes)));
                                RxOutcome::Icmp(outcome)
                            },
                            None => RxOutcome::Dropped,
                        }
                    },
                    IpProtocol::Tcp => {
                        if !verify_segment(packet.payload.as_slice(), source, destination) {
                            return RxOutcome::Dropped;
                        }
                        match TcpSegment::parse(packet.payload.as_slice()) {
                            Some(segment) => {
                                let ghost s = segment;
                                let response = handle_tcp_segment(
                                    sockets,
                                    segment,
                                    source,
                                    destination,
                                );
                                assert(s.decodes(transport_part(bytes)));
                                RxOutcome::Tcp { response, peer: source }
                            },
                            None => RxOutcome::Dropped,
                        }
                    },
                    IpProtocol::Udp => {
                        match UdpPacket::parse(packet.payload.as_slice()) {
                            Some(datagram) => {
                                if !datagram.acceptable(source, destination) {
                                    return RxOutcome::Dropped;
                                }
                                assert(datagram.payload@ =~= transport_part(bytes).skip(8));
                                if datagram.destination_port == DHCP_CLIENT_PORT {
                                    match handle_dhcp_packet(&datagram, self) {
                                        Ok(action) => RxOutcome::Dhcp(action),
                                        Err(_) => RxOutcome::Dropped,
                                    }
                                } else {
                                    match handle_udp_packet(demux, datagram, source) {
                                        Some(delivery) => {
                                            deliver(sockets, delivery);
                                            RxOutcome::Udp { delivered: true }
                                        },
                                        None => RxOutcome::Udp { delivered: false },
                                    }
                                }
                            },
                            None => RxOutcome::Dropped,
                        }
                    },
                    IpProtocol::Unknown => RxOutcome::Dropped,
                }
            },
            EtherType::Unknown => RxOutcome::Dropped,
        }
    }
}

} // verus!
