//! The send path: from an IP packet to the frame that the card gets.

use vstd::prelude::*;
use crate::net::{MacAddress, NetworkError, NetworkInterface};
use crate::net::arp::{get_mac_address, request_frame, resolved, ArpCache, Resolution};
use crate::net::dhcp::{start_dhcp_discovery, DhcpPacket};
use crate::net::driver::NetworkDriver;
use crate::net::ethernet::{frame_wire, EtherType, EthernetFrame};
use crate::net::ip::IpPacket;
use crate::net::wire::copy_range;

verus! {

/// What `frame_ip` gives.
#[derive(Debug)]
pub enum IpSend {
    /// The frame that carries the packet to the hardware address of its destination.
    Frame(Vec<u8>),
    /// The hardware address is not known yet: `request` is the ARP request
    /// to send, and the packet has to be sent again later.
    Unresolved { request: Vec<u8> },
}

/// Whether packets to `packet`'s destination go to every station: the
/// first octet of the destination is 255.
pub open spec fn is_broadcast(packet: &IpPacket) -> bool {
    packet.destination.octets[0] == 255
}

/// The hardware address of the QEMU network card.
pub open spec fn default_mac() -> Seq<u8> {
    seq![0x52u8, 0x54u8, 0x00u8, 0x12u8, 0x34u8, 0x56u8]
}

impl NetworkInterface {
    /// Hands the transmit buffer to the card and empties it. Whether the
    /// card took the frame is not reported.
    pub fn process_tx_buffer<D: NetworkDriver>(&mut self, driver: &mut D)
        ensures
            final(self).tx_buffer@.len() == 0,
            *final(self) == (NetworkInterface { tx_buffer: final(self).tx_buffer, ..*old(self) }),
    {
        let _ = driver.send(self.tx_buffer.as_slice());
        self.tx_buffer.clear();
    }

    /// Sends the frame `data`: it goes through the transmit buffer to the card.
    pub fn send<D: NetworkDriver>(&mut self, data: &[u8], driver: &mut D)
        ensures
            final(self).tx_buffer@.len() == 0,
            *final(self) == (NetworkInterface { tx_buffer: final(self).tx_buffer, ..*old(self) }),
    {
        self.tx_buffer = copy_range(data, 0, data.len());
        self.process_tx_buffer(driver);
    }

    /// Frames the IP packet `packet` at second `now`. A packet to a
    /// broadcast address goes to the broadcast hardware address and the
    /// cache is not asked. Otherwise the cache is asked for the hardware
    /// address of the destination; if it does not know it, the answer is the
    /// ARP request to send instead. The packet gets its header checksum.
    pub fn frame_ip(&self, cache: &mut ArpCache, packet: &mut IpPacket, now: u64) -> (r: IpSend)
        ensures
            final(packet).checksum == old(packet).header_checksum(),
            final(packet).same(&IpPacket { checksum: final(packet).checksum, ..*old(packet) }),
            is_broadcast(old(packet)) ==> final(cache)@ == old(cache)@ && exists|all: MacAddress|
                all.0@ == seq![0xFFu8, 0xFFu8, 0xFFu8, 0xFFu8, 0xFFu8, 0xFFu8] && (r
                    matches IpSend::Frame(f) && f@ == frame_wire(
                    all,
                    self.mac_address,
                    EtherType::Ipv4,
                    final(packet).wire(),
                )),
            !is_broadcast(old(packet)) ==> match resolved(
                old(cache)@,
                old(packet).destination,
                now,
            ) {
                Some(mac) => final(cache)@ == old(cache)@ && (r matches IpSend::Frame(f) && f@
                    == frame_wire(mac, self.mac_address, EtherType::Ipv4, final(packet).wire())),
                None => final(cache)@ == old(cache)@.remove(old(packet).destination.key()) && (r
                    matches IpSend::Unresolved { request } && request_frame(
                    self,
                    old(packet).destination,
                    request@,
                )),
            },
    {
        let bytes = packet.to_bytes();
        let dest_mac = if packet.destination.octets[0] == 255 {
            MacAddress::broadcast()
        } else {
            match get_mac_address(cache, self, packet.destination, now) {
                Resolution::Resolved(mac) => mac,
                Resolution::Pending { request } => {
                    return IpSend::Unresolved { request };
                },
            }
        };
        let frame = EthernetFrame::new(dest_mac, self.mac_address, EtherType::Ipv4, bytes);
        IpSend::Frame(frame.to_bytes())
    }

    /// Sends the IP packet `packet` at second `now`: see `frame_ip` for the
    /// frame that the card gets. If the hardware address of the destination
    /// is not known, the ARP request goes out instead and the call fails.
    pub fn send_ip<D: NetworkDriver>(
        &mut self,
        driver: &mut D,
        cache: &mut ArpCache,
        packet: &mut IpPacket,
        now: u64,
    ) -> (r: Result<(), NetworkError>)
        ensures
            final(self).tx_buffer@.len() == 0,
            *final(self) == (NetworkInterface { tx_buffer: final(self).tx_buffer, ..*old(self) }),
            final(packet).checksum == old(packet).header_checksum(),
            final(packet).same(&IpPacket { checksum: final(packet).checksum, ..*old(packet) }),
            r is Ok <==> is_broadcast(old(packet)) || resolved(
                old(cache)@,
                old(packet).destination,
                now,
            ) is Some,
            final(cache)@ == (if r is Ok {
                old(cache)@
            } else {
                old(cache)@.remove(old(packet).destination.key())
            }),
            r is Err ==> r == Err::<(), NetworkError>(
                NetworkError::Other("Could not resolve MAC address"),
            ),
    {
        match self.frame_ip(cache, packet, now) {
            IpSend::Frame(frame) => {
                self.send(frame.as_slice(), driver);
                Ok(())
            },
            IpSend::Unresolved { request } => {
                self.send(request.as_slice(), driver);
                Err(NetworkError::Other("Could not resolve MAC address"))
            },
        }
    }
}

/// The interface of this host under QEMU, not yet configured, and the
/// discover message with which it starts to look for a lease.
pub fn init() -> (r: (NetworkInterface, Vec<u8>))
    ensures
        r.0.mac_address.0@ == default_mac(),
        r.0.ip_address.octets@ == seq![0u8, 0u8, 0u8, 0u8],
        r.0.rx_buffer@.len() == 0,
        r.0.tx_buffer@.len() == 0,
        exists|p: DhcpPacket|
            p.client_message(default_mac(), seq![0u8, 0u8, 0u8, 0u8]) && p.options@.len() == 2
                && p.options@[0].wire() == seq![53u8, 1u8, 1u8] && p.options@[1].wire() == seq![
                55u8,
                4u8,
                1u8,
                3u8,
                6u8,
                15u8,
            ] && r.1@ == p.wire(),
{
    let interface = NetworkInterface::new(MacAddress::new([0x52, 0x54, 0x00, 0x12, 0x34, 0x56]));
    let discover = match start_dhcp_discovery(&interface) {
        Ok(bytes) => bytes,
        Err(_) => Vec::new(),
    };
    (interface, discover)
}

} // verus!
