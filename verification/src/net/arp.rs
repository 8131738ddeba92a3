//! Address resolution: the 28-byte ARP packet for Ethernet and IPv4, and the
//! timed cache of resolved addresses.

use std::collections::BTreeMap;
use vstd::prelude::*;
use vstd::std_specs::cmp::PartialEqSpec;
use crate::net::{lemma_ip_eq, IpAddress, MacAddress, NetworkInterface};
use crate::net::checksum::{be16, u16_from_be};
use crate::net::ethernet::{frame_wire, EtherType, EthernetFrame};
use crate::net::wire::{be16_bytes, push_all, push_u16, read4, read6};

verus! {

pub const ARP_HARDWARE_TYPE_ETHERNET: u16 = 1;

pub const ARP_PROTOCOL_TYPE_IPV4: u16 = 0x0800;

/// Length of a hardware address.
pub const ARP_HARDWARE_SIZE: u8 = 6;

/// Length of a protocol address.
pub const ARP_PROTOCOL_SIZE: u8 = 4;

/// Length of an ARP packet for Ethernet and IPv4.
pub const ARP_PACKET_LEN: usize = 28;

/// Seconds after which a cache entry no longer counts.
pub const ARP_CACHE_TIMEOUT: u64 = 300;

#[derive(Debug, Clone, Copy, PartialEq, Eq, Structural)]
pub enum ArpOperation {
    Request,
    Reply,
}

impl ArpOperation {
    /// The operation that the number `value` names; any number but 2 reads as a request.
    pub open spec fn of(value: nat) -> ArpOperation {
        if value == 2 {
            ArpOperation::Reply
        } else {
            ArpOperation::Request
        }
    }

    /// The number that the operation field carries.
    pub open spec fn number(self) -> u16 {
        match self {
            ArpOperation::Request => 1,
            ArpOperation::Reply => 2,
        }
    }

    pub fn from_u16(value: u16) -> (r: ArpOperation)
        ensures
            r == ArpOperation::of(value as nat),
    {
        if value == 2 {
            ArpOperation::Reply
        } else {
            ArpOperation::Request
        }
    }

    pub fn to_u16(self) -> (r: u16)
        ensures
            r == self.number(),
    {
        match self {
            ArpOperation::Request => 1,
            ArpOperation::Reply => 2,
        }
    }
}

impl From<u16> for ArpOperation {
    fn from(value: u16) -> (r: Self) {
        ArpOperation::from_u16(value)
    }
}

impl vstd::std_specs::convert::FromSpecImpl<u16> for ArpOperation {
    open spec fn obeys_from_spec() -> bool {
        true
    }

    open spec fn from_spec(v: u16) -> Self {
        ArpOperation::of(v as nat)
    }
}

#[derive(Debug, Clone, Copy)]
pub struct ArpPacket {
    pub hardware_type: u16,
    pub protocol_type: u16,
    pub hardware_size: u8,
    pub protocol_size: u8,
    pub operation: ArpOperation,
    pub sender_mac: MacAddress,
    pub sender_ip: IpAddress,
    pub target_mac: MacAddress,
    pub target_ip: IpAddress,
}

impl ArpPacket {
    /// The request by which `sender` asks who has `target_ip`.
    pub open spec fn request(
        sender_mac: MacAddress,
        sender_ip: IpAddress,
        target_ip: IpAddress,
        r: ArpPacket,
    ) -> bool {
        &&& r.hardware_type == ARP_HARDWARE_TYPE_ETHERNET
        &&& r.protocol_type == ARP_PROTOCOL_TYPE_IPV4
        &&& r.hardware_size == ARP_HARDWARE_SIZE
        &&& r.protocol_size == ARP_PROTOCOL_SIZE
        &&& r.operation == ArpOperation::Request
        &&& r.sender_mac == sender_mac
        &&& r.sender_ip == sender_ip
        &&& r.target_mac.0@ == seq![0u8, 0u8, 0u8, 0u8, 0u8, 0u8]
        &&& r.target_ip == target_ip
    }

    /// The 28 bytes of the packet.
    pub open spec fn wire(&self) -> Seq<u8> {
        be16_bytes(self.hardware_type) + be16_bytes(self.protocol_type) + seq![
            self.hardware_size,
            self.protocol_size,
        ] + be16_bytes(self.operation.number()) + self.sender_mac.0@ + self.sender_ip.octets@
            + self.target_mac.0@ + self.target_ip.octets@
    }

    /// Whether `self` is what the bytes `data` say.
    pub open spec fn decodes(&self, data: Seq<u8>) -> bool {
        &&& data.len() >= ARP_PACKET_LEN
        &&& self.hardware_type == be16(data[0], data[1])
        &&& self.protocol_type == be16(data[2], data[3])
        &&& self.hardware_size == data[4]
        &&& self.protocol_size == data[5]
        &&& self.operation == ArpOperation::of(be16(data[6], data[7]))
        &&& self.sender_mac.0@ == data.subrange(8, 14)
        &&& self.sender_ip.octets@ == data.subrange(14, 18)
        &&& self.target_mac.0@ == data.subrange(18, 24)
        &&& self.target_ip.octets@ == data.subrange(24, 28)
    }

    pub fn new_request(sender_mac: MacAddress, sender_ip: IpAddress, target_ip: IpAddress) -> (r:
        Self)
        ensures
            Self::request(sender_mac, sender_ip, target_ip, r),
    {
        ArpPacket {
            hardware_type: ARP_HARDWARE_TYPE_ETHERNET,
            protocol_type: ARP_PROTOCOL_TYPE_IPV4,
            hardware_size: ARP_HARDWARE_SIZE,
            protocol_size: ARP_PROTOCOL_SIZE,
            operation: ArpOperation::Request,
            sender_mac,
            sender_ip,
            target_mac: MacAddress::new([0, 0, 0, 0, 0, 0]),
            target_ip,
        }
    }

    pub fn new_reply(
        sender_mac: MacAddress,
        sender_ip: IpAddress,
        target_mac: MacAddress,
        target_ip: IpAddress,
    ) -> (r: Self)
        ensures
            r == (ArpPacket {
                hardware_type: ARP_HARDWARE_TYPE_ETHERNET,
                protocol_type: ARP_PROTOCOL_TYPE_IPV4,
                hardware_size: ARP_HARDWARE_SIZE,
                protocol_size: ARP_PROTOCOL_SIZE,
                operation: ArpOperation::Reply,
                sender_mac,
                sender_ip,
                target_mac,
                target_ip,
            }),
    {
        ArpPacket {
            hardware_type: ARP_HARDWARE_TYPE_ETHERNET,
            protocol_type: ARP_PROTOCOL_TYPE_IPV4,
            hardware_size: ARP_HARDWARE_SIZE,
            protocol_size: ARP_PROTOCOL_SIZE,
            operation: ArpOperation::Reply,
            sender_mac,
            sender_ip,
            target_mac,
            target_ip,
        }
    }

    /// Reads a packet; a buffer shorter than 28 bytes gives `None`.
    pub fn parse(data: &[u8]) -> (r: Option<Self>)
        ensures
            r is None <==> data@.len() < ARP_PACKET_LEN,
            r matches Some(p) ==> p.decodes(data@),
    {
        if data.len() < ARP_PACKET_LEN {
            return None;
        }
        Some(
            ArpPacket {
                hardware_type: u16_from_be(data[0], data[1]),
                protocol_type: u16_from_be(data[2], data[3]),
                hardware_size: data[4],
                protocol_size: data[5],
                operation: ArpOperation::from_u16(u16_from_be(data[6], data[7])),
                sender_mac: MacAddress::new(read6(data, 8)),
                sender_ip: IpAddress::new(read4(data, 14)),
                target_mac: MacAddress::new(read6(data, 18)),
                target_ip: IpAddress::new(read4(data, 24)),
            },
        )
    }

    pub fn to_bytes(&self) -> (r: Vec<u8>)
        ensures
            r@ == self.wire(),
            r@.len() == ARP_PACKET_LEN,
    {
        let mut bytes: Vec<u8> = Vec::with_capacity(ARP_PACKET_LEN);
        push_u16(&mut bytes, self.hardware_type);
        push_u16(&mut bytes, self.protocol_type);
        bytes.push(self.hardware_size);
        bytes.push(self.protocol_size);
        push_u16(&mut bytes, self.operation.to_u16());
        push_all(&mut bytes, self.sender_mac.as_bytes());
        push_all(&mut bytes, self.sender_ip.as_bytes());
        push_all(&mut bytes, self.target_mac.as_bytes());
        push_all(&mut bytes, self.target_ip.as_bytes());
        assert(bytes@ =~= self.wire());
        bytes
    }
}

/// What the cache knows of one IP address.
#[derive(Debug, Clone, Copy)]
pub struct ArpCacheEntry {
    pub mac_address: MacAddress,
    /// The second at which the entry was last refreshed.
    pub timestamp: u64,
}

/// The seconds that have passed since `timestamp`; none if the clock reads earlier.
pub open spec fn age(timestamp: u64, now: u64) -> nat {
    if now >= timestamp {
        (now - timestamp) as nat
    } else {
        0
    }
}

/// Whether an entry refreshed at `timestamp` still counts at `now`.
pub open spec fn fresh(timestamp: u64, now: u64) -> bool {
    age(timestamp, now) < ARP_CACHE_TIMEOUT
}

/// What a lookup of `ip` at `now` finds in `entries`: the hardware address of
/// an entry younger than the timeout.
pub open spec fn resolved(entries: Map<u32, ArpCacheEntry>, ip: IpAddress, now: u64) -> Option<
    MacAddress,
> {
    let key = ip.key();
    if entries.contains_key(key) && fresh(entries[key].timestamp, now) {
        Some(entries[key].mac_address)
    } else {
        None
    }
}

/// The cache of resolved addresses, keyed by the IP address as a number.
pub struct ArpCache {
    entries: BTreeMap<u32, ArpCacheEntry>,
}

impl View for ArpCache {
    type V = Map<u32, ArpCacheEntry>;

    closed spec fn view(&self) -> Map<u32, ArpCacheEntry> {
        self.entries@
    }
}

impl ArpCache {
    pub fn new() -> (r: Self)
        ensures
            r@ == Map::<u32, ArpCacheEntry>::empty(),
    {
        ArpCache { entries: BTreeMap::new() }
    }

    /// Records that `ip` is at `mac`, as of `now`.
    pub fn insert(&mut self, ip: IpAddress, mac: MacAddress, now: u64)
        ensures
            final(self)@ == old(self)@.insert(
                ip.key(),
                ArpCacheEntry { mac_address: mac, timestamp: now },
            ),
    {
        let _ = self.entries.insert(ip.to_u32(), ArpCacheEntry { mac_address: mac, timestamp: now });
    }

    /// Looks `ip` up at the second `now`. An entry younger than the timeout
    /// gives its hardware address; an older one is dropped from the cache.
    pub fn lookup(&mut self, ip: IpAddress, now: u64) -> (r: Option<MacAddress>)
        ensures
            r == resolved(old(self)@, ip, now),
            final(self)@ == (if r is Some {
                old(self)@
            } else {
                old(self)@.remove(ip.key())
            }),
    {
        let key = ip.to_u32();
        let found: Option<ArpCacheEntry> = match self.entries.get(&key) {
            Some(entry) => Some(*entry),
            None => None,
        };
        match found {
            Some(entry) => {
                let elapsed: u64 = if now >= entry.timestamp {
                    now - entry.timestamp
                } else {
                    0
                };
                if elapsed < ARP_CACHE_TIMEOUT {
                    return Some(entry.mac_address);
                }
                let _ = self.entries.remove(&key);
                None
            },
            None => {
                assert(old(self)@.remove(key) =~= old(self)@);
                None
            },
        }
    }
}

/// The answer of `get_mac_address`.
#[derive(Debug)]
pub enum Resolution {
    /// The cache holds the address.
    Resolved(MacAddress),
    /// The address is not yet known; `request` is the broadcast frame that asks for it.
    Pending { request: Vec<u8> },
}

/// The broadcast frame by which `interface` asks who has `ip`.
pub open spec fn request_frame(interface: &NetworkInterface, ip: IpAddress, frame: Seq<u8>) -> bool {
    exists|p: ArpPacket, broadcast: MacAddress|
        ArpPacket::request(interface.mac_address, interface.ip_address, ip, p) && broadcast.0@
            == seq![0xFFu8, 0xFFu8, 0xFFu8, 0xFFu8, 0xFFu8, 0xFFu8] && frame == frame_wire(
            broadcast,
            interface.mac_address,
            EtherType::Arp,
            p.wire(),
        )
}

/// The frame that answers `packet`, a request for the address of `interface`.
pub open spec fn reply_frame(interface: &NetworkInterface, packet: &ArpPacket) -> Seq<u8> {
    frame_wire(
        packet.sender_mac,
        interface.mac_address,
        EtherType::Arp,
        (ArpPacket {
            hardware_type: ARP_HARDWARE_TYPE_ETHERNET,
            protocol_type: ARP_PROTOCOL_TYPE_IPV4,
            hardware_size: ARP_HARDWARE_SIZE,
            protocol_size: ARP_PROTOCOL_SIZE,
            operation: ArpOperation::Reply,
            sender_mac: interface.mac_address,
            sender_ip: interface.ip_address,
            target_mac: packet.sender_mac,
            target_ip: packet.sender_ip,
        }).wire(),
    )
}

/// What handling the received packet `packet` at second `now` does: a
/// request for the address of `interface` is answered by `reply`, a frame
/// for the asker, and the cache stays; a reply puts its sender into the cache.
pub open spec fn handled(
    packet: ArpPacket,
    interface: &NetworkInterface,
    before: Map<u32, ArpCacheEntry>,
    after: Map<u32, ArpCacheEntry>,
    now: u64,
    reply: Option<Vec<u8>>,
) -> bool {
    match packet.operation {
        ArpOperation::Request => {
            &&& after == before
            &&& reply is Some <==> packet.target_ip == interface.ip_address
            &&& reply matches Some(frame) ==> frame@ == reply_frame(interface, &packet)
        },
        ArpOperation::Reply => {
            &&& reply is None
            &&& after == before.insert(
                packet.sender_ip.key(),
                ArpCacheEntry { mac_address: packet.sender_mac, timestamp: now },
            )
        },
    }
}

/// Handles a received ARP packet: a request for this host's address is
/// answered with the frame returned, a reply refreshes the cache.
pub fn handle_arp_packet(
    cache: &mut ArpCache,
    interface: &NetworkInterface,
    packet: ArpPacket,
    now: u64,
) -> (r: Option<Vec<u8>>)
    ensures
        handled(packet, interface, old(cache)@, final(cache)@, now, r),
        packet.operation == ArpOperation::Request ==> final(cache)@ == old(cache)@ && (r is Some
            <==> packet.target_ip == interface.ip_address) && (r matches Some(frame) ==> frame@
            == reply_frame(interface, &packet)),
        packet.operation == ArpOperation::Reply ==> r is None
            && final(cache)@ == old(cache)@.insert(
            packet.sender_ip.key(),
            ArpCacheEntry { mac_address: packet.sender_mac, timestamp: now },
        ),
{
    match packet.operation {
        ArpOperation::Request => handle_arp_request(interface, &packet),
        ArpOperation::Reply => {
            handle_arp_reply(cache, &packet, now);
            None
        },
    }
}

/// Answers a request: if it asks for the address of `interface`, the reply
/// frame addressed to the asker; otherwise nothing.
pub fn handle_arp_request(interface: &NetworkInterface, packet: &ArpPacket) -> (r: Option<Vec<u8>>)
    ensures
        r is Some <==> packet.target_ip == interface.ip_address,
        r matches Some(frame) ==> frame@ == reply_frame(interface, packet),
{
    proof {
        lemma_ip_eq(packet.target_ip, interface.ip_address);
    }
    if packet.target_ip == interface.ip_address() {
        let reply = ArpPacket::new_reply(
            interface.mac_address(),
            interface.ip_address(),
            packet.sender_mac,
            packet.sender_ip,
        );
        let frame = EthernetFrame::new(
            packet.sender_mac,
            interface.mac_address(),
            EtherType::Arp,
            reply.to_bytes(),
        );
        Some(frame.to_bytes())
    } else {
        None
    }
}

/// Records the sender of a reply in the cache.
pub fn handle_arp_reply(cache: &mut ArpCache, packet: &ArpPacket, now: u64)
    ensures
        final(cache)@ == old(cache)@.insert(
            packet.sender_ip.key(),
            ArpCacheEntry { mac_address: packet.sender_mac, timestamp: now },
        ),
{
    cache.insert(packet.sender_ip, packet.sender_mac, now);
}

/// Resolves `ip` at the second `now`. A cache entry younger than the timeout
/// gives the address and nothing is sent. Otherwise a stale entry is dropped
/// and the caller gets the broadcast request to send; it may ask again later.
pub fn get_mac_address(
    cache: &mut ArpCache,
    interface: &NetworkInterface,
    ip: IpAddress,
    now: u64,
) -> (r: Resolution)
    ensures
        match r {
            Resolution::Resolved(mac) => resolved(old(cache)@, ip, now) == Some(mac)
                && final(cache)@ == old(cache)@,
            Resolution::Pending { request } => resolved(old(cache)@, ip, now) is None
                && final(cache)@ == old(cache)@.remove(ip.key())
                && request_frame(interface, ip, request@),
        },
{
    match cache.lookup(ip, now) {
        Some(mac) => Resolution::Resolved(mac),
        None => {
            let request = ArpPacket::new_request(
                interface.mac_address(),
                interface.ip_address(),
                ip,
            );
            let broadcast = MacAddress::broadcast();
            let frame = EthernetFrame::new(
                broadcast,
                interface.mac_address(),
                EtherType::Arp,
                request.to_bytes(),
            );
            let bytes = frame.to_bytes();
            assert(request_frame(interface, ip, bytes@));
            Resolution::Pending { request: bytes }
        },
    }
}

/// An address inserted at second `t0` is found `t` seconds later exactly if
/// `t` is less than the timeout.
pub proof fn lemma_lookup_after_insert(
    entries: Map<u32, ArpCacheEntry>,
    ip: IpAddress,
    mac: MacAddress,
    t0: u64,
    t: u64,
)
    requires
        t0 + t <= u64::MAX,
    ensures
        resolved(
            entries.insert(ip.key(), ArpCacheEntry { mac_address: mac, timestamp: t0 }),
            ip,
            (t0 + t) as u64,
        ) == (if t < ARP_CACHE_TIMEOUT {
            Some(mac)
        } else {
            None
        }),
{
}

/// Distinct addresses have distinct keys, so an entry answers for one address only.
pub proof fn lemma_key_injective(a: IpAddress, b: IpAddress)
    ensures
        a.value() == b.value() <==> a == b,
        a.value() <= u32::MAX,
{
    if a.value() == b.value() {
        assert(a.octets[0] == b.octets[0] && a.octets[1] == b.octets[1] && a.octets[2]
            == b.octets[2] && a.octets[3] == b.octets[3]);
        assert(a.eq_spec(&b));
        lemma_ip_eq(a, b);
    }
}

} // verus!
