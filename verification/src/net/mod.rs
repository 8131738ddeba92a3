//! Network core: addresses, the interface and the protocol modules.

use vstd::prelude::*;
use vstd::std_specs::cmp::PartialEqSpec;

pub mod checksum;
pub mod dhcp;
pub mod dns;
pub mod driver;
pub mod arp;
pub mod ethernet;
pub mod icmp;
pub mod ip;
pub mod rx;
pub mod socket;
pub mod tcp;
pub mod tx;
pub mod udp;
pub mod utils;
pub mod text;
pub mod wire;

verus! {

/// A 48-bit Ethernet hardware address.
#[derive(Debug, Clone, Copy, Eq)]
pub struct MacAddress(pub [u8; 6]);

impl MacAddress {
    pub fn new(bytes: [u8; 6]) -> (r: Self)
        ensures
            r.0 == bytes,
    {
        MacAddress(bytes)
    }

    pub fn as_bytes(&self) -> (r: &[u8])
        ensures
            r@ == self.0@,
    {
        self.0.as_slice()
    }

    pub fn octets(&self) -> (r: [u8; 6])
        ensures
            r == self.0,
    {
        self.0
    }

    /// The all-ones address that every station accepts.
    pub fn broadcast() -> (r: Self)
        ensures
            r.0@ == seq![0xFFu8, 0xFFu8, 0xFFu8, 0xFFu8, 0xFFu8, 0xFFu8],
    {
        MacAddress([0xFF, 0xFF, 0xFF, 0xFF, 0xFF, 0xFF])
    }
}

impl PartialEq for MacAddress {
    fn eq(&self, other: &Self) -> (r: bool) {
        self.0[0] == other.0[0] && self.0[1] == other.0[1] && self.0[2] == other.0[2]
            && self.0[3] == other.0[3] && self.0[4] == other.0[4] && self.0[5] == other.0[5]
    }
}

impl vstd::std_specs::cmp::PartialEqSpecImpl for MacAddress {
    open spec fn obeys_eq_spec() -> bool {
        true
    }

    open spec fn eq_spec(&self, other: &Self) -> bool {
        self.0[0] == other.0[0] && self.0[1] == other.0[1] && self.0[2] == other.0[2]
            && self.0[3] == other.0[3] && self.0[4] == other.0[4] && self.0[5] == other.0[5]
    }
}

/// An IPv4 address, most significant octet first.
#[derive(Debug, Clone, Copy, Eq)]
pub struct IpAddress {
    pub octets: [u8; 4],
}

impl IpAddress {
    pub fn new(bytes: [u8; 4]) -> (r: Self)
        ensures
            r.octets == bytes,
    {
        IpAddress { octets: bytes }
    }

    pub fn as_bytes(&self) -> (r: &[u8])
        ensures
            r@ == self.octets@,
    {
        self.octets.as_slice()
    }

    /// The address as one big-endian number.
    pub open spec fn value(&self) -> nat {
        (self.octets[0] as nat) * 0x100_0000 + (self.octets[1] as nat) * 0x1_0000
            + (self.octets[2] as nat) * 0x100 + (self.octets[3] as nat)
    }

    /// The key under which tables hold the address: its value as a `u32`.
    pub open spec fn key(&self) -> u32 {
        self.value() as u32
    }

    /// The address as one big-endian number, the key under which tables hold it.
    pub fn to_u32(&self) -> (r: u32)
        ensures
            r == self.value(),
            r == self.key(),
    {
        (self.octets[0] as u32) * 0x100_0000 + (self.octets[1] as u32) * 0x1_0000
            + (self.octets[2] as u32) * 0x100 + (self.octets[3] as u32)
    }

    /// The network part of the address under `netmask`: the octets and-ed pairwise.
    pub fn get_network_address(&self, netmask: &IpAddress) -> (r: IpAddress)
        ensures
            forall|i: int| 0 <= i < 4 ==> r.octets[i] == self.octets[i] & netmask.octets[i],
    {
        IpAddress {
            octets: [
                self.octets[0] & netmask.octets[0],
                self.octets[1] & netmask.octets[1],
                self.octets[2] & netmask.octets[2],
                self.octets[3] & netmask.octets[3],
            ],
        }
    }
}

impl PartialEq for IpAddress {
    fn eq(&self, other: &Self) -> (r: bool) {
        self.octets[0] == other.octets[0] && self.octets[1] == other.octets[1]
            && self.octets[2] == other.octets[2] && self.octets[3] == other.octets[3]
    }
}

impl vstd::std_specs::cmp::PartialEqSpecImpl for IpAddress {
    open spec fn obeys_eq_spec() -> bool {
        true
    }

    open spec fn eq_spec(&self, other: &Self) -> bool {
        self.octets[0] == other.octets[0] && self.octets[1] == other.octets[1]
            && self.octets[2] == other.octets[2] && self.octets[3] == other.octets[3]
    }
}

/// Why a network operation did not succeed.
#[derive(Debug, Clone, Copy, PartialEq, Eq)]
pub enum NetworkError {
    BufferTooSmall,
    InvalidPacket,
    SocketError,
    AddressInUse,
    ConnectionRefused,
    NotConnected,
    Timeout,
    Other(&'static str),
}

/// The interface of this host: its addresses and its two frame buffers.
#[derive(Debug)]
pub struct NetworkInterface {
    pub mac_address: MacAddress,
    pub ip_address: IpAddress,
    pub netmask: IpAddress,
    pub gateway: IpAddress,
    pub rx_buffer: Vec<u8>,
    pub tx_buffer: Vec<u8>,
}

/// The address with the four octets of `s`.
pub open spec fn address_of(s: Seq<u8>) -> IpAddress {
    IpAddress { octets: [s[0], s[1], s[2], s[3]] }
}

pub proof fn lemma_address_of(s: Seq<u8>)
    requires
        s.len() == 4,
    ensures
        address_of(s).octets@ == s,
{
    assert(address_of(s).octets@ =~= s);
}

/// The address 0.0.0.0, which an unconfigured interface has.
pub open spec fn unspecified_octets() -> Seq<u8> {
    seq![0u8, 0u8, 0u8, 0u8]
}

impl NetworkInterface {
    /// An interface with the given hardware address, no IP configuration yet
    /// and empty buffers.
    pub fn new(mac_address: MacAddress) -> (r: Self)
        ensures
            r.mac_address == mac_address,
            r.ip_address.octets@ == unspecified_octets(),
            r.netmask.octets@ == unspecified_octets(),
            r.gateway.octets@ == unspecified_octets(),
            r.rx_buffer@.len() == 0,
            r.tx_buffer@.len() == 0,
    {
        NetworkInterface {
            mac_address,
            ip_address: IpAddress::new([0, 0, 0, 0]),
            netmask: IpAddress::new([0, 0, 0, 0]),
            gateway: IpAddress::new([0, 0, 0, 0]),
            rx_buffer: Vec::with_capacity(1500),
            tx_buffer: Vec::with_capacity(1500),
        }
    }

    pub fn mac_address(&self) -> (r: MacAddress)
        ensures
            r == self.mac_address,
    {
        self.mac_address
    }

    pub fn ip_address(&self) -> (r: IpAddress)
        ensures
            r == self.ip_address,
    {
        self.ip_address
    }

    /// Sets address, netmask and gateway; the buffers stay as they are.
    pub fn configure(&mut self, ip: IpAddress, netmask: IpAddress, gateway: IpAddress)
        ensures
            final(self).ip_address == ip,
            final(self).netmask == netmask,
            final(self).gateway == gateway,
            final(self).mac_address == old(self).mac_address,
            final(self).rx_buffer == old(self).rx_buffer,
            final(self).tx_buffer == old(self).tx_buffer,
    {
        self.ip_address = ip;
        self.netmask = netmask;
        self.gateway = gateway;
    }

    /// Sets the address alone, as a lease grants it.
    pub fn set_ip_address(&mut self, ip: IpAddress)
        ensures
            final(self).ip_address == ip,
            final(self).netmask == old(self).netmask,
            final(self).gateway == old(self).gateway,
            final(self).mac_address == old(self).mac_address,
            final(self).rx_buffer == old(self).rx_buffer,
            final(self).tx_buffer == old(self).tx_buffer,
    {
        self.ip_address = ip;
    }
}

/// Two addresses with the same octets are the same address.
pub proof fn lemma_ip_eq(a: IpAddress, b: IpAddress)
    ensures
        a.eq_spec(&b) <==> a == b,
        a.eq_spec(&b) <==> a.octets@ == b.octets@,
{
    if a.eq_spec(&b) {
        assert(a.octets@ =~= b.octets@);
        assert(a.octets == b.octets);
    }
}

/// Two hardware addresses with the same octets are the same address.
pub proof fn lemma_mac_eq(a: MacAddress, b: MacAddress)
    ensures
        a.eq_spec(&b) <==> a == b,
        a.eq_spec(&b) <==> a.0@ == b.0@,
{
    if a.eq_spec(&b) {
        assert(a.0@ =~= b.0@);
        assert(a.0 == b.0);
    }
}

} // verus!
