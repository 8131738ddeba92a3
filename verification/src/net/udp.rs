//! UDP: the 8-byte header, the checksum over pseudo-header, header and
//! payload, and the table that hands received datagrams to sockets by port.

use std::collections::BTreeMap;
use vstd::prelude::*;
use crate::net::{IpAddress, NetworkError};
use crate::net::checksum::{
    be16, complement, complement16, fold16, folded_pseudo_sum, folded_sum,
    lemma_fold16_add, lemma_sum_with_checksum, lemma_word_sum_patch, pseudo_sum, u16_from_be,
    word_sum,
};
use crate::net::ip::{datagram, datagram_bytes, IpProtocol};
use crate::net::wire::{be16_bytes, copy_range, push_all, push_u16};

verus! {

pub const UDP_HEADER_LEN: usize = 8;

/// The protocol number of UDP in the IP header and the pseudo-header.
pub const UDP_PROTOCOL: u8 = 17;

pub type PortNumber = u16;

#[derive(Debug, Clone)]
pub struct UdpPacket {
    pub source_port: u16,
    pub destination_port: u16,
    pub length: u16,
    pub checksum: u16,
    pub payload: Vec<u8>,
}

/// The length field of a datagram with `payload_len` bytes of payload.
pub open spec fn length_field(payload_len: nat) -> u16 {
    ((UDP_HEADER_LEN + payload_len) % 0x1_0000) as u16
}

/// The wire form of a datagram with the given fields.
pub open spec fn udp_wire(
    source_port: u16,
    destination_port: u16,
    length: u16,
    checksum: u16,
    payload: Seq<u8>,
) -> Seq<u8> {
    be16_bytes(source_port) + be16_bytes(destination_port) + be16_bytes(length) + be16_bytes(
        checksum,
    ) + payload
}

/// The sum that the checksum of a datagram covers: the pseudo-header of
/// the two addresses, protocol 17 and the UDP length, then header and payload.
pub open spec fn covered_sum(
    source_port: u16,
    destination_port: u16,
    length: u16,
    checksum: u16,
    payload: Seq<u8>,
    source_ip: IpAddress,
    dest_ip: IpAddress,
) -> nat {
    pseudo_sum(source_ip.octets@, dest_ip.octets@, UDP_PROTOCOL as nat, length as nat) + word_sum(
        udp_wire(source_port, destination_port, length, checksum, payload),
    )
}

/// The checksum that belongs in a datagram with the given fields between the
/// given addresses: the complement of the covered sum, taken with a zeroed
/// checksum field.
pub open spec fn udp_checksum(
    source_port: u16,
    destination_port: u16,
    length: u16,
    payload: Seq<u8>,
    source_ip: IpAddress,
    dest_ip: IpAddress,
) -> u16 {
    complement16(
        covered_sum(source_port, destination_port, length, 0, payload, source_ip, dest_ip),
    ) as u16
}

/// The wire form of the datagram that this host sends: the length field
/// fits the payload and the checksum is filled in.
pub open spec fn sent_wire(
    source_port: u16,
    destination_port: u16,
    payload: Seq<u8>,
    source_ip: IpAddress,
    dest_ip: IpAddress,
) -> Seq<u8> {
    udp_wire(
        source_port,
        destination_port,
        length_field(payload.len()),
        udp_checksum(
            source_port,
            destination_port,
            length_field(payload.len()),
            payload,
            source_ip,
            dest_ip,
        ),
        payload,
    )
}

impl UdpPacket {
    /// The datagram as it goes on the wire, with the stored checksum.
    pub open spec fn wire(&self) -> Seq<u8> {
        udp_wire(
            self.source_port,
            self.destination_port,
            self.length,
            self.checksum,
            self.payload@,
        )
    }

    /// The checksum that belongs in this datagram between the given addresses.
    pub open spec fn expected_checksum(&self, source_ip: IpAddress, dest_ip: IpAddress) -> u16 {
        udp_checksum(
            self.source_port,
            self.destination_port,
            self.length,
            self.payload@,
            source_ip,
            dest_ip,
        )
    }

    /// What verification computes: the complement of the covered sum, the
    /// stored checksum included.
    pub open spec fn residue(&self, source_ip: IpAddress, dest_ip: IpAddress) -> u16 {
        complement16(
            covered_sum(
                self.source_port,
                self.destination_port,
                self.length,
                self.checksum,
                self.payload@,
                source_ip,
                dest_ip,
            ),
        ) as u16
    }

    /// Whether `data` is a whole datagram: a full header whose length field
    /// is the length of `data`.
    pub open spec fn accepts(data: Seq<u8>) -> bool {
        data.len() >= UDP_HEADER_LEN && data.len() == be16(data[4], data[5])
    }

    /// Whether `self` is what the bytes `data` say.
    pub open spec fn decodes(&self, data: Seq<u8>) -> bool {
        &&& data.len() >= UDP_HEADER_LEN
        &&& self.source_port == be16(data[0], data[1])
        &&& self.destination_port == be16(data[2], data[3])
        &&& self.length == be16(data[4], data[5])
        &&& self.checksum == be16(data[6], data[7])
        &&& self.payload@ == data.subrange(8, data.len() as int)
    }

    /// A datagram whose length field fits the payload; the checksum is not
    /// yet computed.
    pub fn new(source_port: u16, destination_port: u16, payload: Vec<u8>) -> (r: Self)
        ensures
            r.source_port == source_port,
            r.destination_port == destination_port,
            r.length == length_field(payload@.len()),
            r.checksum == 0,
            r.payload == payload,
    {
        let length: u16 = ((payload.len() % 0x1_0000 + UDP_HEADER_LEN) % 0x1_0000) as u16;
        UdpPacket { source_port, destination_port, length, checksum: 0, payload }
    }

    /// Reads a datagram. A buffer shorter than the header, or one whose
    /// length differs from the length field, gives `None`.
    pub fn parse(data: &[u8]) -> (r: Option<Self>)
        ensures
            r is Some <==> Self::accepts(data@),
            r matches Some(p) ==> p.decodes(data@),
    {
        if data.len() < UDP_HEADER_LEN {
            return None;
        }
        let source_port = u16_from_be(data[0], data[1]);
        let destination_port = u16_from_be(data[2], data[3]);
        let length = u16_from_be(data[4], data[5]);
        let checksum = u16_from_be(data[6], data[7]);
        if data.len() != length as usize {
            return None;
        }
        let payload = copy_range(data, UDP_HEADER_LEN, data.len());
        Some(UdpPacket { source_port, destination_port, length, checksum, payload })
    }

    fn bytes_with(&self, checksum: u16) -> (r: Vec<u8>)
        ensures
            r@ == udp_wire(
                self.source_port,
                self.destination_port,
                self.length,
                checksum,
                self.payload@,
            ),
    {
        let mut bytes: Vec<u8> = Vec::new();
        push_u16(&mut bytes, self.source_port);
        push_u16(&mut bytes, self.destination_port);
        push_u16(&mut bytes, self.length);
        push_u16(&mut bytes, checksum);
        push_all(&mut bytes, self.payload.as_slice());
        bytes
    }

    pub fn to_bytes(&self) -> (r: Vec<u8>)
        ensures
            r@ == self.wire(),
    {
        self.bytes_with(self.checksum)
    }

    fn complemented_sum(&self, checksum: u16, source_ip: IpAddress, dest_ip: IpAddress) -> (r: u16)
        ensures
            r == complement16(
                covered_sum(
                    self.source_port,
                    self.destination_port,
                    self.length,
                    checksum,
                    self.payload@,
                    source_ip,
                    dest_ip,
                ),
            ),
    {
        let bytes = self.bytes_with(checksum);
        let pseudo = folded_pseudo_sum(
            &source_ip.octets,
            &dest_ip.octets,
            UDP_PROTOCOL,
            self.length as usize,
        );
        proof {
            lemma_fold16_add(
                pseudo_sum(
                    source_ip.octets@,
                    dest_ip.octets@,
                    UDP_PROTOCOL as nat,
                    self.length as nat,
                ),
                word_sum(bytes@),
            );
        }
        complement(folded_sum(pseudo, bytes.as_slice()))
    }

    /// Computes the checksum over the pseudo-header of the two addresses,
    /// the header with a zeroed checksum field, and the payload, and stores it.
    pub fn calculate_checksum(&mut self, source_ip: IpAddress, dest_ip: IpAddress)
        ensures
            final(self).checksum == old(self).expected_checksum(source_ip, dest_ip),
            final(self).source_port == old(self).source_port,
            final(self).destination_port == old(self).destination_port,
            final(self).length == old(self).length,
            final(self).payload == old(self).payload,
    {
        self.checksum = self.complemented_sum(0, source_ip, dest_ip);
    }

    /// Whether the datagram verifies between the two addresses: the sum
    /// over pseudo-header, header and payload, the stored checksum
    /// included, folds to 0xFFFF, so that its complement is zero.
    pub fn verify_checksum(&self, source_ip: IpAddress, dest_ip: IpAddress) -> (r: bool)
        ensures
            r == (self.residue(source_ip, dest_ip) == 0),
            r == (fold16(
                covered_sum(
                    self.source_port,
                    self.destination_port,
                    self.length,
                    self.checksum,
                    self.payload@,
                    source_ip,
                    dest_ip,
                ),
            ) == 0xFFFF),
    {
        self.complemented_sum(self.checksum, source_ip, dest_ip) == 0
    }

    /// What verification computes over the datagram as received: zero for
    /// a datagram whose checksum fits.
    pub fn checksum_residue(&self, source_ip: IpAddress, dest_ip: IpAddress) -> (r: u16)
        ensures
            r == self.residue(source_ip, dest_ip),
    {
        self.complemented_sum(self.checksum, source_ip, dest_ip)
    }

    /// Whether a receiver takes the datagram: a zero checksum means that the
    /// sender computed none; with any other the datagram must verify.
    pub fn acceptable(&self, source_ip: IpAddress, dest_ip: IpAddress) -> (r: bool)
        ensures
            r == (self.checksum == 0 || self.residue(source_ip, dest_ip) == 0),
    {
        self.checksum == 0 || self.verify_checksum(source_ip, dest_ip)
    }
}

/// Whether a receiver between the given addresses takes the datagram
/// `data`: its checksum field is zero, or the sum over pseudo-header,
/// header and payload as received folds to 0xFFFF.
pub open spec fn datagram_acceptable(data: Seq<u8>, source_ip: IpAddress, dest_ip: IpAddress)
    -> bool {
    be16(data[6], data[7]) == 0 || fold16(
        covered_sum(
            be16(data[0], data[1]) as u16,
            be16(data[2], data[3]) as u16,
            be16(data[4], data[5]) as u16,
            be16(data[6], data[7]) as u16,
            data.subrange(8, data.len() as int),
            source_ip,
            dest_ip,
        ),
    ) == 0xFFFF
}

/// The destination port that the datagram `data` names.
pub open spec fn destination_port_of(data: Seq<u8>) -> u16 {
    be16(data[2], data[3]) as u16
}

/// Verification gives zero exactly if the sum over pseudo-header, header
/// and payload folds to 0xFFFF.
pub proof fn lemma_residue_zero(p: UdpPacket, source_ip: IpAddress, dest_ip: IpAddress)
    ensures
        p.residue(source_ip, dest_ip) == 0 <==> fold16(
            covered_sum(
                p.source_port,
                p.destination_port,
                p.length,
                p.checksum,
                p.payload@,
                source_ip,
                dest_ip,
            ),
        ) == 0xFFFF,
{
}

/// The test on the received bytes is the test on the datagram that they
/// decode to.
pub proof fn lemma_acceptable_as_received(
    p: UdpPacket,
    data: Seq<u8>,
    source_ip: IpAddress,
    dest_ip: IpAddress,
)
    requires
        p.decodes(data),
    ensures
        datagram_acceptable(data, source_ip, dest_ip) == (p.checksum == 0 || p.residue(
            source_ip,
            dest_ip,
        ) == 0),
{
}

/// A datagram that carries the checksum that belongs in it verifies to zero.
pub proof fn lemma_checksum_verifies(p: UdpPacket, source_ip: IpAddress, dest_ip: IpAddress)
    requires
        p.checksum == p.expected_checksum(source_ip, dest_ip),
    ensures
        p.residue(source_ip, dest_ip) == 0,
{
    let z = udp_wire(p.source_port, p.destination_port, p.length, 0, p.payload@);
    let w = p.wire();
    let pseudo = pseudo_sum(
        source_ip.octets@,
        dest_ip.octets@,
        UDP_PROTOCOL as nat,
        p.length as nat,
    );
    let s = pseudo + word_sum(z);
    lemma_word_sum_patch(z, w, 3, complement16(s));
    lemma_sum_with_checksum(s);
}

/// The table that hands received datagrams to sockets: for each bound port
/// the socket that takes its datagrams.
pub struct UdpDemux {
    ports: BTreeMap<u16, u32>,
}

impl View for UdpDemux {
    type V = Map<u16, u32>;

    closed spec fn view(&self) -> Map<u16, u32> {
        self.ports@
    }
}

/// A received datagram on its way to a socket.
#[derive(Debug)]
pub struct Delivery {
    pub socket: u32,
    pub payload: Vec<u8>,
    pub source_ip: IpAddress,
    pub source_port: u16,
}

impl UdpDemux {
    pub fn new() -> (r: Self)
        ensures
            r@ == Map::<u16, u32>::empty(),
    {
        UdpDemux { ports: BTreeMap::new() }
    }

    /// The socket that `port` is bound to.
    pub fn lookup(&self, port: PortNumber) -> (r: Option<u32>)
        ensures
            r == (if self@.contains_key(port) {
                Some(self@[port])
            } else {
                None
            }),
    {
        match self.ports.get(&port) {
            Some(socket) => Some(*socket),
            None => None,
        }
    }

    fn insert(&mut self, port: PortNumber, socket: u32)
        ensures
            final(self)@ == old(self)@.insert(port, socket),
    {
        let _ = self.ports.insert(port, socket);
    }

    fn remove(&mut self, port: PortNumber)
        ensures
            final(self)@ == old(self)@.remove(port),
    {
        let _ = self.ports.remove(&port);
    }
}

/// Binds `port` to `socket`. A port that is bound already stays with its
/// socket, and the call fails with `AddressInUse`.
pub fn bind(demux: &mut UdpDemux, port: PortNumber, socket: u32) -> (r: Result<(), NetworkError>)
    ensures
        old(demux)@.contains_key(port) ==> r == Err::<(), NetworkError>(NetworkError::AddressInUse)
            && final(demux)@ == old(demux)@,
        !old(demux)@.contains_key(port) ==> r is Ok && final(demux)@ == old(demux)@.insert(
            port,
            socket,
        ),
{
    if demux.lookup(port).is_some() {
        return Err(NetworkError::AddressInUse);
    }
    demux.insert(port, socket);
    Ok(())
}

/// Frees `port`.
pub fn unbind(demux: &mut UdpDemux, port: PortNumber)
    ensures
        final(demux)@ == old(demux)@.remove(port),
{
    demux.remove(port);
}

/// Hands a received datagram to the socket bound to its destination port;
/// with no socket there it is dropped.
pub fn handle_udp_packet(demux: &UdpDemux, packet: UdpPacket, source_ip: IpAddress) -> (r: Option<
    Delivery,
>)
    ensures
        r is Some <==> demux@.contains_key(packet.destination_port),
        r matches Some(d) ==> d.socket == demux@[packet.destination_port] && d.payload
            == packet.payload && d.source_ip == source_ip && d.source_port == packet.source_port,
{
    match demux.lookup(packet.destination_port) {
        Some(socket) => Some(
            Delivery { socket, payload: packet.payload, source_ip, source_port: packet.source_port },
        ),
        None => None,
    }
}

/// The IP packet that carries `data` from `source_port` at `source_ip` to
/// `destination_port` at `destination_ip`, checksums filled in.
pub fn send(
    source_ip: IpAddress,
    source_port: PortNumber,
    destination_ip: IpAddress,
    destination_port: PortNumber,
    data: &[u8],
) -> (r: Vec<u8>)
    ensures
        r@ == datagram(
            source_ip,
            destination_ip,
            IpProtocol::Udp,
            sent_wire(source_port, destination_port, data@, source_ip, destination_ip),
        ),
{
    let mut packet = UdpPacket::new(
        source_port,
        destination_port,
        copy_range(data, 0, data.len()),
    );
    assert(data@.subrange(0, data@.len() as int) == data@);
    packet.calculate_checksum(source_ip, destination_ip);
    datagram_bytes(source_ip, destination_ip, IpProtocol::Udp, packet.to_bytes())
}

} // verus!
