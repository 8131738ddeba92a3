//! IPv4 packets: the 20-byte header without options, and its checksum.

use vstd::prelude::*;
use crate::net::IpAddress;
use crate::net::checksum::{
    be16, checksum_spec, complement16, internet_checksum, lemma_sum_with_checksum, u16_from_be,
    word_at, word_sum, word_sum_upto,
};
use crate::net::wire::{be16_bytes, copy_range, push_all, push_u16, read4};

verus! {

pub const IP_VERSION_4: u8 = 4;

/// Length of the header without options.
pub const IP_HEADER_LEN: usize = 20;

/// Time to live of a packet that this host originates.
pub const DEFAULT_TTL: u8 = 64;

#[derive(Debug, Clone, Copy, PartialEq, Eq, Structural)]
pub enum IpProtocol {
    Icmp,
    Tcp,
    Udp,
    Unknown,
}

impl IpProtocol {
    /// The protocol that the number `value` names.
    pub open spec fn of(value: u8) -> IpProtocol {
        if value == 1 {
            IpProtocol::Icmp
        } else if value == 6 {
            IpProtocol::Tcp
        } else if value == 17 {
            IpProtocol::Udp
        } else {
            IpProtocol::Unknown
        }
    }

    /// The number that the protocol field carries.
    pub open spec fn number(self) -> u8 {
        match self {
            IpProtocol::Icmp => 1,
            IpProtocol::Tcp => 6,
            IpProtocol::Udp => 17,
            IpProtocol::Unknown => 255,
        }
    }

    pub fn from_u8(value: u8) -> (r: IpProtocol)
        ensures
            r == IpProtocol::of(value),
    {
        if value == 1 {
            IpProtocol::Icmp
        } else if value == 6 {
            IpProtocol::Tcp
        } else if value == 17 {
            IpProtocol::Udp
        } else {
            IpProtocol::Unknown
        }
    }

    pub fn to_u8(self) -> (r: u8)
        ensures
            r == self.number(),
    {
        match self {
            IpProtocol::Icmp => 1,
            IpProtocol::Tcp => 6,
            IpProtocol::Udp => 17,
            IpProtocol::Unknown => 255,
        }
    }
}

impl From<u8> for IpProtocol {
    fn from(value: u8) -> (r: Self) {
        IpProtocol::from_u8(value)
    }
}

impl vstd::std_specs::convert::FromSpecImpl<u8> for IpProtocol {
    open spec fn obeys_from_spec() -> bool {
        true
    }

    open spec fn from_spec(v: u8) -> Self {
        IpProtocol::of(v)
    }
}

#[derive(Debug)]
pub struct IpPacket {
    pub version: u8,
    pub header_length: u8,
    pub dscp: u8,
    pub ecn: u8,
    pub total_length: u16,
    pub identification: u16,
    pub flags: u8,
    pub fragment_offset: u16,
    pub ttl: u8,
    pub protocol: IpProtocol,
    pub checksum: u16,
    pub source: IpAddress,
    pub destination: IpAddress,
    pub payload: Vec<u8>,
}

/// The first header byte: version in the high nibble, header length in the low.
pub open spec fn version_ihl_byte(version: u8, header_length: u8) -> u8 {
    (version << 4) | header_length
}

/// The second header byte: DSCP in the high six bits, ECN in the low two.
pub open spec fn dscp_ecn_byte(dscp: u8, ecn: u8) -> u8 {
    (dscp << 2) | ecn
}

/// The 16-bit field of three flag bits and thirteen bits of fragment offset.
pub open spec fn flags_offset_word(flags: u8, fragment_offset: u16) -> u16 {
    ((flags as u16) << 13) | (fragment_offset & 0x1FFF)
}

/// The 20 bytes of a header with the given fields.
pub open spec fn header_seq(
    version: u8,
    header_length: u8,
    dscp: u8,
    ecn: u8,
    total_length: u16,
    identification: u16,
    flags: u8,
    fragment_offset: u16,
    ttl: u8,
    protocol: IpProtocol,
    checksum: u16,
    source: IpAddress,
    destination: IpAddress,
) -> Seq<u8> {
    seq![version_ihl_byte(version, header_length), dscp_ecn_byte(dscp, ecn)] + be16_bytes(
        total_length,
    ) + be16_bytes(identification) + be16_bytes(flags_offset_word(flags, fragment_offset)) + seq![
        ttl,
        protocol.number(),
    ] + be16_bytes(checksum) + source.octets@ + destination.octets@
}

/// The header that a packet of this host carries for a payload of `len`
/// bytes, with `checksum` in the checksum field.
pub open spec fn fresh_header(
    source: IpAddress,
    destination: IpAddress,
    protocol: IpProtocol,
    len: nat,
    checksum: u16,
) -> Seq<u8> {
    header_seq(
        IP_VERSION_4,
        5,
        0,
        0,
        ((IP_HEADER_LEN + len) % 0x1_0000) as u16,
        0,
        0,
        0,
        DEFAULT_TTL,
        protocol,
        checksum,
        source,
        destination,
    )
}

/// The wire form of the packet by which this host sends `payload`: a fresh
/// header with its checksum, then the payload.
pub open spec fn datagram(
    source: IpAddress,
    destination: IpAddress,
    protocol: IpProtocol,
    payload: Seq<u8>,
) -> Seq<u8> {
    fresh_header(
        source,
        destination,
        protocol,
        payload.len(),
        checksum_spec(fresh_header(source, destination, protocol, payload.len(), 0)) as u16,
    ) + payload
}

/// Wraps `payload` in a packet of this host and writes it.
pub fn datagram_bytes(
    source: IpAddress,
    destination: IpAddress,
    protocol: IpProtocol,
    payload: Vec<u8>,
) -> (r: Vec<u8>)
    ensures
        r@ == datagram(source, destination, protocol, payload@),
{
    let mut packet = IpPacket::new(source, destination, protocol, payload);
    packet.to_bytes()
}

impl IpPacket {
    /// Every field fits the bits that the header gives it, and the version is 4.
    pub open spec fn wf(&self) -> bool {
        &&& self.version == IP_VERSION_4
        &&& self.header_length < 16
        &&& self.dscp < 64
        &&& self.ecn < 4
        &&& self.flags < 8
        &&& self.fragment_offset < 0x2000
    }

    /// The 20 header bytes with `checksum` in the checksum field.
    pub open spec fn header_bytes(&self, checksum: u16) -> Seq<u8> {
        header_seq(
            self.version,
            self.header_length,
            self.dscp,
            self.ecn,
            self.total_length,
            self.identification,
            self.flags,
            self.fragment_offset,
            self.ttl,
            self.protocol,
            checksum,
            self.source,
            self.destination,
        )
    }

    /// The checksum that belongs in the header: that of the header with a
    /// zeroed checksum field.
    pub open spec fn header_checksum(&self) -> u16 {
        checksum_spec(self.header_bytes(0)) as u16
    }

    /// The packet as it goes on the wire: the header with the stored
    /// checksum, then the payload.
    pub open spec fn wire(&self) -> Seq<u8> {
        self.header_bytes(self.checksum) + self.payload@
    }

    /// Whether `self` is what the bytes `data` say.
    pub open spec fn decodes(&self, data: Seq<u8>) -> bool {
        &&& data.len() >= IP_HEADER_LEN
        &&& self.version == (data[0] >> 4) & 0xF
        &&& self.header_length == data[0] & 0xF
        &&& self.dscp == (data[1] >> 2) & 0x3F
        &&& self.ecn == data[1] & 0x3
        &&& self.total_length == be16(data[2], data[3])
        &&& self.identification == be16(data[4], data[5])
        &&& self.flags == (data[6] >> 5) & 0x7
        &&& self.fragment_offset == be16(data[6] & 0x1F, data[7])
        &&& self.ttl == data[8]
        &&& self.protocol == IpProtocol::of(data[9])
        &&& self.checksum == be16(data[10], data[11])
        &&& self.source.octets@ == data.subrange(12, 16)
        &&& self.destination.octets@ == data.subrange(16, 20)
        &&& self.payload@ == data.subrange(20, data.len() as int)
    }

    /// Whether `data` is long enough for a header and says version 4.
    pub open spec fn accepts(data: Seq<u8>) -> bool {
        data.len() >= IP_HEADER_LEN && (data[0] >> 4) & 0xF == IP_VERSION_4
    }

    /// Whether the two packets have the same fields and the same payload.
    pub open spec fn same(&self, other: &IpPacket) -> bool {
        &&& self.version == other.version
        &&& self.header_length == other.header_length
        &&& self.dscp == other.dscp
        &&& self.ecn == other.ecn
        &&& self.total_length == other.total_length
        &&& self.identification == other.identification
        &&& self.flags == other.flags
        &&& self.fragment_offset == other.fragment_offset
        &&& self.ttl == other.ttl
        &&& self.protocol == other.protocol
        &&& self.checksum == other.checksum
        &&& self.source == other.source
        &&& self.destination == other.destination
        &&& self.payload@ == other.payload@
    }

    /// A packet of this host: version 4, a five-word header, TTL 64, nothing
    /// fragmented, the checksum not yet computed.
    pub fn new(
        source: IpAddress,
        destination: IpAddress,
        protocol: IpProtocol,
        payload: Vec<u8>,
    ) -> (r: Self)
        ensures
            r.wf(),
            r.version == IP_VERSION_4,
            r.header_length == 5,
            r.dscp == 0,
            r.ecn == 0,
            r.total_length == (IP_HEADER_LEN + payload@.len()) % 0x1_0000,
            r.identification == 0,
            r.flags == 0,
            r.fragment_offset == 0,
            r.ttl == DEFAULT_TTL,
            r.protocol == protocol,
            r.checksum == 0,
            r.source == source,
            r.destination == destination,
            r.payload == payload,
    {
        let total_length: u16 = ((payload.len() % 0x1_0000 + IP_HEADER_LEN) % 0x1_0000) as u16;
        IpPacket {
            version: IP_VERSION_4,
            header_length: 5,
            dscp: 0,
            ecn: 0,
            total_length,
            identification: 0,
            flags: 0,
            fragment_offset: 0,
            ttl: DEFAULT_TTL,
            protocol,
            checksum: 0,
            source,
            destination,
            payload,
        }
    }

    /// Reads a packet. A buffer shorter than the header, or one that does not
    /// say version 4, gives `None`. Options are not parsed: the payload is
    /// what follows the first 20 bytes.
    pub fn parse(data: &[u8]) -> (r: Option<Self>)
        ensures
            r is Some <==> Self::accepts(data@),
            r matches Some(p) ==> p.decodes(data@) && p.version == IP_VERSION_4,
    {
        if data.len() < IP_HEADER_LEN {
            return None;
        }
        let version: u8 = (data[0] >> 4) & 0xF;
        if version != IP_VERSION_4 {
            return None;
        }
        let header_length: u8 = data[0] & 0xF;
        let dscp: u8 = (data[1] >> 2) & 0x3F;
        let ecn: u8 = data[1] & 0x3;
        let total_length = u16_from_be(data[2], data[3]);
        let identification = u16_from_be(data[4], data[5]);
        let flags: u8 = (data[6] >> 5) & 0x7;
        let fragment_offset = u16_from_be(data[6] & 0x1F, data[7]);
        let ttl = data[8];
        let protocol = IpProtocol::from_u8(data[9]);
        let checksum = u16_from_be(data[10], data[11]);
        let source = IpAddress::new(read4(data, 12));
        let destination = IpAddress::new(read4(data, 16));
        let payload = copy_range(data, IP_HEADER_LEN, data.len());
        Some(
            IpPacket {
                version,
                header_length,
                dscp,
                ecn,
                total_length,
                identification,
                flags,
                fragment_offset,
                ttl,
                protocol,
                checksum,
                source,
                destination,
                payload,
            },
        )
    }

    /// Writes the packet and stores the header checksum that it computed.
    pub fn to_bytes(&mut self) -> (r: Vec<u8>)
        ensures
            final(self).checksum == old(self).header_checksum(),
            final(self).same(&IpPacket { checksum: final(self).checksum, ..*old(self) }),
            r@ == final(self).wire(),
    {
        let mut bytes: Vec<u8> = Vec::new();
        bytes.push((self.version << 4) | self.header_length);
        bytes.push((self.dscp << 2) | self.ecn);
        push_u16(&mut bytes, self.total_length);
        push_u16(&mut bytes, self.identification);
        let flags_and_offset: u16 = ((self.flags as u16) << 13) | (self.fragment_offset & 0x1FFF);
        push_u16(&mut bytes, flags_and_offset);
        bytes.push(self.ttl);
        bytes.push(self.protocol.to_u8());
        push_u16(&mut bytes, 0);
        push_all(&mut bytes, self.source.as_bytes());
        push_all(&mut bytes, self.destination.as_bytes());
        assert(bytes@ =~= self.header_bytes(0));
        let checksum = self.calculate_checksum(bytes.as_slice());
        assert(bytes@.subrange(0, 20) =~= bytes@);
        self.checksum = checksum;
        bytes.set(10, crate::net::checksum::hi_byte(checksum));
        bytes.set(11, crate::net::checksum::lo_byte(checksum));
        assert(bytes@ =~= self.header_bytes(checksum));
        push_all(&mut bytes, self.payload.as_slice());
        bytes
    }

    /// The checksum of the first 20 bytes of `header`.
    pub fn calculate_checksum(&self, header: &[u8]) -> (r: u16)
        requires
            header@.len() >= IP_HEADER_LEN,
        ensures
            r == checksum_spec(header@.subrange(0, IP_HEADER_LEN as int)),
    {
        internet_checksum(vstd::slice::slice_subrange(header, 0, IP_HEADER_LEN))
    }

    pub fn source(&self) -> (r: IpAddress)
        ensures
            r == self.source,
    {
        self.source
    }

    pub fn destination(&self) -> (r: IpAddress)
        ensures
            r == self.destination,
    {
        self.destination
    }

    pub fn protocol(&self) -> (r: IpProtocol)
        ensures
            r == self.protocol,
    {
        self.protocol
    }

    pub fn payload(&self) -> (r: &[u8])
        ensures
            r@ == self.payload@,
    {
        self.payload.as_slice()
    }
}

/// Whether the header at the start of `data` carries a checksum that fits it:
/// the checksum over the 20 header bytes, stored checksum included, is zero.
pub open spec fn header_verifies(data: Seq<u8>) -> bool {
    data.len() >= IP_HEADER_LEN && checksum_spec(data.subrange(0, IP_HEADER_LEN as int)) == 0
}

/// Verifies the header checksum of a received packet.
pub fn verify_header(data: &[u8]) -> (r: bool)
    ensures
        r == header_verifies(data@),
{
    if data.len() < IP_HEADER_LEN {
        return false;
    }
    internet_checksum(vstd::slice::slice_subrange(data, 0, IP_HEADER_LEN)) == 0
}

/// The word sum of 20 bytes, written out.
pub proof fn lemma_word_sum_20(h: Seq<u8>)
    requires
        h.len() == 20,
    ensures
        word_sum(h) == word_at(h, 0) + word_at(h, 1) + word_at(h, 2) + word_at(h, 3) + word_at(
            h,
            4,
        ) + word_at(h, 5) + word_at(h, 6) + word_at(h, 7) + word_at(h, 8) + word_at(h, 9),
{
    reveal_with_fuel(word_sum_upto, 11);
}

/// The header that `to_bytes` writes verifies: with the computed checksum in
/// its field, the checksum over the 20 header bytes is zero.
pub proof fn lemma_encoded_header_verifies(p: IpPacket)
    requires
        p.checksum == p.header_checksum(),
    ensures
        header_verifies(p.wire()),
{
    let h0 = p.header_bytes(0);
    let h = p.header_bytes(p.checksum);
    let s = word_sum(h0);
    assert(p.wire().subrange(0, 20) =~= h);
    lemma_word_sum_20(h0);
    lemma_word_sum_20(h);
    assert(forall|i: int| 0 <= i < 20 && i != 10 && i != 11 ==> h[i] == h0[i]);
    assert(word_at(h0, 5) == 0);
    assert(p.checksum == complement16(s));
    assert(word_at(h, 5) == p.checksum);
    assert(word_sum(h) == s + complement16(s));
    lemma_sum_with_checksum(s);
}

/// A well-formed packet read back from its own wire form is the same
/// packet: every header field and the payload survive the round trip.
pub proof fn lemma_round_trip(p: IpPacket, q: IpPacket)
    requires
        p.wf(),
        q.decodes(p.wire()),
    ensures
        IpPacket::accepts(p.wire()),
        q.same(&p),
{
    let w = p.wire();
    let h = p.header_bytes(p.checksum);
    assert(h.len() == 20);
    assert(forall|i: int| 0 <= i < 20 ==> w[i] == h[i]);
    let v = p.version;
    let l = p.header_length;
    assert(v == 4 && l < 16 ==> (((v << 4) | l) >> 4) & 0xF == 4 && ((v << 4) | l) & 0xF == l)
        by (bit_vector);
    let d = p.dscp;
    let e = p.ecn;
    assert(d < 64 && e < 4 ==> (((d << 2) | e) >> 2) & 0x3F == d && ((d << 2) | e) & 0x3 == e)
        by (bit_vector);
    let f = p.flags;
    let o = p.fragment_offset;
    let x = flags_offset_word(f, o);
    let hi = (x / 256) as u8;
    let lo = (x % 256) as u8;
    assert(f < 8 && o < 0x2000 ==> {
        let x = ((f as u16) << 13) | (o & 0x1FFF);
        let hi = (x / 256) as u8;
        let lo = (x % 256) as u8;
        (hi >> 5) & 0x7 == f && ((hi & 0x1F) as u16) * 256 + (lo as u16) == o
    }) by (bit_vector);
    assert(w[6] == hi && w[7] == lo);
    assert(q.fragment_offset == o);
    assert(q.source.octets@ =~= p.source.octets@);
    assert(q.destination.octets@ =~= p.destination.octets@);
    assert(q.source.octets == p.source.octets);
    assert(q.destination.octets == p.destination.octets);
    assert(q.payload@ =~= p.payload@);
    assert(IpProtocol::of(p.protocol.number()) == p.protocol);
}

} // verus!
