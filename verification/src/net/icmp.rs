//! ICMP: echo request and reply, destination unreachable, time exceeded.

use vstd::prelude::*;
use crate::net::IpAddress;
use crate::net::checksum::{
    be16, be32, checksum16, checksum_spec, complement16, hi_byte, high_half, internet_checksum,
    join_halves, joined, lemma_sum_with_checksum, lemma_word_sum_patch, lo_byte, low_half,
    lower_half, u16_from_be, u32_from_be, upper_half, word_sum,
};
use crate::net::ip::{datagram, datagram_bytes, IpProtocol};
use crate::net::wire::{be16_bytes, be32_bytes, copy_range, push_all, push_u16, push_u32};

verus! {

pub const ICMP_HEADER_LEN: usize = 8;

/// The bytes of the offending packet that a destination-unreachable message quotes.
pub const QUOTED_LEN: usize = 64;

#[derive(Debug, Clone, Copy, PartialEq, Eq, Structural)]
pub enum IcmpType {
    EchoReply,
    DestinationUnreachable,
    EchoRequest,
    TimeExceeded,
}

impl IcmpType {
    /// The type that the number `value` names; an unknown number reads as echo reply.
    pub open spec fn of(value: u8) -> IcmpType {
        if value == 3 {
            IcmpType::DestinationUnreachable
        } else if value == 8 {
            IcmpType::EchoRequest
        } else if value == 11 {
            IcmpType::TimeExceeded
        } else {
            IcmpType::EchoReply
        }
    }

    /// The number that the type field carries.
    pub open spec fn number(self) -> u8 {
        match self {
            IcmpType::EchoReply => 0,
            IcmpType::DestinationUnreachable => 3,
            IcmpType::EchoRequest => 8,
            IcmpType::TimeExceeded => 11,
        }
    }

    pub fn from_u8(value: u8) -> (r: IcmpType)
        ensures
            r == IcmpType::of(value),
    {
        if value == 3 {
            IcmpType::DestinationUnreachable
        } else if value == 8 {
            IcmpType::EchoRequest
        } else if value == 11 {
            IcmpType::TimeExceeded
        } else {
            IcmpType::EchoReply
        }
    }

    pub fn to_u8(self) -> (r: u8)
        ensures
            r == self.number(),
    {
        match self {
            IcmpType::EchoReply => 0,
            IcmpType::DestinationUnreachable => 3,
            IcmpType::EchoRequest => 8,
            IcmpType::TimeExceeded => 11,
        }
    }
}

impl From<u8> for IcmpType {
    fn from(value: u8) -> (r: Self) {
        IcmpType::from_u8(value)
    }
}

impl vstd::std_specs::convert::FromSpecImpl<u8> for IcmpType {
    open spec fn obeys_from_spec() -> bool {
        true
    }

    open spec fn from_spec(v: u8) -> Self {
        IcmpType::of(v)
    }
}

#[derive(Debug, Clone, Copy, PartialEq, Eq, Structural)]
pub enum IcmpCode {
    NetworkUnreachable,
    HostUnreachable,
    ProtocolUnreachable,
    PortUnreachable,
    FragmentationNeeded,
    SourceRouteFailed,
    TtlExceeded,
    FragmentReassemblyTimeExceeded,
    EchoCode,
}

impl IcmpCode {
    /// The code that the number `value` names; an unknown number reads as the echo code.
    pub open spec fn of(value: u8) -> IcmpCode {
        if value == 0 {
            IcmpCode::NetworkUnreachable
        } else if value == 1 {
            IcmpCode::HostUnreachable
        } else if value == 2 {
            IcmpCode::ProtocolUnreachable
        } else if value == 3 {
            IcmpCode::PortUnreachable
        } else if value == 4 {
            IcmpCode::FragmentationNeeded
        } else if value == 5 {
            IcmpCode::SourceRouteFailed
        } else if value == 11 {
            IcmpCode::TtlExceeded
        } else if value == 12 {
            IcmpCode::FragmentReassemblyTimeExceeded
        } else {
            IcmpCode::EchoCode
        }
    }

    /// The number that the code field carries.
    pub open spec fn number(self) -> u8 {
        match self {
            IcmpCode::NetworkUnreachable => 0,
            IcmpCode::HostUnreachable => 1,
            IcmpCode::ProtocolUnreachable => 2,
            IcmpCode::PortUnreachable => 3,
            IcmpCode::FragmentationNeeded => 4,
            IcmpCode::SourceRouteFailed => 5,
            IcmpCode::TtlExceeded => 11,
            IcmpCode::FragmentReassemblyTimeExceeded => 12,
            IcmpCode::EchoCode => 8,
        }
    }

    /// The code of a received message of type `icmp_type` whose code byte is
    /// `value`: the first four codes count for destination unreachable, the
    /// first two for time exceeded, and everything else is the echo code.
    pub open spec fn received(icmp_type: IcmpType, value: u8) -> IcmpCode {
        if value <= 3 && icmp_type == IcmpType::DestinationUnreachable {
            IcmpCode::of(value)
        } else if value <= 1 && icmp_type == IcmpType::TimeExceeded {
            IcmpCode::of(value)
        } else {
            IcmpCode::EchoCode
        }
    }

    pub fn from_u8(value: u8) -> (r: IcmpCode)
        ensures
            r == IcmpCode::of(value),
    {
        match value {
            0 => IcmpCode::NetworkUnreachable,
            1 => IcmpCode::HostUnreachable,
            2 => IcmpCode::ProtocolUnreachable,
            3 => IcmpCode::PortUnreachable,
            4 => IcmpCode::FragmentationNeeded,
            5 => IcmpCode::SourceRouteFailed,
            11 => IcmpCode::TtlExceeded,
            12 => IcmpCode::FragmentReassemblyTimeExceeded,
            _ => IcmpCode::EchoCode,
        }
    }

    pub fn to_u8(self) -> (r: u8)
        ensures
            r == self.number(),
    {
        match self {
            IcmpCode::NetworkUnreachable => 0,
            IcmpCode::HostUnreachable => 1,
            IcmpCode::ProtocolUnreachable => 2,
            IcmpCode::PortUnreachable => 3,
            IcmpCode::FragmentationNeeded => 4,
            IcmpCode::SourceRouteFailed => 5,
            IcmpCode::TtlExceeded => 11,
            IcmpCode::FragmentReassemblyTimeExceeded => 12,
            IcmpCode::EchoCode => 8,
        }
    }
}

impl From<u8> for IcmpCode {
    fn from(value: u8) -> (r: Self) {
        IcmpCode::from_u8(value)
    }
}

impl vstd::std_specs::convert::FromSpecImpl<u8> for IcmpCode {
    open spec fn obeys_from_spec() -> bool {
        true
    }

    open spec fn from_spec(v: u8) -> Self {
        IcmpCode::of(v)
    }
}

#[derive(Debug)]
pub struct IcmpPacket {
    pub icmp_type: IcmpType,
    pub code: IcmpCode,
    pub checksum: u16,
    /// Four header bytes whose meaning depends on the type; for echo, the
    /// identifier above the sequence number.
    pub rest_of_header: u32,
    pub payload: Vec<u8>,
}

/// The rest-of-header word of an echo message: the identifier above the
/// sequence number.
pub open spec fn echo_word(identifier: u16, sequence: u16) -> u32 {
    joined(identifier, sequence)
}

/// The wire form of an ICMP message with the given fields.
pub open spec fn message_wire(
    icmp_type: IcmpType,
    code: IcmpCode,
    checksum: u16,
    rest_of_header: u32,
    payload: Seq<u8>,
) -> Seq<u8> {
    seq![icmp_type.number(), code.number()] + be16_bytes(checksum) + be32_bytes(rest_of_header)
        + payload
}

/// The checksum that belongs in a message with the given fields: that of
/// the message with a zeroed checksum field.
pub open spec fn message_checksum(
    icmp_type: IcmpType,
    code: IcmpCode,
    rest_of_header: u32,
    payload: Seq<u8>,
) -> u16 {
    checksum16(message_wire(icmp_type, code, 0, rest_of_header, payload))
}

/// The wire form of the echo reply to a request with the given identifier,
/// sequence number and payload, checksum included.
pub open spec fn echo_reply_wire(identifier: u16, sequence: u16, payload: Seq<u8>) -> Seq<u8> {
    message_wire(
        IcmpType::EchoReply,
        IcmpCode::EchoCode,
        message_checksum(
            IcmpType::EchoReply,
            IcmpCode::EchoCode,
            echo_word(identifier, sequence),
            payload,
        ),
        echo_word(identifier, sequence),
        payload,
    )
}

/// The wire form of an echo request, checksum included.
pub open spec fn echo_request_wire(identifier: u16, sequence: u16, payload: Seq<u8>) -> Seq<u8> {
    message_wire(
        IcmpType::EchoRequest,
        IcmpCode::EchoCode,
        message_checksum(
            IcmpType::EchoRequest,
            IcmpCode::EchoCode,
            echo_word(identifier, sequence),
            payload,
        ),
        echo_word(identifier, sequence),
        payload,
    )
}

impl IcmpPacket {
    /// The message as it goes on the wire, with the stored checksum.
    pub open spec fn wire(&self) -> Seq<u8> {
        message_wire(self.icmp_type, self.code, self.checksum, self.rest_of_header, self.payload@)
    }

    /// Whether `self` is what the bytes `data` say.
    pub open spec fn decodes(&self, data: Seq<u8>) -> bool {
        &&& data.len() >= ICMP_HEADER_LEN
        &&& self.icmp_type == IcmpType::of(data[0])
        &&& self.code == IcmpCode::received(IcmpType::of(data[0]), data[1])
        &&& self.checksum == be16(data[2], data[3])
        &&& self.rest_of_header == be32(data[4], data[5], data[6], data[7])
        &&& self.payload@ == data.skip(8)
    }

    pub fn new_echo_request(identifier: u16, sequence: u16, payload: Vec<u8>) -> (r: Self)
        ensures
            r.icmp_type == IcmpType::EchoRequest,
            r.code == IcmpCode::EchoCode,
            r.checksum == 0,
            r.rest_of_header == echo_word(identifier, sequence),
            r.payload == payload,
    {
        IcmpPacket {
            icmp_type: IcmpType::EchoRequest,
            code: IcmpCode::EchoCode,
            checksum: 0,
            rest_of_header: join_halves(identifier, sequence),
            payload,
        }
    }

    pub fn new_echo_reply(identifier: u16, sequence: u16, payload: Vec<u8>) -> (r: Self)
        ensures
            r.icmp_type == IcmpType::EchoReply,
            r.code == IcmpCode::EchoCode,
            r.checksum == 0,
            r.rest_of_header == echo_word(identifier, sequence),
            r.payload == payload,
    {
        IcmpPacket {
            icmp_type: IcmpType::EchoReply,
            code: IcmpCode::EchoCode,
            checksum: 0,
            rest_of_header: join_halves(identifier, sequence),
            payload,
        }
    }

    /// A destination-unreachable message that quotes the first 64 bytes of
    /// the packet that could not be delivered.
    pub fn new_destination_unreachable(code: IcmpCode, original_packet: &[u8]) -> (r: Self)
        requires
            original_packet@.len() >= QUOTED_LEN,
        ensures
            r.icmp_type == IcmpType::DestinationUnreachable,
            r.code == code,
            r.checksum == 0,
            r.rest_of_header == 0,
            r.payload@ == original_packet@.take(64),
    {
        IcmpPacket {
            icmp_type: IcmpType::DestinationUnreachable,
            code,
            checksum: 0,
            rest_of_header: 0,
            payload: copy_range(original_packet, 0, QUOTED_LEN),
        }
    }

    /// Reads a message; a buffer shorter than the header gives `None`.
    pub fn parse(data: &[u8]) -> (r: Option<Self>)
        ensures
            r is None <==> data@.len() < ICMP_HEADER_LEN,
            r matches Some(p) ==> p.decodes(data@),
    {
        if data.len() < ICMP_HEADER_LEN {
            return None;
        }
        let icmp_type = IcmpType::from_u8(data[0]);
        let value: u8 = data[1];
        let code = if value <= 3 && icmp_type == IcmpType::DestinationUnreachable {
            IcmpCode::from_u8(value)
        } else if value <= 1 && icmp_type == IcmpType::TimeExceeded {
            IcmpCode::from_u8(value)
        } else {
            IcmpCode::EchoCode
        };
        let checksum = u16_from_be(data[2], data[3]);
        let rest_of_header = u32_from_be(data[4], data[5], data[6], data[7]);
        let payload = copy_range(data, ICMP_HEADER_LEN, data.len());
        Some(IcmpPacket { icmp_type, code, checksum, rest_of_header, payload })
    }

    /// Writes the message and stores the checksum that it computed over
    /// header and payload.
    pub fn to_bytes(&mut self) -> (r: Vec<u8>)
        ensures
            final(self).checksum == message_checksum(
                old(self).icmp_type,
                old(self).code,
                old(self).rest_of_header,
                old(self).payload@,
            ),
            final(self).icmp_type == old(self).icmp_type,
            final(self).code == old(self).code,
            final(self).rest_of_header == old(self).rest_of_header,
            final(self).payload == old(self).payload,
            r@ == final(self).wire(),
    {
        let mut bytes: Vec<u8> = Vec::new();
        bytes.push(self.icmp_type.to_u8());
        bytes.push(self.code.to_u8());
        push_u16(&mut bytes, 0);
        push_u32(&mut bytes, self.rest_of_header);
        push_all(&mut bytes, self.payload.as_slice());
        assert(bytes@ =~= message_wire(
            self.icmp_type,
            self.code,
            0,
            self.rest_of_header,
            self.payload@,
        ));
        let checksum = self.calculate_checksum(bytes.as_slice());
        self.checksum = checksum;
        bytes.set(2, hi_byte(checksum));
        bytes.set(3, lo_byte(checksum));
        assert(bytes@ =~= self.wire());
        bytes
    }

    /// The Internet checksum of `data`.
    pub fn calculate_checksum(&self, data: &[u8]) -> (r: u16)
        ensures
            r == checksum_spec(data@),
    {
        internet_checksum(data)
    }

    /// The identifier of an echo message: the high half of the rest-of-header word.
    pub fn get_identifier(&self) -> (r: u16)
        ensures
            r == high_half(self.rest_of_header),
    {
        upper_half(self.rest_of_header)
    }

    /// The sequence number of an echo message: the low half of the rest-of-header word.
    pub fn get_sequence(&self) -> (r: u16)
        ensures
            r == low_half(self.rest_of_header),
    {
        lower_half(self.rest_of_header)
    }

    pub fn get_type(&self) -> (r: IcmpType)
        ensures
            r == self.icmp_type,
    {
        self.icmp_type
    }
}

/// Whether the checksum stored in the message `data` fits it: the checksum
/// over all of it is zero.
pub open spec fn message_verifies(data: Seq<u8>) -> bool {
    data.len() >= ICMP_HEADER_LEN && checksum_spec(data) == 0
}

/// Verifies the checksum of a received message.
pub fn verify_message(data: &[u8]) -> (r: bool)
    ensures
        r == message_verifies(data@),
{
    data.len() >= ICMP_HEADER_LEN && internet_checksum(data) == 0
}

/// A message with the checksum that `to_bytes` computes verifies.
pub proof fn lemma_message_verifies(
    icmp_type: IcmpType,
    code: IcmpCode,
    rest_of_header: u32,
    payload: Seq<u8>,
)
    ensures
        message_verifies(
            message_wire(
                icmp_type,
                code,
                message_checksum(icmp_type, code, rest_of_header, payload),
                rest_of_header,
                payload,
            ),
        ),
{
    let z = message_wire(icmp_type, code, 0, rest_of_header, payload);
    let c = message_checksum(icmp_type, code, rest_of_header, payload);
    let p = message_wire(icmp_type, code, c, rest_of_header, payload);
    let s = word_sum(z);
    assert(c == complement16(s));
    lemma_word_sum_patch(z, p, 1, complement16(s));
    lemma_sum_with_checksum(s);
}

/// The identifier and sequence number put into an echo message come out again.
pub proof fn lemma_echo_word(identifier: u16, sequence: u16)
    ensures
        high_half(echo_word(identifier, sequence)) == identifier,
        low_half(echo_word(identifier, sequence)) == sequence,
{
}

/// What a received ICMP message asks of this host.
#[derive(Debug)]
pub enum IcmpOutcome {
    /// An echo request: `datagram` is the IP packet with the reply, to be sent.
    Reply { datagram: Vec<u8> },
    /// An echo reply, to be matched against the outstanding pings.
    EchoAnswered { identifier: u16, sequence: u16 },
    /// The destination of an earlier packet cannot be reached.
    Unreachable { code: IcmpCode },
    /// An earlier packet ran out of time.
    Expired { code: IcmpCode },
}

/// What handling the received message `packet` from `source_ip` gives on a
/// host with the address `local_ip`.
pub open spec fn handled(
    packet: &IcmpPacket,
    source_ip: IpAddress,
    local_ip: IpAddress,
    r: IcmpOutcome,
) -> bool {
    match packet.icmp_type {
        IcmpType::EchoRequest => r matches IcmpOutcome::Reply { datagram: d } && d@ == datagram(
            local_ip,
            source_ip,
            IpProtocol::Icmp,
            echo_reply_wire(
                high_half(packet.rest_of_header),
                low_half(packet.rest_of_header),
                packet.payload@,
            ),
        ),
        IcmpType::EchoReply => r == (IcmpOutcome::EchoAnswered {
            identifier: high_half(packet.rest_of_header),
            sequence: low_half(packet.rest_of_header),
        }),
        IcmpType::DestinationUnreachable => r == (IcmpOutcome::Unreachable { code: packet.code }),
        IcmpType::TimeExceeded => r == (IcmpOutcome::Expired { code: packet.code }),
    }
}

/// Handles a received message from `source_ip`. An echo request is answered
/// by an echo reply with the same identifier, sequence number and payload,
/// in an IP packet from `local_ip` to the sender; the other types are handed
/// on to the caller.
pub fn handle_icmp_packet(packet: IcmpPacket, source_ip: IpAddress, local_ip: IpAddress) -> (r:
    IcmpOutcome)
    ensures
        handled(&packet, source_ip, local_ip, r),
        packet.icmp_type == IcmpType::EchoRequest ==> (r matches IcmpOutcome::Reply { datagram: d }
            && d@ == datagram(
            local_ip,
            source_ip,
            IpProtocol::Icmp,
            echo_reply_wire(
                high_half(packet.rest_of_header),
                low_half(packet.rest_of_header),
                packet.payload@,
            ),
        )),
        packet.icmp_type == IcmpType::EchoReply ==> r == (IcmpOutcome::EchoAnswered {
            identifier: high_half(packet.rest_of_header),
            sequence: low_half(packet.rest_of_header),
        }),
        packet.icmp_type == IcmpType::DestinationUnreachable ==> r == (IcmpOutcome::Unreachable {
            code: packet.code,
        }),
        packet.icmp_type == IcmpType::TimeExceeded ==> r == (IcmpOutcome::Expired {
            code: packet.code,
        }),
{
    match packet.icmp_type {
        IcmpType::EchoRequest => {
            let identifier = packet.get_identifier();
            let sequence = packet.get_sequence();
            let mut reply = IcmpPacket::new_echo_reply(identifier, sequence, packet.payload);
            let bytes = reply.to_bytes();
            IcmpOutcome::Reply {
                datagram: datagram_bytes(local_ip, source_ip, IpProtocol::Icmp, bytes),
            }
        },
        IcmpType::EchoReply => IcmpOutcome::EchoAnswered {
            identifier: packet.get_identifier(),
            sequence: packet.get_sequence(),
        },
        IcmpType::DestinationUnreachable => IcmpOutcome::Unreachable { code: packet.code },
        IcmpType::TimeExceeded => IcmpOutcome::Expired { code: packet.code },
    }
}

/// The IP packet that carries an echo request from `local_ip` to `destination`.
pub fn send_echo_request(
    local_ip: IpAddress,
    destination: IpAddress,
    identifier: u16,
    sequence: u16,
    payload: Vec<u8>,
) -> (r: Vec<u8>)
    ensures
        r@ == datagram(
            local_ip,
            destination,
            IpProtocol::Icmp,
            echo_request_wire(identifier, sequence, payload@),
        ),
{
    let mut packet = IcmpPacket::new_echo_request(identifier, sequence, payload);
    let bytes = packet.to_bytes();
    datagram_bytes(local_ip, destination, IpProtocol::Icmp, bytes)
}

} // verus!
