//! TCP: the 20-byte header without options, the checksum, and the
//! connection state machine for the three-way handshake and data transfer.

use vstd::prelude::*;
use crate::net::{IpAddress, NetworkError};
use crate::net::checksum::{
    be16, be32, complement, complement16, folded_pseudo_sum, folded_sum, lemma_fold16_add,
    lemma_sum_with_checksum, lemma_word_sum_patch, pseudo_sum, u16_from_be, u32_from_be, word_sum,
};
use crate::net::wire::{be16_bytes, be32_bytes, copy_range, push_all, push_u16, push_u32};

verus! {

/// Length of the header without options.
pub const TCP_HEADER_LEN: usize = 20;

/// The protocol number of TCP in the IP header and the pseudo-header.
pub const TCP_PROTOCOL: u8 = 6;

/// The window that a new connection advertises.
pub const DEFAULT_WINDOW: u16 = 8192;

/// The sequence number with which `connect` opens a connection.
pub const INITIAL_SEQUENCE_NUMBER: u32 = 0;

/// The states of a connection.
#[derive(Debug, Clone, Copy, PartialEq, Eq, Structural)]
pub enum TcpState {
    Closed,
    Listen,
    SynSent,
    SynReceived,
    Established,
    FinWait1,
    FinWait2,
    CloseWait,
    Closing,
    LastAck,
    TimeWait,
}

/// The control flags of a segment.
#[derive(Debug, Clone, Copy, PartialEq, Eq, Structural)]
pub struct TcpFlags {
    pub fin: bool,
    pub syn: bool,
    pub rst: bool,
    pub psh: bool,
    pub ack: bool,
    pub urg: bool,
}

/// `mask` if `set`, else no bit.
pub open spec fn bit(set: bool, mask: u8) -> u8 {
    if set {
        mask
    } else {
        0
    }
}

impl TcpFlags {
    /// The flags byte: FIN is bit 0, SYN bit 1, RST bit 2, PSH bit 3, ACK
    /// bit 4, URG bit 5.
    pub open spec fn byte(self) -> u8 {
        bit(self.fin, 0x01) | bit(self.syn, 0x02) | bit(self.rst, 0x04) | bit(self.psh, 0x08)
            | bit(self.ack, 0x10) | bit(self.urg, 0x20)
    }

    /// The flags that the byte `byte` holds.
    pub open spec fn of(byte: u8) -> TcpFlags {
        TcpFlags {
            fin: (byte & 0x01) != 0,
            syn: (byte & 0x02) != 0,
            rst: (byte & 0x04) != 0,
            psh: (byte & 0x08) != 0,
            ack: (byte & 0x10) != 0,
            urg: (byte & 0x20) != 0,
        }
    }

    /// No flag set.
    pub open spec fn none() -> TcpFlags {
        TcpFlags { fin: false, syn: false, rst: false, psh: false, ack: false, urg: false }
    }

    pub fn new() -> (r: Self)
        ensures
            r == TcpFlags::none(),
    {
        TcpFlags { fin: false, syn: false, rst: false, psh: false, ack: false, urg: false }
    }

    pub fn from_byte(byte: u8) -> (r: Self)
        ensures
            r == TcpFlags::of(byte),
    {
        TcpFlags {
            fin: (byte & 0x01) != 0,
            syn: (byte & 0x02) != 0,
            rst: (byte & 0x04) != 0,
            psh: (byte & 0x08) != 0,
            ack: (byte & 0x10) != 0,
            urg: (byte & 0x20) != 0,
        }
    }

    pub fn to_byte(&self) -> (r: u8)
        ensures
            r == self.byte(),
    {
        let fin: u8 = if self.fin { 0x01 } else { 0 };
        let syn: u8 = if self.syn { 0x02 } else { 0 };
        let rst: u8 = if self.rst { 0x04 } else { 0 };
        let psh: u8 = if self.psh { 0x08 } else { 0 };
        let ack: u8 = if self.ack { 0x10 } else { 0 };
        let urg: u8 = if self.urg { 0x20 } else { 0 };
        fin | syn | rst | psh | ack | urg
    }
}

/// The flags written to a byte and read back are the same flags.
pub proof fn lemma_flags_round_trip(f: TcpFlags)
    ensures
        TcpFlags::of(f.byte()) == f,
        f.byte() < 0x40,
{
    let a = bit(f.fin, 0x01);
    let b = bit(f.syn, 0x02);
    let c = bit(f.rst, 0x04);
    let d = bit(f.psh, 0x08);
    let e = bit(f.ack, 0x10);
    let g = bit(f.urg, 0x20);
    assert((a == 0 || a == 0x01) && (b == 0 || b == 0x02) && (c == 0 || c == 0x04) && (d == 0 || d
        == 0x08) && (e == 0 || e == 0x10) && (g == 0 || g == 0x20) ==> {
        let v = a | b | c | d | e | g;
        &&& ((v & 0x01) != 0) == (a == 0x01)
        &&& ((v & 0x02) != 0) == (b == 0x02)
        &&& ((v & 0x04) != 0) == (c == 0x04)
        &&& ((v & 0x08) != 0) == (d == 0x08)
        &&& ((v & 0x10) != 0) == (e == 0x10)
        &&& ((v & 0x20) != 0) == (g == 0x20)
        &&& v < 0x40
    }) by (bit_vector);
}

/// A segment: the header fields and the payload.
#[derive(Debug)]
pub struct TcpSegment {
    pub source_port: u16,
    pub destination_port: u16,
    pub sequence_number: u32,
    pub acknowledgment_number: u32,
    pub data_offset: u8,
    pub flags: TcpFlags,
    pub window_size: u16,
    pub checksum: u16,
    pub urgent_pointer: u16,
    pub payload: Vec<u8>,
}

/// The byte that carries the data offset in its high nibble.
pub open spec fn offset_byte(data_offset: u8) -> u8 {
    (data_offset << 4) & 0xF0
}

/// The wire form of a segment with the given fields: the 20 header bytes,
/// then the payload.
pub open spec fn segment_wire(
    source_port: u16,
    destination_port: u16,
    sequence_number: u32,
    acknowledgment_number: u32,
    data_offset: u8,
    flags: TcpFlags,
    window_size: u16,
    checksum: u16,
    urgent_pointer: u16,
    payload: Seq<u8>,
) -> Seq<u8> {
    be16_bytes(source_port) + be16_bytes(destination_port) + be32_bytes(sequence_number)
        + be32_bytes(acknowledgment_number) + seq![offset_byte(data_offset), flags.byte()]
        + be16_bytes(window_size) + be16_bytes(checksum) + be16_bytes(urgent_pointer) + payload
}

/// Where the payload starts in a received segment of `len` bytes that says
/// `data_offset`: after that many 32-bit words, if the segment is longer.
pub open spec fn payload_start(data_offset: u8, len: nat) -> nat {
    if len > data_offset * 4 {
        (data_offset * 4) as nat
    } else {
        len
    }
}

impl TcpSegment {
    /// The segment as it goes on the wire, with `checksum` in the checksum field.
    pub open spec fn wire_with(&self, checksum: u16) -> Seq<u8> {
        segment_wire(
            self.source_port,
            self.destination_port,
            self.sequence_number,
            self.acknowledgment_number,
            self.data_offset,
            self.flags,
            self.window_size,
            checksum,
            self.urgent_pointer,
            self.payload@,
        )
    }

    /// The segment as it goes on the wire, with the stored checksum.
    pub open spec fn wire(&self) -> Seq<u8> {
        self.wire_with(self.checksum)
    }

    /// The sum that the checksum covers when the checksum field holds
    /// `checksum`: the pseudo-header of the two addresses, protocol 6 and
    /// the length of the segment, then header and payload.
    pub open spec fn covered_sum(&self, checksum: u16, source_ip: IpAddress, dest_ip: IpAddress)
        -> nat {
        pseudo_sum(
            source_ip.octets@,
            dest_ip.octets@,
            TCP_PROTOCOL as nat,
            TCP_HEADER_LEN as nat + self.payload@.len(),
        ) + word_sum(self.wire_with(checksum))
    }

    /// The checksum that belongs in this segment between the given addresses.
    pub open spec fn expected_checksum(&self, source_ip: IpAddress, dest_ip: IpAddress) -> u16 {
        complement16(self.covered_sum(0, source_ip, dest_ip)) as u16
    }

    /// Whether `self` is what the bytes `data` say.
    pub open spec fn decodes(&self, data: Seq<u8>) -> bool {
        &&& data.len() >= TCP_HEADER_LEN
        &&& self.source_port == be16(data[0], data[1])
        &&& self.destination_port == be16(data[2], data[3])
        &&& self.sequence_number == be32(data[4], data[5], data[6], data[7])
        &&& self.acknowledgment_number == be32(data[8], data[9], data[10], data[11])
        &&& self.data_offset == (data[12] >> 4) & 0xF
        &&& self.flags == TcpFlags::of(data[13])
        &&& self.window_size == be16(data[14], data[15])
        &&& self.checksum == be16(data[16], data[17])
        &&& self.urgent_pointer == be16(data[18], data[19])
        &&& self.payload@ == data.subrange(
            payload_start(self.data_offset, data.len()) as int,
            data.len() as int,
        )
    }

    /// Whether `self` is the segment that a connection sends with the given
    /// fields: a five-word header, no urgent data, no payload unless given,
    /// and the checksum that belongs between the two addresses.
    pub open spec fn sent_as(
        &self,
        source_port: u16,
        destination_port: u16,
        sequence_number: u32,
        acknowledgment_number: u32,
        flags: TcpFlags,
        window_size: u16,
        payload: Seq<u8>,
        source_ip: IpAddress,
        dest_ip: IpAddress,
    ) -> bool {
        &&& self.source_port == source_port
        &&& self.destination_port == destination_port
        &&& self.sequence_number == sequence_number
        &&& self.acknowledgment_number == acknowledgment_number
        &&& self.data_offset == 5
        &&& self.flags == flags
        &&& self.window_size == window_size
        &&& self.urgent_pointer == 0
        &&& self.payload@ == payload
        &&& self.checksum == self.expected_checksum(source_ip, dest_ip)
    }

    /// A segment with a five-word header and no urgent data; the checksum
    /// is not yet computed.
    pub fn new(
        source_port: u16,
        destination_port: u16,
        sequence_number: u32,
        acknowledgment_number: u32,
        flags: TcpFlags,
        window_size: u16,
        payload: Vec<u8>,
    ) -> (r: Self)
        ensures
            r.source_port == source_port,
            r.destination_port == destination_port,
            r.sequence_number == sequence_number,
            r.acknowledgment_number == acknowledgment_number,
            r.data_offset == 5,
            r.flags == flags,
            r.window_size == window_size,
            r.checksum == 0,
            r.urgent_pointer == 0,
            r.payload == payload,
    {
        TcpSegment {
            source_port,
            destination_port,
            sequence_number,
            acknowledgment_number,
            data_offset: 5,
            flags,
            window_size,
            checksum: 0,
            urgent_pointer: 0,
            payload,
        }
    }

    /// Reads a segment; a buffer shorter than the header gives `None`.
    /// Options are not parsed: the payload is what follows the words that
    /// the data offset counts.
    pub fn parse(data: &[u8]) -> (r: Option<Self>)
        ensures
            r is None <==> data@.len() < TCP_HEADER_LEN,
            r matches Some(s) ==> s.decodes(data@),
    {
        if data.len() < TCP_HEADER_LEN {
            return None;
        }
        let source_port = u16_from_be(data[0], data[1]);
        let destination_port = u16_from_be(data[2], data[3]);
        let sequence_number = u32_from_be(data[4], data[5], data[6], data[7]);
        let acknowledgment_number = u32_from_be(data[8], data[9], data[10], data[11]);
        let offset_bits: u8 = data[12];
        let data_offset: u8 = (offset_bits >> 4) & 0xF;
        assert(((offset_bits >> 4) & 0xF) < 16) by (bit_vector);
        let flags = TcpFlags::from_byte(data[13]);
        let window_size = u16_from_be(data[14], data[15]);
        let checksum = u16_from_be(data[16], data[17]);
        let urgent_pointer = u16_from_be(data[18], data[19]);
        let header_len: usize = (data_offset as usize) * 4;
        let payload = if data.len() > header_len {
            copy_range(data, header_len, data.len())
        } else {
            Vec::new()
        };
        assert(payload@ =~= data@.subrange(
            payload_start(data_offset, data@.len()) as int,
            data@.len() as int,
        ));
        Some(
            TcpSegment {
                source_port,
                destination_port,
                sequence_number,
                acknowledgment_number,
                data_offset,
                flags,
                window_size,
                checksum,
                urgent_pointer,
                payload,
            },
        )
    }

    fn bytes_with(&self, checksum: u16) -> (r: Vec<u8>)
        ensures
            r@ == self.wire_with(checksum),
            r@.len() == TCP_HEADER_LEN + self.payload@.len(),
    {
        let mut bytes: Vec<u8> = Vec::new();
        push_u16(&mut bytes, self.source_port);
        push_u16(&mut bytes, self.destination_port);
        push_u32(&mut bytes, self.sequence_number);
        push_u32(&mut bytes, self.acknowledgment_number);
        bytes.push((self.data_offset << 4) & 0xF0);
        bytes.push(self.flags.to_byte());
        push_u16(&mut bytes, self.window_size);
        push_u16(&mut bytes, checksum);
        push_u16(&mut bytes, self.urgent_pointer);
        push_all(&mut bytes, self.payload.as_slice());
        bytes
    }

    /// Writes the segment with the stored checksum.
    pub fn to_bytes(&mut self) -> (r: Vec<u8>)
        ensures
            *final(self) == *old(self),
            r@ == old(self).wire(),
    {
        self.bytes_with(self.checksum)
    }

    /// Computes the checksum over the pseudo-header of the two addresses,
    /// the header with a zeroed checksum field, and the payload, and stores it.
    pub fn calculate_checksum(&mut self, source_ip: IpAddress, dest_ip: IpAddress)
        ensures
            final(self).checksum == old(self).expected_checksum(source_ip, dest_ip),
            *final(self) == (TcpSegment { checksum: final(self).checksum, ..*old(self) }),
    {
        let bytes = self.bytes_with(0);
        let pseudo = folded_pseudo_sum(
            &source_ip.octets,
            &dest_ip.octets,
            TCP_PROTOCOL,
            bytes.len(),
        );
        proof {
            lemma_fold16_add(
                pseudo_sum(
                    source_ip.octets@,
                    dest_ip.octets@,
                    TCP_PROTOCOL as nat,
                    TCP_HEADER_LEN as nat + self.payload@.len(),
                ),
                word_sum(bytes@),
            );
        }
        self.checksum = complement(folded_sum(pseudo, bytes.as_slice()));
    }
}

/// A segment that carries the checksum that belongs in it verifies: the
/// complement of the sum over pseudo-header and segment is zero.
pub proof fn lemma_segment_verifies(s: TcpSegment, source_ip: IpAddress, dest_ip: IpAddress)
    requires
        s.checksum == s.expected_checksum(source_ip, dest_ip),
    ensures
        complement16(s.covered_sum(s.checksum, source_ip, dest_ip)) == 0,
{
    let z = s.wire_with(0);
    let w = s.wire();
    let sum = s.covered_sum(0, source_ip, dest_ip);
    lemma_word_sum_patch(z, w, 8, complement16(sum));
    lemma_sum_with_checksum(sum);
}

/// Whether the checksum in the received segment `data` fits it between the
/// two addresses: the complement of the sum over pseudo-header and segment
/// is zero.
pub open spec fn segment_verifies(data: Seq<u8>, source_ip: IpAddress, dest_ip: IpAddress) -> bool {
    data.len() >= TCP_HEADER_LEN && complement16(
        pseudo_sum(source_ip.octets@, dest_ip.octets@, TCP_PROTOCOL as nat, data.len())
            + word_sum(data),
    ) == 0
}

/// Verifies the checksum of a received segment.
pub fn verify_segment(data: &[u8], source_ip: IpAddress, dest_ip: IpAddress) -> (r: bool)
    ensures
        r == segment_verifies(data@, source_ip, dest_ip),
{
    if data.len() < TCP_HEADER_LEN {
        return false;
    }
    let pseudo = folded_pseudo_sum(&source_ip.octets, &dest_ip.octets, TCP_PROTOCOL, data.len());
    proof {
        lemma_fold16_add(
            pseudo_sum(source_ip.octets@, dest_ip.octets@, TCP_PROTOCOL as nat, data@.len()),
            word_sum(data@),
        );
    }
    complement(folded_sum(pseudo, data)) == 0
}

/// A segment as a connection sends it, with the checksum that belongs in
/// it, is taken by the receiver's verification.
pub proof fn lemma_sent_segment_verifies(s: TcpSegment, source_ip: IpAddress, dest_ip: IpAddress)
    requires
        s.checksum == s.expected_checksum(source_ip, dest_ip),
    ensures
        segment_verifies(s.wire(), source_ip, dest_ip),
{
    lemma_segment_verifies(s, source_ip, dest_ip);
    assert(s.wire().len() == TCP_HEADER_LEN + s.payload@.len());
}

/// The answer to a SYN verifies at the sender of the SYN: its checksum is
/// computed between the local address and the address that the SYN came from.
pub proof fn lemma_syn_answer_verifies(
    before: TcpConnection,
    after: TcpConnection,
    segment: TcpSegment,
    source_ip: IpAddress,
    response: TcpSegment,
)
    requires
        TcpConnection::accepted_syn(&before, &after, &segment, source_ip, Some(response)),
    ensures
        segment_verifies(response.wire(), before.local_addr, source_ip),
        response.destination_port == segment.source_port,
{
    lemma_sent_segment_verifies(response, before.local_addr, source_ip);
}

/// `a` advanced by `n`, modulo 2^32 as sequence numbers count.
pub open spec fn seq_add(a: u32, n: nat) -> u32 {
    ((a + n) % 0x1_0000_0000) as u32
}

/// Advances a sequence number by `n`, wrapping at 2^32.
pub fn advance(a: u32, n: usize) -> (r: u32)
    ensures
        r == seq_add(a, n as nat),
{
    let m: u64 = (n as u64) % 0x1_0000_0000;
    proof {
        vstd::arithmetic::div_mod::lemma_add_mod_noop_right(a as int, n as int, 0x1_0000_0000);
    }
    ((a as u64 + m) % 0x1_0000_0000) as u32
}

/// One end of a connection.
#[derive(Debug)]
pub struct TcpConnection {
    pub state: TcpState,
    pub local_addr: IpAddress,
    pub remote_addr: IpAddress,
    pub local_port: u16,
    pub remote_port: u16,
    /// The sequence number of the next byte that this end sends.
    pub sequence_number: u32,
    /// The sequence number of the next byte that this end expects.
    pub acknowledgment_number: u32,
    pub window_size: u16,
    pub receive_buffer: Vec<u8>,
}

/// How a connection reacts to a received segment.
pub enum Reaction {
    /// Listening, a SYN came: answer SYN+ACK.
    AcceptSyn,
    /// The SYN was sent, the matching SYN+ACK came: answer ACK.
    CompleteOpen,
    /// The SYN+ACK was sent, the matching ACK came: the connection is open.
    Opened,
    /// Established, data came: take it and answer ACK.
    TakeData,
    /// Nothing to do.
    Ignore,
}

/// The flags of a SYN segment.
pub open spec fn syn_flags() -> TcpFlags {
    TcpFlags { syn: true, ..TcpFlags::none() }
}

/// The flags of a SYN+ACK segment.
pub open spec fn syn_ack_flags() -> TcpFlags {
    TcpFlags { syn: true, ack: true, ..TcpFlags::none() }
}

/// The flags of a bare ACK segment.
pub open spec fn ack_flags() -> TcpFlags {
    TcpFlags { ack: true, ..TcpFlags::none() }
}

/// The flags of a data segment: PSH and ACK.
pub open spec fn push_flags() -> TcpFlags {
    TcpFlags { psh: true, ack: true, ..TcpFlags::none() }
}

impl TcpConnection {
    /// How the connection reacts to `segment`.
    pub open spec fn reaction(&self, segment: &TcpSegment) -> Reaction {
        match self.state {
            TcpState::Listen => if segment.flags.syn {
                Reaction::AcceptSyn
            } else {
                Reaction::Ignore
            },
            TcpState::SynSent => if segment.flags.syn && segment.flags.ack
                && segment.acknowledgment_number == self.sequence_number {
                Reaction::CompleteOpen
            } else {
                Reaction::Ignore
            },
            TcpState::SynReceived => if segment.flags.ack && segment.acknowledgment_number
                == self.sequence_number {
                Reaction::Opened
            } else {
                Reaction::Ignore
            },
            TcpState::Established => if segment.payload@.len() > 0 {
                Reaction::TakeData
            } else {
                Reaction::Ignore
            },
            _ => Reaction::Ignore,
        }
    }

    /// Whether `self` and `other` agree in everything but what `reaction`
    /// may change: state, remote endpoint, the two numbers and the buffer.
    pub open spec fn same_endpoint(&self, other: &TcpConnection) -> bool {
        &&& self.local_addr == other.local_addr
        &&& self.local_port == other.local_port
        &&& self.window_size == other.window_size
    }

    /// Whether `response` is the segment that this connection sends with the
    /// given flags and payload, numbered `sequence_number`.
    pub open spec fn emits(
        &self,
        response: &TcpSegment,
        sequence_number: u32,
        flags: TcpFlags,
        payload: Seq<u8>,
    ) -> bool {
        response.sent_as(
            self.local_port,
            self.remote_port,
            sequence_number,
            self.acknowledgment_number,
            flags,
            self.window_size,
            payload,
            self.local_addr,
            self.remote_addr,
        )
    }

    /// A closed connection at the given local endpoint.
    pub fn new(local_addr: IpAddress, local_port: u16) -> (r: Self)
        ensures
            r.state == TcpState::Closed,
            r.local_addr == local_addr,
            r.local_port == local_port,
            r.remote_addr.octets@ == seq![0u8, 0u8, 0u8, 0u8],
            r.remote_port == 0,
            r.sequence_number == 0,
            r.acknowledgment_number == 0,
            r.window_size == DEFAULT_WINDOW,
            r.receive_buffer@.len() == 0,
    {
        TcpConnection {
            state: TcpState::Closed,
            local_addr,
            remote_addr: IpAddress::new([0, 0, 0, 0]),
            local_port,
            remote_port: 0,
            sequence_number: 0,
            acknowledgment_number: 0,
            window_size: DEFAULT_WINDOW,
            receive_buffer: Vec::new(),
        }
    }

    fn segment(&self, sequence_number: u32, flags: TcpFlags, payload: Vec<u8>) -> (r: TcpSegment)
        ensures
            self.emits(&r, sequence_number, flags, payload@),
    {
        let mut segment = TcpSegment::new(
            self.local_port,
            self.remote_port,
            sequence_number,
            self.acknowledgment_number,
            flags,
            self.window_size,
            payload,
        );
        segment.calculate_checksum(self.local_addr, self.remote_addr);
        segment
    }

    /// Opens a connection to the remote endpoint with the initial sequence
    /// number `isn`. From `Closed` this gives the SYN to send, numbered
    /// `isn` and acknowledging nothing, and the connection is in `SynSent`
    /// with its next sequence number one past `isn`. In any other state it
    /// fails and nothing changes.
    pub fn connect_from(&mut self, remote_addr: IpAddress, remote_port: u16, isn: u32) -> (r:
        Result<TcpSegment, NetworkError>)
        ensures
            old(self).state != TcpState::Closed ==> r == Err::<TcpSegment, NetworkError>(
                NetworkError::Other("Connection already exists"),
            ) && *final(self) == *old(self),
            old(self).state == TcpState::Closed ==> {
                &&& r is Ok
                &&& final(self).state == TcpState::SynSent
                &&& final(self).remote_addr == remote_addr
                &&& final(self).remote_port == remote_port
                &&& final(self).sequence_number == seq_add(isn, 1)
                &&& final(self).acknowledgment_number == 0
                &&& final(self).same_endpoint(old(self))
                &&& final(self).receive_buffer == old(self).receive_buffer
                &&& r matches Ok(syn) ==> final(self).emits(&syn, isn, syn_flags(), Seq::empty())
            },
    {
        if self.state != TcpState::Closed {
            return Err(NetworkError::Other("Connection already exists"));
        }
        self.remote_addr = remote_addr;
        self.remote_port = remote_port;
        self.sequence_number = isn;
        self.acknowledgment_number = 0;
        let mut flags = TcpFlags::new();
        flags.syn = true;
        let segment = self.segment(self.sequence_number, flags, Vec::new());
        self.state = TcpState::SynSent;
        self.sequence_number = advance(self.sequence_number, 1);
        Ok(segment)
    }

    /// Opens a connection with the fixed initial sequence number. A caller
    /// with a source of random numbers opens with `connect_from` and a
    /// number of its own.
    pub fn connect(&mut self, remote_addr: IpAddress, remote_port: u16) -> (r: Result<
        TcpSegment,
        NetworkError,
    >)
        ensures
            old(self).state != TcpState::Closed ==> r == Err::<TcpSegment, NetworkError>(
                NetworkError::Other("Connection already exists"),
            ) && *final(self) == *old(self),
            old(self).state == TcpState::Closed ==> {
                &&& r is Ok
                &&& final(self).state == TcpState::SynSent
                &&& final(self).remote_addr == remote_addr
                &&& final(self).remote_port == remote_port
                &&& final(self).sequence_number == seq_add(INITIAL_SEQUENCE_NUMBER, 1)
                &&& final(self).acknowledgment_number == 0
                &&& final(self).same_endpoint(old(self))
                &&& final(self).receive_buffer == old(self).receive_buffer
                &&& r matches Ok(syn) ==> final(self).emits(
                    &syn,
                    INITIAL_SEQUENCE_NUMBER,
                    syn_flags(),
                    Seq::empty(),
                )
            },
    {
        self.connect_from(remote_addr, remote_port, INITIAL_SEQUENCE_NUMBER)
    }

    /// Feeds a segment received from the address `source_ip` to the state
    /// machine and returns the segment to send in answer, if any.
    pub fn handle_segment(&mut self, segment: TcpSegment, source_ip: IpAddress) -> (r: Option<
        TcpSegment,
    >)
        ensures
            final(self).same_endpoint(old(self)),
            match old(self).reaction(&segment) {
                Reaction::AcceptSyn => Self::accepted_syn(
                    old(self),
                    final(self),
                    &segment,
                    source_ip,
                    r,
                ),
                Reaction::CompleteOpen => Self::completed_open(old(self), final(self), &segment, r),
                Reaction::Opened => r is None && *final(self) == (TcpConnection {
                    state: TcpState::Established,
                    ..*old(self)
                }),
                Reaction::TakeData => Self::took_data(old(self), final(self), &segment, r),
                Reaction::Ignore => r is None && *final(self) == *old(self),
            },
    {
        match self.state {
            TcpState::Listen => {
                if segment.flags.syn {
                    Some(self.handle_syn_received(segment, source_ip))
                } else {
                    None
                }
            },
            TcpState::SynSent => {
                if segment.flags.syn && segment.flags.ack {
                    self.handle_syn_ack_received(segment)
                } else {
                    None
                }
            },
            TcpState::SynReceived => {
                if segment.flags.ack && segment.acknowledgment_number == self.sequence_number {
                    self.state = TcpState::Established;
                }
                None
            },
            TcpState::Established => self.handle_established(segment),
            _ => None,
        }
    }

    /// What accepting a SYN from the address `source_ip` does: the remote
    /// endpoint is the sender's address and port, the segment answered is
    /// SYN+ACK with our number and the sender's number plus one, with the
    /// checksum that belongs between our address and the sender's, our
    /// number advances by one, and the state is `SynReceived`.
    pub open spec fn accepted_syn(
        before: &TcpConnection,
        after: &TcpConnection,
        segment: &TcpSegment,
        source_ip: IpAddress,
        response: Option<TcpSegment>,
    ) -> bool {
        &&& after.state == TcpState::SynReceived
        &&& after.remote_addr == source_ip
        &&& after.remote_port == segment.source_port
        &&& after.acknowledgment_number == seq_add(segment.sequence_number, 1)
        &&& after.sequence_number == seq_add(before.sequence_number, 1)
        &&& after.receive_buffer == before.receive_buffer
        &&& after.same_endpoint(before)
        &&& response matches Some(s) && after.emits(
            &s,
            before.sequence_number,
            syn_ack_flags(),
            Seq::empty(),
        )
    }

    /// What completing the handshake does: the sender's number plus one is
    /// acknowledged by a bare ACK, and the state is `Established`.
    pub open spec fn completed_open(
        before: &TcpConnection,
        after: &TcpConnection,
        segment: &TcpSegment,
        response: Option<TcpSegment>,
    ) -> bool {
        &&& *after == (TcpConnection {
            state: TcpState::Established,
            acknowledgment_number: seq_add(segment.sequence_number, 1),
            ..*before
        })
        &&& response matches Some(s) && after.emits(
            &s,
            before.sequence_number,
            ack_flags(),
            Seq::empty(),
        )
    }

    /// What taking data does: the payload is appended to the receive
    /// buffer, the acknowledgment number advances by its length, and a bare
    /// ACK answers.
    pub open spec fn took_data(
        before: &TcpConnection,
        after: &TcpConnection,
        segment: &TcpSegment,
        response: Option<TcpSegment>,
    ) -> bool {
        &&& after.state == TcpState::Established
        &&& after.remote_addr == before.remote_addr
        &&& after.remote_port == before.remote_port
        &&& after.sequence_number == before.sequence_number
        &&& after.acknowledgment_number == seq_add(
            before.acknowledgment_number,
            segment.payload@.len(),
        )
        &&& after.receive_buffer@ == before.receive_buffer@ + segment.payload@
        &&& after.same_endpoint(before)
        &&& response matches Some(s) && after.emits(
            &s,
            before.sequence_number,
            ack_flags(),
            Seq::empty(),
        )
    }

    /// Accepts a SYN from the address `source_ip`, whatever the state: see
    /// `accepted_syn`.
    pub fn handle_syn_received(&mut self, segment: TcpSegment, source_ip: IpAddress) -> (r:
        TcpSegment)
        ensures
            Self::accepted_syn(old(self), final(self), &segment, source_ip, Some(r)),
    {
        self.remote_addr = source_ip;
        self.remote_port = segment.source_port;
        self.acknowledgment_number = advance(segment.sequence_number, 1);
        let mut flags = TcpFlags::new();
        flags.syn = true;
        flags.ack = true;
        let response = self.segment(self.sequence_number, flags, Vec::new());
        self.state = TcpState::SynReceived;
        self.sequence_number = advance(self.sequence_number, 1);
        response
    }

    /// Handles a SYN+ACK: if it acknowledges our number the handshake
    /// completes, see `completed_open`; otherwise nothing happens.
    pub fn handle_syn_ack_received(&mut self, segment: TcpSegment) -> (r: Option<TcpSegment>)
        ensures
            segment.acknowledgment_number == old(self).sequence_number ==> Self::completed_open(
                old(self),
                final(self),
                &segment,
                r,
            ),
            segment.acknowledgment_number != old(self).sequence_number ==> r is None && *final(self)
                == *old(self),
    {
        if segment.acknowledgment_number == self.sequence_number {
            self.acknowledgment_number = advance(segment.sequence_number, 1);
            let mut flags = TcpFlags::new();
            flags.ack = true;
            let response = self.segment(self.sequence_number, flags, Vec::new());
            self.state = TcpState::Established;
            Some(response)
        } else {
            None
        }
    }

    /// Handles a segment on an open connection: data is taken and
    /// acknowledged; a segment without payload changes nothing.
    pub fn handle_established(&mut self, segment: TcpSegment) -> (r: Option<TcpSegment>)
        ensures
            segment.payload@.len() > 0 ==> {
                &&& final(self).state == old(self).state
                &&& final(self).remote_addr == old(self).remote_addr
                &&& final(self).remote_port == old(self).remote_port
                &&& final(self).sequence_number == old(self).sequence_number
                &&& final(self).acknowledgment_number == seq_add(
                    old(self).acknowledgment_number,
                    segment.payload@.len(),
                )
                &&& final(self).receive_buffer@ == old(self).receive_buffer@ + segment.payload@
                &&& final(self).same_endpoint(old(self))
                &&& r matches Some(s) && final(self).emits(
                    &s,
                    old(self).sequence_number,
                    ack_flags(),
                    Seq::empty(),
                )
            },
            segment.payload@.len() == 0 ==> r is None && *final(self) == *old(self),
    {
        if segment.payload.len() > 0 {
            push_all(&mut self.receive_buffer, segment.payload.as_slice());
            self.acknowledgment_number = advance(
                self.acknowledgment_number,
                segment.payload.len(),
            );
            let mut flags = TcpFlags::new();
            flags.ack = true;
            Some(self.segment(self.sequence_number, flags, Vec::new()))
        } else {
            None
        }
    }

    /// Sends `data` on an open connection: the segment to send carries PSH
    /// and ACK and the data, and our number advances by the length of the
    /// data. On a connection that is not established it fails with
    /// `NotConnected` and nothing changes.
    pub fn send(&mut self, data: &[u8]) -> (r: Result<TcpSegment, NetworkError>)
        ensures
            old(self).state != TcpState::Established ==> r == Err::<TcpSegment, NetworkError>(
                NetworkError::NotConnected,
            ) && *final(self) == *old(self),
            old(self).state == TcpState::Established ==> {
                &&& *final(self) == (TcpConnection {
                    sequence_number: seq_add(old(self).sequence_number, data@.len()),
                    ..*old(self)
                })
                &&& r matches Ok(s) && old(self).emits(
                    &s,
                    old(self).sequence_number,
                    push_flags(),
                    data@,
                )
            },
    {
        if self.state != TcpState::Established {
            return Err(NetworkError::NotConnected);
        }
        let mut flags = TcpFlags::new();
        flags.psh = true;
        flags.ack = true;
        let payload = copy_range(data, 0, data.len());
        assert(data@.subrange(0, data@.len() as int) == data@);
        let segment = self.segment(self.sequence_number, flags, payload);
        self.sequence_number = advance(self.sequence_number, data.len());
        Ok(segment)
    }

    /// Starts listening: from `Closed` the state becomes `Listen`; in any
    /// other state the call fails and nothing changes.
    pub fn start_listen(&mut self) -> (r: Result<(), NetworkError>)
        ensures
            old(self).state == TcpState::Closed ==> r is Ok && *final(self) == (TcpConnection {
                state: TcpState::Listen,
                ..*old(self)
            }),
            old(self).state != TcpState::Closed ==> r == Err::<(), NetworkError>(
                NetworkError::Other("Connection not in closed state"),
            ) && *final(self) == *old(self),
    {
        if self.state != TcpState::Closed {
            return Err(NetworkError::Other("Connection not in closed state"));
        }
        self.state = TcpState::Listen;
        Ok(())
    }
}

} // verus!
