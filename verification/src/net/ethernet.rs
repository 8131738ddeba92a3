//! Ethernet II framing.

use vstd::prelude::*;
use crate::net::MacAddress;
use crate::net::checksum::{be16, u16_from_be};
use crate::net::wire::{be16_bytes, copy_range, push_all, push_u16, read6};

verus! {

/// Length of the Ethernet header: two addresses and the EtherType.
pub const ETHERNET_HEADER_LEN: usize = 14;

/// Shortest frame that goes on the wire; shorter ones are padded with zeros.
pub const MIN_FRAME_SIZE: usize = 64;

/// Longest frame that goes on the wire.
pub const MAX_FRAME_SIZE: usize = 1518;

#[derive(Debug, Clone, Copy, PartialEq, Eq, Structural)]
pub enum EtherType {
    Ipv4,
    Arp,
    Unknown,
}

impl EtherType {
    /// The protocol that the EtherType number `value` names.
    pub open spec fn of(value: nat) -> EtherType {
        if value == 0x0800 {
            EtherType::Ipv4
        } else if value == 0x0806 {
            EtherType::Arp
        } else {
            EtherType::Unknown
        }
    }

    /// The EtherType number that a frame of this protocol carries.
    pub open spec fn number(self) -> u16 {
        match self {
            EtherType::Ipv4 => 0x0800,
            EtherType::Arp => 0x0806,
            EtherType::Unknown => 0xFFFF,
        }
    }

    pub fn from_u16(value: u16) -> (r: EtherType)
        ensures
            r == EtherType::of(value as nat),
    {
        if value == 0x0800 {
            EtherType::Ipv4
        } else if value == 0x0806 {
            EtherType::Arp
        } else {
            EtherType::Unknown
        }
    }

    pub fn to_u16(self) -> (r: u16)
        ensures
            r == self.number(),
    {
        match self {
            EtherType::Ipv4 => 0x0800,
            EtherType::Arp => 0x0806,
            EtherType::Unknown => 0xFFFF,
        }
    }
}

impl From<u16> for EtherType {
    fn from(value: u16) -> (r: Self) {
        EtherType::from_u16(value)
    }
}

impl vstd::std_specs::convert::FromSpecImpl<u16> for EtherType {
    open spec fn obeys_from_spec() -> bool {
        true
    }

    open spec fn from_spec(v: u16) -> Self {
        EtherType::of(v as nat)
    }
}

#[derive(Debug)]
pub struct EthernetFrame {
    pub destination: MacAddress,
    pub source: MacAddress,
    pub ethertype: EtherType,
    pub payload: Vec<u8>,
}

/// `s`, followed by as many zero bytes as it lacks to `min` bytes.
pub open spec fn zero_padded(s: Seq<u8>, min: nat) -> Seq<u8> {
    if s.len() >= min {
        s
    } else {
        s + Seq::new((min - s.len()) as nat, |i: int| 0u8)
    }
}

/// The wire form of a frame with the given addresses, EtherType and payload:
/// the 14 header bytes, the payload, and zero padding up to the minimum
/// frame size.
pub open spec fn frame_wire(
    destination: MacAddress,
    source: MacAddress,
    ethertype: EtherType,
    payload: Seq<u8>,
) -> Seq<u8> {
    zero_padded(
        destination.0@ + source.0@ + be16_bytes(ethertype.number()) + payload,
        MIN_FRAME_SIZE as nat,
    )
}

impl EthernetFrame {
    /// The 14 header bytes: destination, source, EtherType.
    pub open spec fn header(&self) -> Seq<u8> {
        self.destination.0@ + self.source.0@ + be16_bytes(self.ethertype.number())
    }

    /// The frame as it goes on the wire.
    pub open spec fn wire(&self) -> Seq<u8> {
        frame_wire(self.destination, self.source, self.ethertype, self.payload@)
    }

    /// Whether `self` is what the bytes `data` say.
    pub open spec fn decodes(&self, data: Seq<u8>) -> bool {
        &&& data.len() >= ETHERNET_HEADER_LEN
        &&& self.destination.0@ == data.subrange(0, 6)
        &&& self.source.0@ == data.subrange(6, 12)
        &&& self.ethertype == EtherType::of(be16(data[12], data[13]))
        &&& self.payload@ == data.subrange(14, data.len() as int)
    }

    pub fn new(
        destination: MacAddress,
        source: MacAddress,
        ethertype: EtherType,
        payload: Vec<u8>,
    ) -> (r: Self)
        ensures
            r.destination == destination,
            r.source == source,
            r.ethertype == ethertype,
            r.payload == payload,
    {
        EthernetFrame { destination, source, ethertype, payload }
    }

    /// Reads a frame; a buffer shorter than the header gives `None`.
    pub fn parse(data: &[u8]) -> (r: Option<Self>)
        ensures
            r is None <==> data@.len() < ETHERNET_HEADER_LEN,
            r matches Some(f) ==> f.decodes(data@),
    {
        if data.len() < ETHERNET_HEADER_LEN {
            return None;
        }
        let destination = MacAddress::new(read6(data, 0));
        let source = MacAddress::new(read6(data, 6));
        let ethertype = EtherType::from_u16(u16_from_be(data[12], data[13]));
        let payload = copy_range(data, ETHERNET_HEADER_LEN, data.len());
        Some(EthernetFrame { destination, source, ethertype, payload })
    }

    /// Writes the frame, zero-padded to the minimum frame size.
    pub fn to_bytes(&self) -> (r: Vec<u8>)
        ensures
            r@ == self.wire(),
    {
        let mut bytes: Vec<u8> = Vec::new();
        push_all(&mut bytes, self.destination.as_bytes());
        push_all(&mut bytes, self.source.as_bytes());
        push_u16(&mut bytes, self.ethertype.to_u16());
        push_all(&mut bytes, self.payload.as_slice());
        let ghost unpadded = bytes@;
        assert(unpadded == self.header() + self.payload@);
        while bytes.len() < MIN_FRAME_SIZE
            invariant
                unpadded.len() <= bytes@.len(),
                bytes@.len() <= MIN_FRAME_SIZE || bytes@ == unpadded,
                bytes@ == unpadded + Seq::new(
                    (bytes@.len() - unpadded.len()) as nat,
                    |i: int| 0u8,
                ),
            decreases MIN_FRAME_SIZE - bytes@.len(),
        {
            bytes.push(0);
        }
        assert(unpadded + Seq::new(0, |i: int| 0u8) == unpadded);
        bytes
    }

    pub fn destination(&self) -> (r: &MacAddress)
        ensures
            *r == self.destination,
    {
        &self.destination
    }

    pub fn source(&self) -> (r: &MacAddress)
        ensures
            *r == self.source,
    {
        &self.source
    }

    pub fn ethertype(&self) -> (r: EtherType)
        ensures
            r == self.ethertype,
    {
        self.ethertype
    }

    pub fn payload(&self) -> (r: &[u8])
        ensures
            r@ == self.payload@,
    {
        self.payload.as_slice()
    }
}

/// A frame read back from its own wire form has the same addresses and
/// EtherType, and the payload with the padding that the wire form added.
pub proof fn lemma_frame_round_trip(f: EthernetFrame, g: EthernetFrame)
    requires
        g.decodes(f.wire()),
    ensures
        g.destination == f.destination,
        g.source == f.source,
        g.ethertype == f.ethertype,
        g.payload@ == zero_padded(f.header() + f.payload@, MIN_FRAME_SIZE as nat).skip(14),
        f.payload@.len() >= 50 ==> g.payload@ == f.payload@,
{
    let w = f.wire();
    let u = f.header() + f.payload@;
    assert(f.header().len() == 14);
    assert(forall|i: int| 0 <= i < u.len() ==> w[i] == u[i]);
    assert(g.destination.0@ =~= f.destination.0@);
    assert(g.source.0@ =~= f.source.0@);
    assert(g.destination.0 == f.destination.0);
    assert(g.source.0 == f.source.0);
    assert(w[12] == be16_bytes(f.ethertype.number())[0]);
    assert(w[13] == be16_bytes(f.ethertype.number())[1]);
    assert(g.payload@ =~= w.skip(14));
    if f.payload@.len() >= 50 {
        assert(w == u);
        assert(g.payload@ =~= f.payload@);
    }
}

} // verus!
