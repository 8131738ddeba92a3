//! DHCP: the client's messages and what it does with the server's.

use vstd::prelude::*;
use crate::net::{IpAddress, NetworkError, NetworkInterface};
use crate::net::checksum::{be16, be32, u16_from_be, u32_from_be};
use crate::net::udp::UdpPacket;
use crate::net::wire::{be16_bytes, be32_bytes, copy_range, push_all, push_u16, push_u32, read4};

verus! {

pub const DHCP_CLIENT_PORT: u16 = 68;

pub const DHCP_SERVER_PORT: u16 = 67;

/// The milliseconds that the client waits for an answer.
pub const DHCP_TIMEOUT_MS: u64 = 5000;

/// The transaction id that the client uses.
pub const TRANSACTION_ID: u32 = 0x12345678;

/// Where the options start in a received message.
pub const OPTIONS_OFFSET: usize = 240;

/// The code of the option that carries the message type.
pub const OPTION_MESSAGE_TYPE: u8 = 53;

/// The code of the option that marks the end of the options.
pub const OPTION_END: u8 = 255;

#[derive(Debug, Clone, Copy, PartialEq, Eq, Structural)]
pub enum DhcpMessageType {
    Discover,
    Offer,
    Request,
    Decline,
    Ack,
    Nak,
    Release,
}

impl DhcpMessageType {
    /// The type that the number `value` names; an unknown number reads as discover.
    pub open spec fn of(value: u8) -> DhcpMessageType {
        if value == 2 {
            DhcpMessageType::Offer
        } else if value == 3 {
            DhcpMessageType::Request
        } else if value == 4 {
            DhcpMessageType::Decline
        } else if value == 5 {
            DhcpMessageType::Ack
        } else if value == 6 {
            DhcpMessageType::Nak
        } else if value == 7 {
            DhcpMessageType::Release
        } else {
            DhcpMessageType::Discover
        }
    }

    /// The number that the message type option carries.
    pub open spec fn number(self) -> u8 {
        match self {
            DhcpMessageType::Discover => 1,
            DhcpMessageType::Offer => 2,
            DhcpMessageType::Request => 3,
            DhcpMessageType::Decline => 4,
            DhcpMessageType::Ack => 5,
            DhcpMessageType::Nak => 6,
            DhcpMessageType::Release => 7,
        }
    }

    pub fn from_u8(value: u8) -> (r: DhcpMessageType)
        ensures
            r == DhcpMessageType::of(value),
    {
        match value {
            2 => DhcpMessageType::Offer,
            3 => DhcpMessageType::Request,
            4 => DhcpMessageType::Decline,
            5 => DhcpMessageType::Ack,
            6 => DhcpMessageType::Nak,
            7 => DhcpMessageType::Release,
            _ => DhcpMessageType::Discover,
        }
    }

    pub fn to_u8(self) -> (r: u8)
        ensures
            r == self.number(),
    {
        match self {
            DhcpMessageType::Discover => 1,
            DhcpMessageType::Offer => 2,
            DhcpMessageType::Request => 3,
            DhcpMessageType::Decline => 4,
            DhcpMessageType::Ack => 5,
            DhcpMessageType::Nak => 6,
            DhcpMessageType::Release => 7,
        }
    }
}

#[derive(Debug)]
pub struct DhcpOption {
    pub code: u8,
    pub length: u8,
    pub data: Vec<u8>,
}

impl DhcpOption {
    /// The option as it stands in a message: code, length, data.
    pub open spec fn wire(&self) -> Seq<u8> {
        seq![self.code, self.length] + self.data@
    }
}

#[derive(Debug)]
pub struct DhcpPacket {
    pub op: u8,
    pub htype: u8,
    pub hlen: u8,
    pub hops: u8,
    pub xid: u32,
    pub secs: u16,
    pub flags: u16,
    pub ciaddr: IpAddress,
    pub yiaddr: IpAddress,
    pub siaddr: IpAddress,
    pub giaddr: IpAddress,
    pub chaddr: [u8; 16],
    pub options: Vec<DhcpOption>,
}

/// The options one after the other, as they stand in a message.
pub open spec fn options_wire(options: Seq<DhcpOption>) -> Seq<u8>
    decreases options.len(),
{
    if options.len() == 0 {
        Seq::empty()
    } else {
        options_wire(options.drop_last()) + options.last().wire()
    }
}

/// The message type that the options say: that of the first message type
/// option with data; discover if there is none.
pub open spec fn message_type(options: Seq<DhcpOption>) -> DhcpMessageType
    decreases options.len(),
{
    if options.len() == 0 {
        DhcpMessageType::Discover
    } else if options[0].code == OPTION_MESSAGE_TYPE && options[0].data@.len() > 0 {
        DhcpMessageType::of(options[0].data@[0])
    } else {
        message_type(options.skip(1))
    }
}

/// The options that stand in `bytes` from place `i` on, each as code,
/// length and data. Reading skips pad bytes and stops at the end option,
/// at the end of the message, and at an option that the message cuts off.
pub open spec fn parsed_options(bytes: Seq<u8>, i: nat) -> Seq<Seq<u8>>
    decreases bytes.len() - i,
{
    let at = i as int;
    if at >= bytes.len() {
        Seq::empty()
    } else if bytes[at] == OPTION_END {
        Seq::empty()
    } else if bytes[at] == 0 {
        parsed_options(bytes, i + 1)
    } else if at + 1 >= bytes.len() {
        Seq::empty()
    } else if at + 2 + bytes[at + 1] > bytes.len() {
        Seq::empty()
    } else {
        seq![bytes.subrange(at, at + 2 + bytes[at + 1])] + parsed_options(
            bytes,
            (at + 2 + bytes[at + 1]) as nat,
        )
    }
}

/// The wire forms of `options`, one by one.
pub open spec fn option_wires(options: Seq<DhcpOption>) -> Seq<Seq<u8>> {
    Seq::new(options.len(), |k: int| options[k].wire())
}

/// The hardware address field of a client with the Ethernet address `mac`:
/// the six bytes, then ten zeros.
pub open spec fn client_hardware(mac: Seq<u8>) -> Seq<u8> {
    mac.take(6) + Seq::new(10, |i: int| 0u8)
}

impl DhcpPacket {
    /// The fixed part of the message: 44 bytes of fields, then the magic cookie.
    pub open spec fn fixed_wire(&self) -> Seq<u8> {
        seq![self.op, self.htype, self.hlen, self.hops] + be32_bytes(self.xid) + be16_bytes(
            self.secs,
        ) + be16_bytes(self.flags) + self.ciaddr.octets@ + self.yiaddr.octets@
            + self.siaddr.octets@ + self.giaddr.octets@ + self.chaddr@ + seq![
            99u8,
            130u8,
            83u8,
            99u8,
        ]
    }

    /// The message as the client writes it: the fixed part, the options,
    /// the end option.
    pub open spec fn wire(&self) -> Seq<u8> {
        self.fixed_wire() + options_wire(self.options@) + seq![OPTION_END]
    }

    /// Whether `self` is what the bytes `bytes` say.
    pub open spec fn decodes(&self, bytes: Seq<u8>) -> bool {
        &&& bytes.len() >= OPTIONS_OFFSET
        &&& self.op == bytes[0]
        &&& self.htype == bytes[1]
        &&& self.hlen == bytes[2]
        &&& self.hops == bytes[3]
        &&& self.xid == be32(bytes[4], bytes[5], bytes[6], bytes[7])
        &&& self.secs == be16(bytes[8], bytes[9])
        &&& self.flags == be16(bytes[10], bytes[11])
        &&& self.ciaddr.octets@ == bytes.subrange(12, 16)
        &&& self.yiaddr.octets@ == bytes.subrange(16, 20)
        &&& self.siaddr.octets@ == bytes.subrange(20, 24)
        &&& self.giaddr.octets@ == bytes.subrange(24, 28)
        &&& self.chaddr@ == bytes.subrange(28, 44)
        &&& option_wires(self.options@) == parsed_options(bytes, OPTIONS_OFFSET as nat)
        &&& forall|k: int|
            0 <= k < self.options@.len() ==> (#[trigger] self.options@[k]).data@.len()
                == self.options@[k].length
    }

    /// Whether `self` is a request of the client with hardware address
    /// `mac`: a boot request over Ethernet with the fixed transaction id,
    /// `yiaddr` as the address it asks for and no other address.
    pub open spec fn client_message(&self, mac: Seq<u8>, yiaddr: Seq<u8>) -> bool {
        &&& self.op == 1
        &&& self.htype == 1
        &&& self.hlen == 6
        &&& self.hops == 0
        &&& self.xid == TRANSACTION_ID
        &&& self.secs == 0
        &&& self.flags == 0
        &&& self.ciaddr.octets@ == seq![0u8, 0u8, 0u8, 0u8]
        &&& self.yiaddr.octets@ == yiaddr
        &&& self.siaddr.octets@ == seq![0u8, 0u8, 0u8, 0u8]
        &&& self.giaddr.octets@ == seq![0u8, 0u8, 0u8, 0u8]
        &&& self.chaddr@ == client_hardware(mac)
    }

    fn hardware_field(mac_addr: &[u8]) -> (r: [u8; 16])
        requires
            mac_addr@.len() == 6,
        ensures
            r@ == client_hardware(mac_addr@),
    {
        let r: [u8; 16] = [
            mac_addr[0],
            mac_addr[1],
            mac_addr[2],
            mac_addr[3],
            mac_addr[4],
            mac_addr[5],
            0,
            0,
            0,
            0,
            0,
            0,
            0,
            0,
            0,
            0,
        ];
        assert(r@ =~= client_hardware(mac_addr@));
        r
    }

    fn option(code: u8, data: Vec<u8>) -> (r: DhcpOption)
        requires
            data@.len() <= 255,
        ensures
            r.code == code,
            r.length == data@.len(),
            r.data == data,
    {
        DhcpOption { code, length: data.len() as u8, data }
    }

    /// The discover message of the client with the Ethernet address
    /// `mac_addr`: it says its type and asks for subnet mask, router, name
    /// server and domain name.
    pub fn new_discover(mac_addr: &[u8]) -> (r: Self)
        requires
            mac_addr@.len() == 6,
        ensures
            r.client_message(mac_addr@, seq![0u8, 0u8, 0u8, 0u8]),
            r.options@.len() == 2,
            r.options@[0].wire() == seq![53u8, 1u8, 1u8],
            r.options@[1].wire() == seq![55u8, 4u8, 1u8, 3u8, 6u8, 15u8],
    {
        let mut kind: Vec<u8> = Vec::new();
        kind.push(DhcpMessageType::Discover.to_u8());
        let mut wanted: Vec<u8> = Vec::new();
        wanted.push(1);
        wanted.push(3);
        wanted.push(6);
        wanted.push(15);
        let mut options: Vec<DhcpOption> = Vec::new();
        options.push(Self::option(OPTION_MESSAGE_TYPE, kind));
        options.push(Self::option(55, wanted));
        assert(options@[0].wire() =~= seq![53u8, 1u8, 1u8]);
        assert(options@[1].wire() =~= seq![55u8, 4u8, 1u8, 3u8, 6u8, 15u8]);
        DhcpPacket {
            op: 1,
            htype: 1,
            hlen: 6,
            hops: 0,
            xid: TRANSACTION_ID,
            secs: 0,
            flags: 0,
            ciaddr: IpAddress::new([0, 0, 0, 0]),
            yiaddr: IpAddress::new([0, 0, 0, 0]),
            siaddr: IpAddress::new([0, 0, 0, 0]),
            giaddr: IpAddress::new([0, 0, 0, 0]),
            chaddr: Self::hardware_field(mac_addr),
            options,
        }
    }

    /// The request by which the client with the Ethernet address
    /// `mac_addr` asks for the address `requested_ip`.
    pub fn new_request(mac_addr: [u8; 6], requested_ip: IpAddress) -> (r: Self)
        ensures
            r.client_message(mac_addr@, requested_ip.octets@),
            r.options@.len() == 2,
            r.options@[0].wire() == seq![53u8, 1u8, 3u8],
            r.options@[1].wire() == seq![50u8, 4u8] + requested_ip.octets@,
    {
        let mut kind: Vec<u8> = Vec::new();
        kind.push(DhcpMessageType::Request.to_u8());
        let mut address: Vec<u8> = Vec::new();
        push_all(&mut address, requested_ip.as_bytes());
        let mut options: Vec<DhcpOption> = Vec::new();
        options.push(Self::option(OPTION_MESSAGE_TYPE, kind));
        options.push(Self::option(50, address));
        assert(options@[0].wire() =~= seq![53u8, 1u8, 3u8]);
        assert(options@[1].wire() =~= seq![50u8, 4u8] + requested_ip.octets@);
        assert(mac_addr@.take(6) =~= mac_addr@);
        DhcpPacket {
            op: 1,
            htype: 1,
            hlen: 6,
            hops: 0,
            xid: TRANSACTION_ID,
            secs: 0,
            flags: 0,
            ciaddr: IpAddress::new([0, 0, 0, 0]),
            yiaddr: requested_ip,
            siaddr: IpAddress::new([0, 0, 0, 0]),
            giaddr: IpAddress::new([0, 0, 0, 0]),
            chaddr: Self::hardware_field(mac_addr.as_slice()),
            options,
        }
    }

    pub fn to_bytes(&self) -> (r: Vec<u8>)
        ensures
            r@ == self.wire(),
    {
        let mut bytes: Vec<u8> = Vec::new();
        bytes.push(self.op);
        bytes.push(self.htype);
        bytes.push(self.hlen);
        bytes.push(self.hops);
        push_u32(&mut bytes, self.xid);
        push_u16(&mut bytes, self.secs);
        push_u16(&mut bytes, self.flags);
        push_all(&mut bytes, self.ciaddr.as_bytes());
        push_all(&mut bytes, self.yiaddr.as_bytes());
        push_all(&mut bytes, self.siaddr.as_bytes());
        push_all(&mut bytes, self.giaddr.as_bytes());
        push_all(&mut bytes, self.chaddr.as_slice());
        bytes.push(99);
        bytes.push(130);
        bytes.push(83);
        bytes.push(99);
        assert(bytes@ =~= self.fixed_wire());
        let mut k: usize = 0;
        while k < self.options.len()
            invariant
                k <= self.options@.len(),
                bytes@ == self.fixed_wire() + options_wire(self.options@.take(k as int)),
            decreases self.options@.len() - k,
        {
            let option = &self.options[k];
            bytes.push(option.code);
            bytes.push(option.length);
            push_all(&mut bytes, option.data.as_slice());
            proof {
                assert(self.options@.take(k + 1).drop_last() =~= self.options@.take(k as int));
                assert(bytes@ =~= self.fixed_wire() + options_wire(self.options@.take(k + 1)));
            }
            k = k + 1;
        }
        assert(self.options@.take(self.options@.len() as int) == self.options@);
        bytes.push(OPTION_END);
        bytes
    }

    /// Reads a message; a buffer shorter than 240 bytes gives `None`.
    pub fn from_bytes(bytes: &[u8]) -> (r: Option<Self>)
        ensures
            r is None <==> bytes@.len() < OPTIONS_OFFSET,
            r matches Some(p) ==> p.decodes(bytes@),
    {
        if bytes.len() < OPTIONS_OFFSET {
            return None;
        }
        let mut chaddr: [u8; 16] = [0;16];
        let mut c: usize = 0;
        while c < 16
            invariant
                c <= 16,
                bytes@.len() >= OPTIONS_OFFSET,
                forall|j: int| 0 <= j < c ==> chaddr@[j] == bytes@[28 + j],
            decreases 16 - c,
        {
            chaddr[c] = bytes[28 + c];
            c = c + 1;
        }
        assert(chaddr@ =~= bytes@.subrange(28, 44));
        let mut options: Vec<DhcpOption> = Vec::new();
        let n = bytes.len();
        let mut i: usize = OPTIONS_OFFSET;
        let mut done = false;
        while i < n && !done
            invariant
                n == bytes@.len(),
                OPTIONS_OFFSET <= i,
                i <= n || done,
                parsed_options(bytes@, OPTIONS_OFFSET as nat) == option_wires(options@) + (if done {
                    Seq::<Seq<u8>>::empty()
                } else {
                    parsed_options(bytes@, i as nat)
                }),
                forall|k: int|
                    0 <= k < options@.len() ==> (#[trigger] options@[k]).data@.len()
                        == options@[k].length,
            decreases n - i + (if done { 0int } else { 1int }),
        {
            let code = bytes[i];
            if code == OPTION_END {
                done = true;
            } else if code == 0 {
                i = i + 1;
            } else if n - i < 2 {
                done = true;
            } else {
                let length = bytes[i + 1];
                if n - i - 2 < length as usize {
                    done = true;
                } else {
                    let data = copy_range(bytes, i + 2, i + 2 + length as usize);
                    let ghost before = options@;
                    options.push(DhcpOption { code, length, data });
                    proof {
                        assert(options@.last().wire() =~= bytes@.subrange(
                            i as int,
                            i + 2 + length,
                        ));
                        assert(option_wires(options@) =~= option_wires(before) + seq![
                            options@.last().wire(),
                        ]);
                    }
                    i = i + 2 + length as usize;
                }
            }
        }
        assert(option_wires(options@) + Seq::<Seq<u8>>::empty() =~= option_wires(options@));
        Some(
            DhcpPacket {
                op: bytes[0],
                htype: bytes[1],
                hlen: bytes[2],
                hops: bytes[3],
                xid: u32_from_be(bytes[4], bytes[5], bytes[6], bytes[7]),
                secs: u16_from_be(bytes[8], bytes[9]),
                flags: u16_from_be(bytes[10], bytes[11]),
                ciaddr: IpAddress::new(read4(bytes, 12)),
                yiaddr: IpAddress::new(read4(bytes, 16)),
                siaddr: IpAddress::new(read4(bytes, 20)),
                giaddr: IpAddress::new(read4(bytes, 24)),
                chaddr,
                options,
            },
        )
    }

    /// The message type that the options say.
    pub fn get_message_type(&self) -> (r: DhcpMessageType)
        ensures
            r == message_type(self.options@),
    {
        let mut k: usize = 0;
        assert(self.options@.skip(0) =~= self.options@);
        while k < self.options.len()
            invariant
                k <= self.options@.len(),
                message_type(self.options@) == message_type(self.options@.skip(k as int)),
            decreases self.options@.len() - k,
        {
            let option = &self.options[k];
            if option.code == OPTION_MESSAGE_TYPE && option.data.len() > 0 {
                return DhcpMessageType::from_u8(option.data[0]);
            }
            proof {
                assert(self.options@.skip(k as int).skip(1) =~= self.options@.skip(k + 1));
            }
            k = k + 1;
        }
        DhcpMessageType::Discover
    }

    /// Reads a message: as `from_bytes`.
    pub fn parse(data: &[u8]) -> (r: Option<Self>)
        ensures
            r is None <==> data@.len() < OPTIONS_OFFSET,
            r matches Some(p) ==> p.decodes(data@),
    {
        Self::from_bytes(data)
    }
}

/// What the client does next.
#[derive(Debug)]
pub enum DhcpAction {
    /// Send this message to the server.
    Send(Vec<u8>),
    /// The lease is granted: the interface has the address.
    Configured(IpAddress),
    /// Nothing.
    Ignore,
}

/// The discover message with which the interface starts to look for a lease.
pub fn start_dhcp_discovery(interface: &NetworkInterface) -> (r: Result<Vec<u8>, NetworkError>)
    ensures
        r matches Ok(bytes) && exists|p: DhcpPacket|
            p.client_message(interface.mac_address.0@, seq![0u8, 0u8, 0u8, 0u8]) && p.options@.len()
                == 2 && p.options@[0].wire() == seq![53u8, 1u8, 1u8] && p.options@[1].wire()
                == seq![55u8, 4u8, 1u8, 3u8, 6u8, 15u8] && bytes@ == p.wire(),
{
    let discover = DhcpPacket::new_discover(interface.mac_address.as_bytes());
    Ok(discover.to_bytes())
}

/// Handles a datagram for the client port. An offer is answered by the
/// request for the offered address; an acknowledgment gives the interface
/// its address; anything else, also what is no DHCP message, is ignored.
pub fn handle_dhcp_packet(udp_packet: &UdpPacket, interface: &mut NetworkInterface) -> (r: Result<
    DhcpAction,
    NetworkError,
>)
    ensures
        r is Ok,
        final(interface).mac_address == old(interface).mac_address,
        final(interface).netmask == old(interface).netmask,
        final(interface).gateway == old(interface).gateway,
        final(interface).rx_buffer == old(interface).rx_buffer,
        final(interface).tx_buffer == old(interface).tx_buffer,
        udp_packet.payload@.len() < OPTIONS_OFFSET ==> (r matches Ok(DhcpAction::Ignore))
            && final(interface).ip_address == old(interface).ip_address,
        udp_packet.payload@.len() >= OPTIONS_OFFSET ==> exists|p: DhcpPacket|
            p.decodes(udp_packet.payload@) && handled(
                p,
                old(interface),
                final(interface),
                r->Ok_0,
            ),
{
    match DhcpPacket::parse(udp_packet.payload.as_slice()) {
        Some(packet) => {
            let action = match packet.get_message_type() {
                DhcpMessageType::Offer => {
                    let request = DhcpPacket::new_request(
                        interface.mac_address.octets(),
                        packet.yiaddr,
                    );
                    DhcpAction::Send(request.to_bytes())
                },
                DhcpMessageType::Ack => {
                    interface.set_ip_address(packet.yiaddr);
                    DhcpAction::Configured(packet.yiaddr)
                },
                _ => DhcpAction::Ignore,
            };
            assert(handled(packet, old(interface), interface, action));
            Ok(action)
        },
        None => Ok(DhcpAction::Ignore),
    }
}

/// What the client does with the received message `p`.
pub open spec fn handled(
    p: DhcpPacket,
    before: &NetworkInterface,
    after: &NetworkInterface,
    action: DhcpAction,
) -> bool {
    match message_type(p.options@) {
        DhcpMessageType::Offer => {
            &&& after.ip_address == before.ip_address
            &&& action matches DhcpAction::Send(bytes) && exists|q: DhcpPacket|
                q.client_message(before.mac_address.0@, p.yiaddr.octets@) && q.options@.len() == 2
                    && q.options@[0].wire() == seq![53u8, 1u8, 3u8] && q.options@[1].wire() == seq![
                    50u8,
                    4u8,
                ] + p.yiaddr.octets@ && bytes@ == q.wire()
        },
        DhcpMessageType::Ack => after.ip_address == p.yiaddr && action == DhcpAction::Configured(
            p.yiaddr,
        ),
        _ => after.ip_address == before.ip_address && action matches DhcpAction::Ignore,
    }
}

/// Where the client stands.
#[derive(Debug, Clone, Copy, PartialEq, Eq, Structural)]
pub enum ClientState {
    /// The discover message is out; an offer is awaited.
    Discovering,
    /// The request is out; the acknowledgment is awaited.
    Requesting,
    /// The lease is granted.
    Bound,
    /// No lease: an answer did not come or could not be read.
    Failed,
}

/// The DHCP client: discover, offer, request, acknowledgment.
#[derive(Debug)]
pub struct DhcpClient {
    pub state: ClientState,
    pub mac: [u8; 6],
}

/// Starts a client for the interface: it is discovering, and the answer is
/// the discover message to send to the server port by broadcast.
pub fn start_client(interface: &NetworkInterface) -> (r: Result<(DhcpClient, Vec<u8>), NetworkError>)
    ensures
        r matches Ok(started) && started.0.state == ClientState::Discovering && started.0.mac
            == interface.mac_address.0 && exists|p: DhcpPacket|
            p.client_message(interface.mac_address.0@, seq![0u8, 0u8, 0u8, 0u8]) && p.options@.len()
                == 2 && p.options@[0].wire() == seq![53u8, 1u8, 1u8] && p.options@[1].wire()
                == seq![55u8, 4u8, 1u8, 3u8, 6u8, 15u8] && started.1@ == p.wire(),
{
    let discover = DhcpPacket::new_discover(interface.mac_address.as_bytes());
    let client = DhcpClient { state: ClientState::Discovering, mac: interface.mac_address.octets() };
    Ok((client, discover.to_bytes()))
}

impl DhcpClient {
    /// The answer did not come in time: the client has failed, unless it is bound.
    pub fn on_timeout(&mut self)
        ensures
            final(self).mac == old(self).mac,
            final(self).state == (if old(self).state == ClientState::Bound {
                ClientState::Bound
            } else {
                ClientState::Failed
            }),
    {
        if self.state != ClientState::Bound {
            self.state = ClientState::Failed;
        }
    }

    /// An answer of `bytes` came. While discovering, a readable message
    /// counts as the offer: the client requests the offered address with
    /// its discover message, retyped as a request, and awaits the
    /// acknowledgment. While requesting, a readable message counts as the
    /// acknowledgment: the interface gets the address and the client is
    /// bound. An unreadable message fails the client. A client that is
    /// bound or has failed ignores everything.
    pub fn on_receive(&mut self, bytes: &[u8], interface: &mut NetworkInterface) -> (r: DhcpAction)
        ensures
            final(self).mac == old(self).mac,
            final(interface).mac_address == old(interface).mac_address,
            final(interface).netmask == old(interface).netmask,
            final(interface).gateway == old(interface).gateway,
            final(interface).rx_buffer == old(interface).rx_buffer,
            final(interface).tx_buffer == old(interface).tx_buffer,
            old(self).state == ClientState::Bound || old(self).state == ClientState::Failed ==> (r
                matches DhcpAction::Ignore) && final(self).state == old(self).state && final(
                interface).ip_address == old(interface).ip_address,
            (old(self).state == ClientState::Discovering || old(self).state
                == ClientState::Requesting) && bytes@.len() < OPTIONS_OFFSET ==> (r
                matches DhcpAction::Ignore) && final(self).state == ClientState::Failed && final(
                interface).ip_address == old(interface).ip_address,
            old(self).state == ClientState::Discovering && bytes@.len() >= OPTIONS_OFFSET ==>
                final(self).state == ClientState::Requesting
                && final(interface).ip_address == old(interface).ip_address
                && (r matches DhcpAction::Send(out) && exists|q: DhcpPacket|
                q.client_message(old(self).mac@, bytes@.subrange(16, 20)) && q.options@.len() == 2
                    && q.options@[0].wire() == seq![53u8, 1u8, 3u8] && q.options@[1].wire()
                    == seq![55u8, 4u8, 1u8, 3u8, 6u8, 15u8] && out@ == q.wire()),
            old(self).state == ClientState::Requesting && bytes@.len() >= OPTIONS_OFFSET ==>
                final(self).state == ClientState::Bound && final(interface).ip_address.octets@
                == bytes@.subrange(16, 20) && r == DhcpAction::Configured(
                final(interface).ip_address,
            ),
    {
        match self.state {
            ClientState::Discovering => {
                match DhcpPacket::from_bytes(bytes) {
                    Some(offer) => {
                        let mut request = DhcpPacket::new_discover(self.mac.as_slice());
                        let mut kind: Vec<u8> = Vec::new();
                        kind.push(DhcpMessageType::Request.to_u8());
                        request.options[0].data = kind;
                        request.yiaddr = offer.yiaddr;
                        self.state = ClientState::Requesting;
                        assert(request.options@[0].wire() =~= seq![53u8, 1u8, 3u8]);
                        assert(self.mac@.take(6) =~= self.mac@);
                        DhcpAction::Send(request.to_bytes())
                    },
                    None => {
                        self.state = ClientState::Failed;
                        DhcpAction::Ignore
                    },
                }
            },
            ClientState::Requesting => {
                match DhcpPacket::from_bytes(bytes) {
                    Some(ack) => {
                        interface.set_ip_address(ack.yiaddr);
                        self.state = ClientState::Bound;
                        DhcpAction::Configured(ack.yiaddr)
                    },
                    None => {
                        self.state = ClientState::Failed;
                        DhcpAction::Ignore
                    },
                }
            },
            _ => DhcpAction::Ignore,
        }
    }
}

} // verus!
