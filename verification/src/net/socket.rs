//! Sockets and the registry that owns them.

use vstd::prelude::*;
use vstd::std_specs::cmp::PartialEqSpec;
use crate::net::{lemma_ip_eq, IpAddress, NetworkError};
use crate::net::ip::{datagram, IpProtocol};
use crate::net::tcp::{
    push_flags, syn_flags, Reaction, TcpConnection, TcpSegment, TcpState, DEFAULT_WINDOW,
    INITIAL_SEQUENCE_NUMBER,
};
use crate::net::udp::{sent_wire, Delivery, UdpDemux};
use crate::net::wire::{copy_range, push_all};

verus! {

#[derive(Debug, Clone, Copy, PartialEq, Eq, Structural)]
pub enum SocketType {
    /// TCP.
    Stream,
    /// UDP.
    Dgram,
}

#[derive(Debug, Clone, Copy, PartialEq, Eq, Structural)]
pub enum SocketState {
    Closed,
    Listening,
    Connected,
    Error,
}

pub type SocketId = u32;

#[derive(Debug)]
pub struct Socket {
    pub id: SocketId,
    pub socket_type: SocketType,
    pub state: SocketState,
    pub local_addr: IpAddress,
    pub local_port: u16,
    pub remote_addr: Option<IpAddress>,
    pub remote_port: Option<u16>,
    pub receive_buffer: Vec<u8>,
    pub tcp_connection: Option<TcpConnection>,
}

/// What a socket hands to the network when it sends.
#[derive(Debug)]
pub enum Outgoing {
    /// A TCP segment, to be wrapped in an IP packet.
    Segment(TcpSegment),
    /// A whole IP packet with a UDP datagram.
    Datagram(Vec<u8>),
}

/// What a successful receive gives: the number of bytes written to the
/// caller's buffer and the remote endpoint of the socket.
pub type Received = (usize, IpAddress, u16);

/// Whether `c` is a closed connection at the given local endpoint, as new.
pub open spec fn closed_connection(c: TcpConnection, addr: IpAddress, port: u16) -> bool {
    &&& c.state == TcpState::Closed
    &&& c.local_addr == addr
    &&& c.local_port == port
    &&& c.remote_addr.octets@ == seq![0u8, 0u8, 0u8, 0u8]
    &&& c.remote_port == 0
    &&& c.sequence_number == 0
    &&& c.acknowledgment_number == 0
    &&& c.window_size == DEFAULT_WINDOW
    &&& c.receive_buffer@.len() == 0
}

/// The smaller of two lengths.
pub open spec fn shorter(a: nat, b: nat) -> nat {
    if a <= b {
        a
    } else {
        b
    }
}

impl Socket {
    /// Whether `self` is a socket as `new` makes it.
    pub open spec fn fresh(&self, id: SocketId, socket_type: SocketType) -> bool {
        &&& self.id == id
        &&& self.socket_type == socket_type
        &&& self.state == SocketState::Closed
        &&& self.local_addr.octets@ == seq![0u8, 0u8, 0u8, 0u8]
        &&& self.local_port == 0
        &&& self.remote_addr is None
        &&& self.remote_port is None
        &&& self.receive_buffer@.len() == 0
        &&& self.tcp_connection is None
    }

    /// A closed socket without endpoints.
    pub fn new(id: SocketId, socket_type: SocketType) -> (r: Result<Self, NetworkError>)
        ensures
            r matches Ok(s) && s.fresh(id, socket_type),
    {
        Ok(
            Socket {
                id,
                socket_type,
                state: SocketState::Closed,
                local_addr: IpAddress::new([0, 0, 0, 0]),
                local_port: 0,
                remote_addr: None,
                remote_port: None,
                receive_buffer: Vec::new(),
                tcp_connection: None,
            },
        )
    }

    /// What `bind` does to a socket and the datagram table.
    pub open spec fn bound(
        before: &Socket,
        after: &Socket,
        ports: Map<u16, u32>,
        ports_after: Map<u16, u32>,
        addr: IpAddress,
        port: u16,
        r: Result<(), NetworkError>,
    ) -> bool {
        if before.state != SocketState::Closed {
            r == Err::<(), NetworkError>(NetworkError::Other("Socket already bound or connected"))
                && *after == *before && ports_after == ports
        } else if before.socket_type == SocketType::Dgram && ports.contains_key(port) {
            r == Err::<(), NetworkError>(NetworkError::AddressInUse) && *after == *before
                && ports_after == ports
        } else if before.socket_type == SocketType::Dgram {
            &&& r is Ok
            &&& *after == (Socket { local_addr: addr, local_port: port, ..*before })
            &&& ports_after == ports.insert(port, before.id)
        } else {
            &&& r is Ok
            &&& after.tcp_connection matches Some(c) && closed_connection(c, addr, port)
            &&& *after == (Socket {
                local_addr: addr,
                local_port: port,
                tcp_connection: after.tcp_connection,
                ..*before
            })
            &&& ports_after == ports
        }
    }

    /// Records the local endpoint of a closed socket. A datagram socket
    /// takes the port in `demux`, and fails with `AddressInUse` if it is
    /// taken; a stream socket gets a closed connection at the endpoint. On
    /// failure nothing changes.
    pub fn bind(&mut self, demux: &mut UdpDemux, addr: IpAddress, port: u16) -> (r: Result<
        (),
        NetworkError,
    >)
        ensures
            Self::bound(old(self), final(self), old(demux)@, final(demux)@, addr, port, r),
    {
        if self.state != SocketState::Closed {
            return Err(NetworkError::Other("Socket already bound or connected"));
        }
        match self.socket_type {
            SocketType::Dgram => {
                match crate::net::udp::bind(demux, port, self.id) {
                    Ok(()) => {},
                    Err(e) => {
                        return Err(e);
                    },
                }
                self.local_addr = addr;
                self.local_port = port;
            },
            SocketType::Stream => {
                self.local_addr = addr;
                self.local_port = port;
                self.tcp_connection = Some(TcpConnection::new(addr, port));
            },
        }
        Ok(())
    }

    /// Why `listen` fails on a socket, if it does: only stream sockets
    /// listen; the socket must be closed and bound, and its connection closed.
    pub open spec fn listen_error(before: &Socket) -> Option<NetworkError> {
        if before.socket_type != SocketType::Stream {
            Some(NetworkError::Other("Only TCP sockets can listen"))
        } else if before.state != SocketState::Closed {
            Some(NetworkError::Other("Socket already in use"))
        } else if before.tcp_connection is None {
            Some(NetworkError::Other("Socket not bound"))
        } else if before.tcp_connection->0.state != TcpState::Closed {
            Some(NetworkError::Other("Connection not in closed state"))
        } else {
            None
        }
    }

    /// What `listen` does to a socket.
    pub open spec fn listened(before: &Socket, after: &Socket, r: Result<(), NetworkError>) -> bool {
        match Self::listen_error(before) {
            Some(e) => r == Err::<(), NetworkError>(e) && *after == *before,
            None => {
                &&& r is Ok
                &&& *after == (Socket {
                    state: SocketState::Listening,
                    tcp_connection: Some(
                        TcpConnection { state: TcpState::Listen, ..before.tcp_connection->0 },
                    ),
                    ..*before
                })
            },
        }
    }

    /// Starts to listen: a closed, bound stream socket whose connection is
    /// closed becomes listening. Any other socket fails and stays as it is.
    pub fn listen(&mut self) -> (r: Result<(), NetworkError>)
        ensures
            Self::listened(old(self), final(self), r),
    {
        if self.socket_type != SocketType::Stream {
            return Err(NetworkError::Other("Only TCP sockets can listen"));
        }
        if self.state != SocketState::Closed {
            return Err(NetworkError::Other("Socket already in use"));
        }
        match &mut self.tcp_connection {
            Some(conn) => {
                match conn.start_listen() {
                    Ok(()) => {},
                    Err(e) => {
                        return Err(e);
                    },
                }
            },
            None => {
                return Err(NetworkError::Other("Socket not bound"));
            },
        }
        self.state = SocketState::Listening;
        Ok(())
    }

    /// Why `connect` fails on a socket, if it does: the socket must be
    /// closed, and a stream socket bound with a closed connection.
    pub open spec fn connect_error(before: &Socket) -> Option<NetworkError> {
        if before.state != SocketState::Closed {
            Some(NetworkError::Other("Socket already connected"))
        } else if before.socket_type == SocketType::Dgram {
            None
        } else if before.tcp_connection is None {
            Some(NetworkError::Other("Socket not bound"))
        } else if before.tcp_connection->0.state != TcpState::Closed {
            Some(NetworkError::Other("Connection already exists"))
        } else {
            None
        }
    }

    /// What `connect` does to a socket.
    pub open spec fn connected(
        before: &Socket,
        after: &Socket,
        addr: IpAddress,
        port: u16,
        r: Result<Option<TcpSegment>, NetworkError>,
    ) -> bool {
        match Self::connect_error(before) {
            Some(e) => r == Err::<Option<TcpSegment>, NetworkError>(e) && *after == *before,
            None => if before.socket_type == SocketType::Dgram {
                &&& r == Ok::<Option<TcpSegment>, NetworkError>(None)
                &&& *after == (Socket {
                    remote_addr: Some(addr),
                    remote_port: Some(port),
                    state: SocketState::Connected,
                    ..*before
                })
            } else {
                &&& r matches Ok(Some(syn))
                &&& after.tcp_connection matches Some(conn)
                &&& conn.state == TcpState::SynSent
                &&& conn.remote_addr == addr
                &&& conn.remote_port == port
                &&& conn.sequence_number == crate::net::tcp::seq_add(INITIAL_SEQUENCE_NUMBER, 1)
                &&& conn.acknowledgment_number == 0
                &&& conn.receive_buffer == before.tcp_connection->0.receive_buffer
                &&& conn.same_endpoint(&before.tcp_connection->0)
                &&& conn.emits(&r->Ok_0->0, INITIAL_SEQUENCE_NUMBER, syn_flags(), Seq::empty())
                &&& *after == (Socket {
                    remote_addr: Some(addr),
                    remote_port: Some(port),
                    state: SocketState::Connected,
                    tcp_connection: after.tcp_connection,
                    ..*before
                })
            },
        }
    }

    /// Connects a closed socket to a remote endpoint. A datagram socket
    /// only records the endpoint. A bound stream socket opens its
    /// connection and returns the SYN to send. Any other socket fails and
    /// stays as it is.
    pub fn connect(&mut self, addr: IpAddress, port: u16) -> (r: Result<
        Option<TcpSegment>,
        NetworkError,
    >)
        ensures
            Self::connected(old(self), final(self), addr, port, r),
    {
        if self.state != SocketState::Closed {
            return Err(NetworkError::Other("Socket already connected"));
        }
        match self.socket_type {
            SocketType::Stream => {
                let syn = match &mut self.tcp_connection {
                    Some(conn) => {
                        match conn.connect(addr, port) {
                            Ok(syn) => syn,
                            Err(e) => {
                                return Err(e);
                            },
                        }
                    },
                    None => {
                        return Err(NetworkError::Other("Socket not bound"));
                    },
                };
                self.remote_addr = Some(addr);
                self.remote_port = Some(port);
                self.state = SocketState::Connected;
                Ok(Some(syn))
            },
            SocketType::Dgram => {
                self.remote_addr = Some(addr);
                self.remote_port = Some(port);
                self.state = SocketState::Connected;
                Ok(None)
            },
        }
    }

    /// Why `send` fails on a socket, if it does: a stream socket must be
    /// connected and its connection established; a datagram socket must
    /// have a remote endpoint.
    pub open spec fn send_error(before: &Socket) -> Option<NetworkError> {
        match before.socket_type {
            SocketType::Stream => if before.state != SocketState::Connected {
                Some(NetworkError::NotConnected)
            } else if before.tcp_connection is None {
                Some(NetworkError::Other("Socket not initialized"))
            } else if before.tcp_connection->0.state != TcpState::Established {
                Some(NetworkError::NotConnected)
            } else {
                None
            },
            SocketType::Dgram => if before.remote_addr is None {
                Some(NetworkError::Other("Remote address not set"))
            } else if before.remote_port is None {
                Some(NetworkError::Other("Remote port not set"))
            } else {
                None
            },
        }
    }

    /// What `send` does to a socket.
    pub open spec fn sent(
        before: &Socket,
        after: &Socket,
        data: Seq<u8>,
        r: Result<Outgoing, NetworkError>,
    ) -> bool {
        match Self::send_error(before) {
            Some(e) => r == Err::<Outgoing, NetworkError>(e) && *after == *before,
            None => match before.socket_type {
                SocketType::Stream => {
                    &&& r matches Ok(Outgoing::Segment(s))
                    &&& before.tcp_connection->0.emits(
                        &r->Ok_0->Segment_0,
                        before.tcp_connection->0.sequence_number,
                        push_flags(),
                        data,
                    )
                    &&& *after == (Socket {
                        tcp_connection: Some(
                            TcpConnection {
                                sequence_number: crate::net::tcp::seq_add(
                                    before.tcp_connection->0.sequence_number,
                                    data.len(),
                                ),
                                ..before.tcp_connection->0
                            },
                        ),
                        ..*before
                    })
                },
                SocketType::Dgram => {
                    &&& *after == *before
                    &&& r matches Ok(Outgoing::Datagram(d)) && d@ == datagram(
                        before.local_addr,
                        before.remote_addr->0,
                        IpProtocol::Udp,
                        sent_wire(
                            before.local_port,
                            before.remote_port->0,
                            data,
                            before.local_addr,
                            before.remote_addr->0,
                        ),
                    )
                },
            },
        }
    }

    /// Sends `data` to the remote endpoint: on a connected stream socket
    /// as the next segment of the connection, on a datagram socket with a
    /// remote endpoint as one datagram. The answer is what goes to the
    /// network. A stream socket that is not connected fails with
    /// `NotConnected`.
    pub fn send(&mut self, data: &[u8]) -> (r: Result<Outgoing, NetworkError>)
        ensures
            Self::sent(old(self), final(self), data@, r),
    {
        match self.socket_type {
            SocketType::Stream => {
                if self.state != SocketState::Connected {
                    return Err(NetworkError::NotConnected);
                }
                match &mut self.tcp_connection {
                    Some(conn) => {
                        match conn.send(data) {
                            Ok(segment) => Ok(Outgoing::Segment(segment)),
                            Err(e) => Err(e),
                        }
                    },
                    None => Err(NetworkError::Other("Socket not initialized")),
                }
            },
            SocketType::Dgram => {
                match self.remote_addr {
                    Some(addr) => {
                        match self.remote_port {
                            Some(port) => Ok(
                                Outgoing::Datagram(
                                    crate::net::udp::send(
                                        self.local_addr,
                                        self.local_port,
                                        addr,
                                        port,
                                        data,
                                    ),
                                ),
                            ),
                            None => Err(NetworkError::Other("Remote port not set")),
                        }
                    },
                    None => Err(NetworkError::Other("Remote address not set")),
                }
            },
        }
    }

    /// Sends `data` as one datagram to the given endpoint; a stream socket
    /// fails. The socket stays as it is. The answer is the IP packet to send.
    pub fn send_to(&mut self, data: &[u8], addr: IpAddress, port: u16) -> (r: Result<
        Vec<u8>,
        NetworkError,
    >)
        ensures
            *final(self) == *old(self),
            old(self).socket_type == SocketType::Stream ==> r == Err::<Vec<u8>, NetworkError>(
                NetworkError::Other("Operation not supported for TCP sockets"),
            ),
            old(self).socket_type == SocketType::Dgram ==> (r matches Ok(d) && d@ == datagram(
                old(self).local_addr,
                addr,
                IpProtocol::Udp,
                sent_wire(old(self).local_port, port, data@, old(self).local_addr, addr),
            )),
    {
        if self.socket_type != SocketType::Dgram {
            return Err(NetworkError::Other("Operation not supported for TCP sockets"));
        }
        Ok(crate::net::udp::send(self.local_addr, self.local_port, addr, port, data))
    }

    /// The remote endpoint that a receive reports: 0.0.0.0 and port 0 where
    /// the socket has none.
    pub open spec fn reported_peer(&self, addr: IpAddress, port: u16) -> bool {
        &&& match self.remote_addr {
            Some(a) => addr == a,
            None => addr.octets@ == seq![0u8, 0u8, 0u8, 0u8],
        }
        &&& match self.remote_port {
            Some(p) => port == p,
            None => port == 0,
        }
    }

    /// What one poll of `recv_from` does.
    pub open spec fn received(
        before: &Socket,
        after: &Socket,
        buffer: Seq<u8>,
        buffer_after: Seq<u8>,
        waited: u64,
        timeout: u64,
        r: Result<Option<Received>, NetworkError>,
    ) -> bool {
        if before.socket_type != SocketType::Dgram {
            r == Err::<Option<Received>, NetworkError>(
                NetworkError::Other("Operation not supported for TCP sockets"),
            ) && *after == *before && buffer_after == buffer
        } else if before.receive_buffer@.len() > 0 {
            let n = shorter(buffer.len(), before.receive_buffer@.len());
            &&& r matches Ok(Some(got))
            &&& got.0 == n
            &&& before.reported_peer(got.1, got.2)
            &&& buffer_after == before.receive_buffer@.take(n as int) + buffer.skip(n as int)
            &&& after.receive_buffer@ == before.receive_buffer@.skip(n as int)
            &&& *after == (Socket { receive_buffer: after.receive_buffer, ..*before })
        } else if waited > timeout {
            r == Err::<Option<Received>, NetworkError>(NetworkError::Timeout) && *after == *before
                && buffer_after == buffer
        } else {
            r == Ok::<Option<Received>, NetworkError>(None) && *after == *before && buffer_after
                == buffer
        }
    }

    /// One poll for received data, by a caller that has waited `waited`
    /// milliseconds of at most `timeout`. If data is there, as much of it
    /// as `buffer` takes moves from the front of the receive buffer to the
    /// front of `buffer`. If none is there, the answer is `Timeout` once
    /// the wait is over, and `Ok(None)` before: the caller yields and
    /// polls again. A timeout leaves the socket as it is.
    pub fn recv_from(&mut self, buffer: &mut [u8], waited: u64, timeout: u64) -> (r: Result<
        Option<Received>,
        NetworkError,
    >)
        ensures
            Self::received(old(self), final(self), old(buffer)@, final(buffer)@, waited, timeout, r),
    {
        if self.socket_type != SocketType::Dgram {
            return Err(NetworkError::Other("Operation not supported for TCP sockets"));
        }
        if self.receive_buffer.len() == 0 {
            if waited > timeout {
                return Err(NetworkError::Timeout);
            }
            return Ok(None);
        }
        let len: usize = if buffer.len() <= self.receive_buffer.len() {
            buffer.len()
        } else {
            self.receive_buffer.len()
        };
        let mut i: usize = 0;
        while i < len
            invariant
                i <= len,
                len <= buffer@.len(),
                len <= self.receive_buffer@.len(),
                buffer@.len() == old(buffer)@.len(),
                *self == *old(self),
                buffer@ == self.receive_buffer@.take(i as int) + old(buffer)@.skip(i as int),
            decreases len - i,
        {
            let byte = self.receive_buffer[i];
            buffer[i] = byte;
            i = i + 1;
        }
        let rest = copy_range(self.receive_buffer.as_slice(), len, self.receive_buffer.len());
        self.receive_buffer = rest;
        let addr = match self.remote_addr {
            Some(a) => a,
            None => IpAddress::new([0, 0, 0, 0]),
        };
        let port = match self.remote_port {
            Some(p) => p,
            None => 0,
        };
        Ok(Some((len, addr, port)))
    }

    /// Takes a received datagram: its data is appended to the receive
    /// buffer if the socket has no remote address or the datagram comes
    /// from it; otherwise it is dropped.
    pub fn handle_udp_data(&mut self, data: &[u8], src_ip: IpAddress, src_port: u16)
        ensures
            final(self).receive_buffer@
                == (if old(self).remote_addr is None || old(self).remote_addr == Some(src_ip) {
                old(self).receive_buffer@ + data@
            } else {
                old(self).receive_buffer@
            }),
            *final(self) == (Socket { receive_buffer: final(self).receive_buffer, ..*old(self) }),
    {
        let takes = match self.remote_addr {
            Some(a) => {
                proof {
                    lemma_ip_eq(a, src_ip);
                }
                a == src_ip
            },
            None => true,
        };
        if takes {
            push_all(&mut self.receive_buffer, data);
        }
    }

    pub fn local_addr(&self) -> (r: IpAddress)
        ensures
            r == self.local_addr,
    {
        self.local_addr
    }

    pub fn state(&self) -> (r: SocketState)
        ensures
            r == self.state,
    {
        self.state
    }
}

/// Whether one of `sockets` has the id `id`.
pub open spec fn has_socket(sockets: Seq<Socket>, id: SocketId) -> bool {
    exists|i: int| 0 <= i < sockets.len() && (#[trigger] sockets[i]).id == id
}

/// The place of the socket with id `id` among `sockets`.
pub open spec fn index_of(sockets: Seq<Socket>, id: SocketId) -> int {
    choose|i: int| 0 <= i < sockets.len() && (#[trigger] sockets[i]).id == id
}

/// Whether a socket other than the one at place `except` has the local
/// endpoint `addr`, `port`.
pub open spec fn endpoint_taken(sockets: Seq<Socket>, except: int, addr: IpAddress, port: u16)
    -> bool {
    exists|j: int|
        0 <= j < sockets.len() && j != except && (#[trigger] sockets[j]).local_port == port
            && sockets[j].local_addr == addr
}

/// Whether `after` is `before` but for the socket at place `i`, which has kept its id.
pub open spec fn touched(before: Seq<Socket>, after: Seq<Socket>, i: int) -> bool {
    &&& after.len() == before.len()
    &&& 0 <= i < before.len()
    &&& after[i].id == before[i].id
    &&& forall|j: int| 0 <= j < before.len() && j != i ==> after[j] == before[j]
}

/// The registry of sockets. Ids count up from 1 and are never given twice.
pub struct SocketTable {
    sockets: Vec<Socket>,
    next_id: SocketId,
}

impl View for SocketTable {
    type V = Seq<Socket>;

    closed spec fn view(&self) -> Seq<Socket> {
        self.sockets@
    }
}

impl SocketTable {
    /// The id that the next socket gets.
    pub closed spec fn next_id(&self) -> SocketId {
        self.next_id
    }

    /// No two sockets share an id, and every id is below the next one.
    pub open spec fn wf(&self) -> bool {
        &&& forall|i: int, j: int|
            0 <= i < self@.len() && 0 <= j < self@.len() && i != j ==> (#[trigger] self@[i]).id != (
            #[trigger] self@[j]).id
        &&& forall|i: int| 0 <= i < self@.len() ==> (#[trigger] self@[i]).id < self.next_id()
    }

    pub fn new() -> (r: Self)
        ensures
            r@.len() == 0,
            r.next_id() == 1,
            r.wf(),
    {
        SocketTable { sockets: Vec::new(), next_id: 1 }
    }

    /// The number of sockets.
    pub fn len(&self) -> (r: usize)
        ensures
            r == self@.len(),
    {
        self.sockets.len()
    }

    /// The socket at place `i` of the registry.
    pub fn at(&self, i: usize) -> (r: &Socket)
        requires
            i < self@.len(),
        ensures
            *r == self@[i as int],
    {
        &self.sockets[i]
    }

    /// The place of the socket with id `id`.
    pub fn find(&self, id: SocketId) -> (r: Option<usize>)
        requires
            self.wf(),
        ensures
            r is Some <==> has_socket(self@, id),
            r matches Some(i) ==> i == index_of(self@, id) && i < self@.len() && self@[i as int].id
                == id,
    {
        let mut i: usize = 0;
        while i < self.sockets.len()
            invariant
                self.wf(),
                i <= self.sockets@.len(),
                forall|j: int| 0 <= j < i ==> (#[trigger] self.sockets@[j]).id != id,
            decreases self.sockets@.len() - i,
        {
            if self.sockets[i].id == id {
                assert(has_socket(self@, id));
                assert(self@[index_of(self@, id)].id == self@[i as int].id);
                return Some(i);
            }
            i = i + 1;
        }
        None
    }

    /// The socket with id `id`.
    pub fn get(&self, id: SocketId) -> (r: Option<&Socket>)
        requires
            self.wf(),
        ensures
            r is Some <==> has_socket(self@, id),
            r matches Some(s) ==> *s == self@[index_of(self@, id)],
    {
        match self.find(id) {
            Some(i) => Some(&self.sockets[i]),
            None => None,
        }
    }

    fn taken(&self, except: usize, addr: IpAddress, port: u16) -> (r: bool)
        ensures
            r == endpoint_taken(self@, except as int, addr, port),
    {
        let mut j: usize = 0;
        while j < self.sockets.len()
            invariant
                j <= self.sockets@.len(),
                forall|k: int|
                    0 <= k < j && k != except ==> !((#[trigger] self.sockets@[k]).local_port == port
                        && self.sockets@[k].local_addr == addr),
            decreases self.sockets@.len() - j,
        {
            proof {
                lemma_ip_eq(self.sockets@[j as int].local_addr, addr);
            }
            if j != except && self.sockets[j].local_port == port && self.sockets[j].local_addr
                == addr {
                return true;
            }
            j = j + 1;
        }
        false
    }
}

/// Creates a closed socket of the given type and registers it. The answer
/// is its id, the next in the count; when the count is used up the call
/// fails with `SocketError`.
pub fn socket(table: &mut SocketTable, socket_type: SocketType) -> (r: Result<SocketId, NetworkError>)
    requires
        old(table).wf(),
    ensures
        final(table).wf(),
        old(table).next_id() == u32::MAX ==> r == Err::<SocketId, NetworkError>(
            NetworkError::SocketError,
        ) && final(table)@ == old(table)@ && final(table).next_id() == old(table).next_id(),
        old(table).next_id() < u32::MAX ==> r == Ok::<SocketId, NetworkError>(old(table).next_id())
            && final(table).next_id() == old(table).next_id() + 1
                && final(table)@.len() == old(table)@.len() + 1
                && final(table)@.drop_last() == old(table)@ && final(table)@.last().fresh(
            old(table).next_id(),
            socket_type,
        ),
{
    if table.next_id == u32::MAX {
        return Err(NetworkError::SocketError);
    }
    let id = table.next_id;
    match Socket::new(id, socket_type) {
        Ok(s) => {
            table.sockets.push(s);
            table.next_id = id + 1;
            assert(table@.drop_last() =~= old(table)@);
            Ok(id)
        },
        Err(e) => Err(e),
    }
}

/// Binds socket `socket_id` to a local endpoint. An unknown id fails
/// with `SocketError`; an endpoint that another socket has, with
/// `AddressInUse`; otherwise see `Socket::bind`.
pub fn bind(
    table: &mut SocketTable,
    demux: &mut UdpDemux,
    socket_id: SocketId,
    addr: IpAddress,
    port: u16,
) -> (r: Result<(), NetworkError>)
    requires
        old(table).wf(),
    ensures
        final(table).wf(),
        final(table).next_id() == old(table).next_id(),
        !has_socket(old(table)@, socket_id) ==> r == Err::<(), NetworkError>(
            NetworkError::SocketError,
        ) && final(table)@ == old(table)@ && final(demux)@ == old(demux)@,
        has_socket(old(table)@, socket_id) ==> ({
            let i = index_of(old(table)@, socket_id);
            if endpoint_taken(old(table)@, i, addr, port) {
                r == Err::<(), NetworkError>(NetworkError::AddressInUse)
                    && final(table)@ == old(table)@ && final(demux)@ == old(demux)@
            } else {
                touched(old(table)@, final(table)@, i) && Socket::bound(
                    &old(table)@[i],
                    &final(table)@[i],
                    old(demux)@,
                    final(demux)@,
                    addr,
                    port,
                    r,
                )
            }
        }),
{
    match table.find(socket_id) {
        Some(i) => {
            if table.taken(i, addr, port) {
                return Err(NetworkError::AddressInUse);
            }
            table.sockets[i].bind(demux, addr, port)
        },
        None => Err(NetworkError::SocketError),
    }
}

/// Makes socket `socket_id` listen: see `Socket::listen`. An unknown id
/// fails with `SocketError`.
pub fn listen(table: &mut SocketTable, socket_id: SocketId) -> (r: Result<(), NetworkError>)
    requires
        old(table).wf(),
    ensures
        final(table).wf(),
        final(table).next_id() == old(table).next_id(),
        !has_socket(old(table)@, socket_id) ==> r == Err::<(), NetworkError>(
            NetworkError::SocketError,
        ) && final(table)@ == old(table)@,
        has_socket(old(table)@, socket_id) ==> ({
            let i = index_of(old(table)@, socket_id);
            touched(old(table)@, final(table)@, i) && Socket::listened(
                &old(table)@[i],
                &final(table)@[i],
                r,
            )
        }),
{
    match table.find(socket_id) {
        Some(i) => table.sockets[i].listen(),
        None => Err(NetworkError::SocketError),
    }
}

/// Connects socket `socket_id`: see `Socket::connect`. An unknown id
/// fails with `SocketError`.
pub fn connect(table: &mut SocketTable, socket_id: SocketId, addr: IpAddress, port: u16) -> (r:
    Result<Option<TcpSegment>, NetworkError>)
    requires
        old(table).wf(),
    ensures
        final(table).wf(),
        final(table).next_id() == old(table).next_id(),
        !has_socket(old(table)@, socket_id) ==> r == Err::<Option<TcpSegment>, NetworkError>(
            NetworkError::SocketError,
        ) && final(table)@ == old(table)@,
        has_socket(old(table)@, socket_id) ==> ({
            let i = index_of(old(table)@, socket_id);
            touched(old(table)@, final(table)@, i) && Socket::connected(
                &old(table)@[i],
                &final(table)@[i],
                addr,
                port,
                r,
            )
        }),
{
    match table.find(socket_id) {
        Some(i) => table.sockets[i].connect(addr, port),
        None => Err(NetworkError::SocketError),
    }
}

/// Sends `data` on socket `socket_id`: see `Socket::send`. An unknown id
/// fails with `SocketError`.
pub fn send(table: &mut SocketTable, socket_id: SocketId, data: &[u8]) -> (r: Result<
    Outgoing,
    NetworkError,
>)
    requires
        old(table).wf(),
    ensures
        final(table).wf(),
        final(table).next_id() == old(table).next_id(),
        !has_socket(old(table)@, socket_id) ==> r == Err::<Outgoing, NetworkError>(
            NetworkError::SocketError,
        ) && final(table)@ == old(table)@,
        has_socket(old(table)@, socket_id) ==> ({
            let i = index_of(old(table)@, socket_id);
            touched(old(table)@, final(table)@, i) && Socket::sent(
                &old(table)@[i],
                &final(table)@[i],
                data@,
                r,
            )
        }),
{
    match table.find(socket_id) {
        Some(i) => table.sockets[i].send(data),
        None => Err(NetworkError::SocketError),
    }
}

/// Sends `data` as one datagram from socket `socket_id`: see
/// `Socket::send_to`. The table stays as it is. An unknown id fails with
/// `SocketError`.
pub fn send_to(
    table: &mut SocketTable,
    socket_id: SocketId,
    data: &[u8],
    addr: IpAddress,
    port: u16,
) -> (r: Result<Vec<u8>, NetworkError>)
    requires
        old(table).wf(),
    ensures
        final(table).wf(),
        final(table).next_id() == old(table).next_id(),
        final(table)@ == old(table)@,
        !has_socket(old(table)@, socket_id) ==> r == Err::<Vec<u8>, NetworkError>(
            NetworkError::SocketError,
        ),
        has_socket(old(table)@, socket_id) ==> ({
            let s = old(table)@[index_of(old(table)@, socket_id)];
            &&& s.socket_type == SocketType::Stream ==> r == Err::<Vec<u8>, NetworkError>(
                NetworkError::Other("Operation not supported for TCP sockets"),
            )
            &&& s.socket_type == SocketType::Dgram ==> (r matches Ok(d) && d@ == datagram(
                s.local_addr,
                addr,
                IpProtocol::Udp,
                sent_wire(s.local_port, port, data@, s.local_addr, addr),
            ))
        }),
{
    match table.find(socket_id) {
        Some(i) => {
            let r = table.sockets[i].send_to(data, addr, port);
            assert(table@ =~= old(table)@);
            r
        },
        None => Err(NetworkError::SocketError),
    }
}

/// One poll for data on socket `socket_id`: see `Socket::recv_from`. An
/// unknown id fails with `SocketError`.
pub fn recv_from(
    table: &mut SocketTable,
    socket_id: SocketId,
    buffer: &mut [u8],
    waited: u64,
    timeout: u64,
) -> (r: Result<Option<Received>, NetworkError>)
    requires
        old(table).wf(),
    ensures
        final(table).wf(),
        final(table).next_id() == old(table).next_id(),
        !has_socket(old(table)@, socket_id) ==> r == Err::<Option<Received>, NetworkError>(
            NetworkError::SocketError,
        ) && final(table)@ == old(table)@ && final(buffer)@ == old(buffer)@,
        has_socket(old(table)@, socket_id) ==> ({
            let i = index_of(old(table)@, socket_id);
            touched(old(table)@, final(table)@, i) && Socket::received(
                &old(table)@[i],
                &final(table)@[i],
                old(buffer)@,
                final(buffer)@,
                waited,
                timeout,
                r,
            )
        }),
{
    match table.find(socket_id) {
        Some(i) => table.sockets[i].recv_from(buffer, waited, timeout),
        None => Err(NetworkError::SocketError),
    }
}

/// The milliseconds that `receive` waits at most.
pub const RECEIVE_TIMEOUT_MS: u64 = 1000;

/// One poll for data on socket `socket_id` with the standard timeout of
/// one second.
pub fn receive(table: &mut SocketTable, socket_id: SocketId, buffer: &mut [u8], waited: u64) -> (r:
    Result<Option<Received>, NetworkError>)
    requires
        old(table).wf(),
    ensures
        final(table).wf(),
        final(table).next_id() == old(table).next_id(),
        !has_socket(old(table)@, socket_id) ==> r == Err::<Option<Received>, NetworkError>(
            NetworkError::SocketError,
        ) && final(table)@ == old(table)@ && final(buffer)@ == old(buffer)@,
        has_socket(old(table)@, socket_id) ==> ({
            let i = index_of(old(table)@, socket_id);
            touched(old(table)@, final(table)@, i) && Socket::received(
                &old(table)@[i],
                &final(table)@[i],
                old(buffer)@,
                final(buffer)@,
                waited,
                RECEIVE_TIMEOUT_MS,
                r,
            )
        }),
{
    recv_from(table, socket_id, buffer, waited, RECEIVE_TIMEOUT_MS)
}

/// Takes socket `socket_id` out of the registry; an unknown id changes
/// nothing. The call always succeeds, and the id is not given again.
pub fn close(table: &mut SocketTable, socket_id: SocketId) -> (r: Result<(), NetworkError>)
    requires
        old(table).wf(),
    ensures
        r is Ok,
        final(table).wf(),
        final(table).next_id() == old(table).next_id(),
        !has_socket(final(table)@, socket_id),
        has_socket(old(table)@, socket_id) ==> final(table)@ == old(table)@.remove(
            index_of(old(table)@, socket_id),
        ),
        !has_socket(old(table)@, socket_id) ==> final(table)@ == old(table)@,
{
    match table.find(socket_id) {
        Some(i) => {
            let _ = table.sockets.remove(i);
            assert forall|j: int| 0 <= j < table@.len() implies (#[trigger] table@[j]).id
                != socket_id by {
                if j < i {
                    assert(table@[j] == old(table)@[j]);
                } else {
                    assert(table@[j] == old(table)@[j + 1]);
                }
            }
        },
        None => {},
    }
    Ok(())
}

/// The id of the first socket whose local port is `port`.
pub fn find_socket_by_port(table: &SocketTable, port: u16) -> (r: Option<SocketId>)
    ensures
        r is Some <==> exists|i: int| 0 <= i < table@.len() && (#[trigger] table@[i]).local_port
            == port,
        r matches Some(id) ==> exists|i: int|
            0 <= i < table@.len() && (#[trigger] table@[i]).local_port == port && table@[i].id == id
                && forall|j: int| 0 <= j < i ==> (#[trigger] table@[j]).local_port != port,
{
    let mut i: usize = 0;
    while i < table.sockets.len()
        invariant
            i <= table.sockets@.len(),
            forall|j: int| 0 <= j < i ==> (#[trigger] table.sockets@[j]).local_port != port,
        decreases table.sockets@.len() - i,
    {
        if table.sockets[i].local_port == port {
            return Some(table.sockets[i].id);
        }
        i = i + 1;
    }
    None
}

/// Hands a received datagram to the socket that the datagram table names.
/// If that socket is gone, the datagram is dropped.
pub fn deliver(table: &mut SocketTable, delivery: Delivery)
    requires
        old(table).wf(),
    ensures
        final(table).wf(),
        final(table).next_id() == old(table).next_id(),
        delivered(
            old(table)@,
            final(table)@,
            delivery.socket,
            delivery.payload@,
            delivery.source_ip,
        ),
{
    match table.find(delivery.socket) {
        Some(i) => {
            table.sockets[i].handle_udp_data(
                delivery.payload.as_slice(),
                delivery.source_ip,
                delivery.source_port,
            );
        },
        None => {},
    }
}

/// Whether the socket takes TCP segments for `port`: it is a stream socket
/// with a connection at that local port.
pub open spec fn serves_port(s: Socket, port: u16) -> bool {
    s.local_port == port && s.tcp_connection is Some
}

/// What handing the segment received from `source_ip` to the sockets
/// does: the first socket that serves its destination port reacts and may
/// answer; with no such socket nothing happens.
pub open spec fn dispatched(
    before: Seq<Socket>,
    after: Seq<Socket>,
    segment: &TcpSegment,
    source_ip: IpAddress,
    response: Option<TcpSegment>,
) -> bool {
    &&& (forall|i: int|
        0 <= i < before.len() ==> !serves_port(#[trigger] before[i], segment.destination_port))
        ==> response is None && after == before
    &&& forall|i: int|
        0 <= i < before.len() && serves_port(before[i], segment.destination_port) && (forall|j: int|
            0 <= j < i ==> !serves_port(#[trigger] before[j], segment.destination_port))
            ==> touched(before, after, i) && served(
            before[i],
            after[i],
            segment,
            source_ip,
            response,
        )
}

/// What handing a received datagram to socket `socket` does: the socket
/// takes `payload` if it has no remote address or the datagram comes from
/// it; a socket that is gone takes nothing.
pub open spec fn delivered(
    before: Seq<Socket>,
    after: Seq<Socket>,
    socket: SocketId,
    payload: Seq<u8>,
    source_ip: IpAddress,
) -> bool {
    if has_socket(before, socket) {
        let i = index_of(before, socket);
        &&& touched(before, after, i)
        &&& after[i] == (Socket { receive_buffer: after[i].receive_buffer, ..before[i] })
        &&& after[i].receive_buffer@ == (if before[i].remote_addr is None || before[i].remote_addr
            == Some(source_ip) {
            before[i].receive_buffer@ + payload
        } else {
            before[i].receive_buffer@
        })
    } else {
        after == before
    }
}

/// Hands a received segment to the connection of the first socket that
/// serves its destination port, and returns the segment to send in answer.
/// With no such socket the segment is dropped.
pub fn handle_tcp_segment(
    table: &mut SocketTable,
    segment: TcpSegment,
    source_ip: IpAddress,
    dest_ip: IpAddress,
) -> (r: Option<TcpSegment>)
    requires
        old(table).wf(),
    ensures
        final(table).wf(),
        final(table).next_id() == old(table).next_id(),
        dispatched(old(table)@, final(table)@, &segment, source_ip, r),
{
    let mut i: usize = 0;
    while i < table.sockets.len()
        invariant
            i <= table.sockets@.len(),
            *table == *old(table),
            old(table).wf(),
            forall|j: int|
                0 <= j < i ==> !serves_port(#[trigger] table.sockets@[j], segment.destination_port),
        decreases table.sockets@.len() - i,
    {
        if table.sockets[i].local_port == segment.destination_port
            && table.sockets[i].tcp_connection.is_some() {
            let response = match &mut table.sockets[i].tcp_connection {
                Some(conn) => conn.handle_segment(segment, source_ip),
                None => None,
            };
            assert(touched(old(table)@, table@, i as int));
            assert forall|a: int, b: int|
                0 <= a < table@.len() && 0 <= b < table@.len() && a != b implies (
            #[trigger] table@[a]).id != (#[trigger] table@[b]).id by {
                assert(table@[a].id == old(table)@[a].id);
                assert(table@[b].id == old(table)@[b].id);
            }
            assert forall|a: int| 0 <= a < table@.len() implies (#[trigger] table@[a]).id
                < table.next_id() by {
                assert(table@[a].id == old(table)@[a].id);
            }
            return response;
        }
        i = i + 1;
    }
    None
}

/// What a socket that serves the port of a received segment does with it:
/// its connection reacts, and nothing else of the socket changes.
pub open spec fn served(
    before: Socket,
    after: Socket,
    segment: &TcpSegment,
    source_ip: IpAddress,
    response: Option<TcpSegment>,
) -> bool {
    &&& before.tcp_connection is Some
    &&& after.tcp_connection is Some
    &&& after == (Socket { tcp_connection: after.tcp_connection, ..before })
    &&& reacted(&before.tcp_connection->0, &after.tcp_connection->0, segment, source_ip, response)
}

/// What a connection does with a received segment.
pub open spec fn reacted(
    before: &TcpConnection,
    after: &TcpConnection,
    segment: &TcpSegment,
    source_ip: IpAddress,
    response: Option<TcpSegment>,
) -> bool {
    &&& after.same_endpoint(before)
    &&& match before.reaction(segment) {
        Reaction::AcceptSyn => TcpConnection::accepted_syn(
            before,
            after,
            segment,
            source_ip,
            response,
        ),
        Reaction::CompleteOpen => TcpConnection::completed_open(before, after, segment, response),
        Reaction::Opened => response is None && *after == (TcpConnection {
            state: TcpState::Established,
            ..*before
        }),
        Reaction::TakeData => TcpConnection::took_data(before, after, segment, response),
        Reaction::Ignore => response is None && *after == *before,
    }
}

} // verus!
