//! Ping: the statistics and the steps of a ping session.

use vstd::prelude::*;
use crate::net::{IpAddress, NetworkError};
use crate::net::checksum::be16;
use crate::net::icmp::{echo_request_wire, IcmpPacket, IcmpType};
use crate::net::socket::{SocketId, SocketState, SocketTable};
use crate::net::wire::push_u32;

verus! {

#[derive(Debug, Clone, Copy, PartialEq, Eq, Structural)]
pub struct PingStatistics {
    pub packets_sent: u32,
    pub packets_received: u32,
    pub min_rtt: u64,
    pub max_rtt: u64,
    pub avg_rtt: u64,
}

/// The average of `n` round-trip times of which the first `n - 1` average
/// `avg` and the last is `rtt`, rounded down.
pub open spec fn running_average(avg: u64, n: nat, rtt: u64) -> int {
    if n <= 1 {
        rtt as int
    } else {
        (avg * (n - 1) + rtt) / (n as int)
    }
}

impl PingStatistics {
    /// The statistics after one more request went out.
    pub open spec fn sent_one_more(self) -> PingStatistics {
        PingStatistics { packets_sent: (self.packets_sent + 1) as u32, ..self }
    }

    pub fn new() -> (r: Self)
        ensures
            r == (PingStatistics {
                packets_sent: 0,
                packets_received: 0,
                min_rtt: u64::MAX,
                max_rtt: 0,
                avg_rtt: 0,
            }),
    {
        PingStatistics {
            packets_sent: 0,
            packets_received: 0,
            min_rtt: u64::MAX,
            max_rtt: 0,
            avg_rtt: 0,
        }
    }

    /// The statistics after one more reply with the round-trip time `rtt`.
    pub open spec fn updated(self, rtt: u64) -> PingStatistics {
        PingStatistics {
            packets_sent: self.packets_sent,
            packets_received: (self.packets_received + 1) as u32,
            min_rtt: if rtt < self.min_rtt {
                rtt
            } else {
                self.min_rtt
            },
            max_rtt: if rtt > self.max_rtt {
                rtt
            } else {
                self.max_rtt
            },
            avg_rtt: running_average(self.avg_rtt, (self.packets_received + 1) as nat, rtt) as u64,
        }
    }

    /// Counts one more reply with the round-trip time `rtt`: minimum,
    /// maximum and the running average follow.
    pub fn update(&mut self, rtt: u64)
        requires
            old(self).packets_received < u32::MAX,
        ensures
            *final(self) == old(self).updated(rtt),
            final(self).packets_sent == old(self).packets_sent,
            final(self).packets_received == old(self).packets_received + 1,
            final(self).min_rtt == (if rtt < old(self).min_rtt {
                rtt
            } else {
                old(self).min_rtt
            }),
            final(self).max_rtt == (if rtt > old(self).max_rtt {
                rtt
            } else {
                old(self).max_rtt
            }),
            final(self).avg_rtt == running_average(
                old(self).avg_rtt,
                (old(self).packets_received + 1) as nat,
                rtt,
            ),
    {
        self.packets_received = self.packets_received + 1;
        if rtt < self.min_rtt {
            self.min_rtt = rtt;
        }
        if rtt > self.max_rtt {
            self.max_rtt = rtt;
        }
        if self.packets_received == 1 {
            self.avg_rtt = rtt;
        } else {
            let n: u128 = self.packets_received as u128;
            let ghost a = self.avg_rtt as int;
            let ghost m = n as int;
            proof {
                assert(0 <= a * (m - 1) <= 0xFFFF_FFFF_FFFF_FFFF * 0xFFFF_FFFF) by (nonlinear_arith)
                    requires
                        0 <= a <= 0xFFFF_FFFF_FFFF_FFFF,
                        1 <= m <= 0xFFFF_FFFF,
                ;
            }
            let total: u128 = (self.avg_rtt as u128) * (n - 1) + (rtt as u128);
            let avg: u128 = total / n;
            proof {
                assert(a * (m - 1) <= 0xFFFF_FFFF_FFFF_FFFF * (m - 1)) by (nonlinear_arith)
                    requires
                        0 <= a <= 0xFFFF_FFFF_FFFF_FFFF,
                        m >= 1,
                ;
                assert((a * (m - 1) + rtt) / m <= 0xFFFF_FFFF_FFFF_FFFF) by (nonlinear_arith)
                    requires
                        a * (m - 1) <= 0xFFFF_FFFF_FFFF_FFFF * (m - 1),
                        0 <= rtt <= 0xFFFF_FFFF_FFFF_FFFF,
                        m >= 1,
                        a >= 0,
                ;
            }
            self.avg_rtt = avg as u64;
        }
    }
}

/// Whether a sleep of `millis` milliseconds that began at `start` is over
/// at `now`. A clock that reads earlier than `start` counts as no time passed.
pub fn sleep(start: u64, now: u64, millis: u64) -> (over: bool)
    ensures
        over == (now >= start && now - start >= millis),
{
    now >= start && now - start >= millis
}

/// How often a ping polls for its reply before it gives the packet up.
pub const MAX_ATTEMPTS: u64 = 3;

/// The milliseconds that a ping waits for its reply in all.
pub const TIMEOUT_MS: u64 = 1000;

/// The sockets with their states, in the order of the registry.
pub fn netstat(table: &SocketTable) -> (r: Vec<(SocketId, SocketState)>)
    requires
        table.wf(),
    ensures
        r@.len() == table@.len(),
        forall|i: int|
            0 <= i < r@.len() ==> (#[trigger] r@[i]) == (table@[i].id, table@[i].state),
{
    let mut out: Vec<(SocketId, SocketState)> = Vec::new();
    let n = table.len();
    let mut i: usize = 0;
    while i < n
        invariant
            i <= n,
            n == table@.len(),
            out@.len() == i,
            forall|j: int| 0 <= j < i ==> (#[trigger] out@[j]) == (table@[j].id, table@[j].state),
        decreases n - i,
    {
        let socket = table.at(i);
        out.push((socket.id, socket.state));
        i = i + 1;
    }
    out
}

/// The sockets with their local addresses, in the order of the registry.
pub fn route_print(table: &SocketTable) -> (r: Vec<(SocketId, IpAddress)>)
    requires
        table.wf(),
    ensures
        r@.len() == table@.len(),
        forall|i: int|
            0 <= i < r@.len() ==> (#[trigger] r@[i]) == (table@[i].id, table@[i].local_addr),
{
    let mut out: Vec<(SocketId, IpAddress)> = Vec::new();
    let n = table.len();
    let mut i: usize = 0;
    while i < n
        invariant
            i <= n,
            n == table@.len(),
            out@.len() == i,
            forall|j: int|
                0 <= j < i ==> (#[trigger] out@[j]) == (table@[j].id, table@[j].local_addr),
        decreases n - i,
    {
        let socket = table.at(i);
        out.push((socket.id, socket.local_addr));
        i = i + 1;
    }
    out
}

/// Looks through the sockets; there is nothing to do for them.
pub fn check_sockets(table: &SocketTable) -> (r: Result<(), NetworkError>)
    ensures
        r is Ok,
{
    Ok(())
}

/// The eight big-endian bytes of `x`.
pub open spec fn be64_bytes(x: u64) -> Seq<u8> {
    crate::net::wire::be32_bytes((x / 0x1_0000_0000) as u32) + crate::net::wire::be32_bytes(
        (x % 0x1_0000_0000) as u32,
    )
}

fn timestamp_bytes(x: u64) -> (r: Vec<u8>)
    ensures
        r@ == be64_bytes(x),
{
    let mut out: Vec<u8> = Vec::new();
    push_u32(&mut out, (x / 0x1_0000_0000) as u32);
    push_u32(&mut out, (x % 0x1_0000_0000) as u32);
    out
}

fn low_word(x: u32) -> (r: u16)
    ensures
        r == x % 0x1_0000,
{
    (x % 0x1_0000) as u16
}

/// The low sixteen bits of a sequence count, which number the requests.
pub open spec fn sequence_field(x: u32) -> u16 {
    (x % 0x1_0000) as u16
}

/// Whether `data` answers the pings with the identifier `id`: it reads as an
/// echo reply that carries the identifier.
pub open spec fn answers(data: Seq<u8>, id: u16) -> bool {
    data.len() >= 8 && echo_reply_named(data[0]) && be16(data[4], data[5]) == id
}

/// Whether the type byte `value` reads as echo reply.
pub open spec fn echo_reply_named(value: u8) -> bool {
    value != 3 && value != 8 && value != 11
}

/// A ping session: `count` echo requests to one destination, each waited
/// for through a few polls.
#[derive(Debug)]
pub struct Ping {
    pub destination: IpAddress,
    pub id: u16,
    pub count: u32,
    /// How many requests have been sent.
    pub sequence: u32,
    /// When the outstanding request was sent.
    pub sent_at: u64,
    /// How often the outstanding request has been polled for in vain.
    pub attempts: u64,
    /// Whether a request is outstanding.
    pub waiting: bool,
    pub stats: PingStatistics,
}

impl Ping {
    /// The counts fit together: what was sent is what the statistics say,
    /// and no more replies came than requests went.
    pub open spec fn wf(&self) -> bool {
        &&& self.sequence <= self.count
        &&& self.stats.packets_sent == self.sequence
        &&& self.stats.packets_received + (if self.waiting {
            1int
        } else {
            0int
        }) <= self.sequence
        &&& self.attempts < MAX_ATTEMPTS
    }

    /// The next echo request, sent at `now`, if one is due: none is
    /// outstanding and not all have been sent. It carries the identifier of
    /// the session, the count of requests as sequence number and the send
    /// time as payload.
    pub fn next_request(&mut self, now: u64) -> (r: Option<Vec<u8>>)
        requires
            old(self).wf(),
        ensures
            final(self).wf(),
            final(self).destination == old(self).destination,
            final(self).id == old(self).id,
            final(self).count == old(self).count,
            old(self).waiting || old(self).sequence == old(self).count ==> r is None && *final(self)
                == *old(self),
            !old(self).waiting && old(self).sequence < old(self).count ==> {
                &&& r matches Some(bytes) && bytes@ == echo_request_wire(
                    old(self).id,
                    sequence_field(final(self).sequence),
                    be64_bytes(now),
                )
                &&& final(self).sequence == old(self).sequence + 1
                &&& final(self).sent_at == now
                &&& final(self).attempts == 0
                &&& final(self).waiting
                &&& final(self).stats == old(self).stats.sent_one_more()
            },
    {
        if self.waiting || self.sequence == self.count {
            return None;
        }
        self.sequence = self.sequence + 1;
        self.stats.packets_sent = self.stats.packets_sent + 1;
        self.sent_at = now;
        self.attempts = 0;
        self.waiting = true;
        let mut packet = IcmpPacket::new_echo_request(
            self.id,
            low_word(self.sequence),
            timestamp_bytes(now),
        );
        Some(packet.to_bytes())
    }

    /// One poll for the reply to the outstanding request, at `now`, with
    /// what the card received. A reply to this session settles the request
    /// and its round-trip time goes into the statistics. Anything else
    /// counts as a vain attempt, and after the last one the request is
    /// given up. The answer says whether the request is still outstanding.
    pub fn on_poll(&mut self, received: Option<&[u8]>, now: u64) -> (still_waiting: bool)
        requires
            old(self).wf(),
            old(self).waiting,
        ensures
            final(self).wf(),
            still_waiting == final(self).waiting,
            final(self).destination == old(self).destination,
            final(self).id == old(self).id,
            final(self).count == old(self).count,
            final(self).sequence == old(self).sequence,
            final(self).sent_at == old(self).sent_at,
            (received matches Some(data) && answers(data@, old(self).id)) ==> {
                &&& !final(self).waiting
                &&& final(self).attempts == 0
                &&& final(self).stats == old(self).stats.updated(elapsed(old(self).sent_at, now))
            },
            !(received matches Some(data) && answers(data@, old(self).id)) ==> {
                &&& final(self).stats == old(self).stats
                &&& final(self).waiting == (old(self).attempts + 1 < MAX_ATTEMPTS)
                &&& final(self).attempts == (if final(self).waiting {
                    old(self).attempts + 1
                } else {
                    0
                })
            },
    {
        let answered = match received {
            Some(data) => self.is_answer(data),
            None => false,
        };
        if answered {
            let rtt: u64 = if now >= self.sent_at {
                now - self.sent_at
            } else {
                0
            };
            self.stats.update(rtt);
            self.waiting = false;
            self.attempts = 0;
        } else if self.attempts + 1 < MAX_ATTEMPTS {
            self.attempts = self.attempts + 1;
        } else {
            self.attempts = 0;
            self.waiting = false;
        }
        self.waiting
    }

    fn is_answer(&self, data: &[u8]) -> (r: bool)
        ensures
            r == answers(data@, self.id),
    {
        match IcmpPacket::parse(data) {
            Some(reply) => {
                proof {
                    crate::net::checksum::lemma_halves_of_be32(
                        data@[4],
                        data@[5],
                        data@[6],
                        data@[7],
                    );
                }
                reply.get_type() == IcmpType::EchoReply && reply.get_identifier() == self.id
            },
            None => false,
        }
    }
}

/// The time from `start` to `now`, or zero where the clock reads earlier.
pub open spec fn elapsed(start: u64, now: u64) -> u64 {
    if now >= start {
        (now - start) as u64
    } else {
        0
    }
}

/// Starts a ping session of `count` requests to `dest_ip` under the
/// identifier `id`. Nothing is sent yet.
pub fn ping(dest_ip: IpAddress, count: u32, id: u16) -> (r: Result<Ping, NetworkError>)
    ensures
        r matches Ok(session) && session == (Ping {
            destination: dest_ip,
            id,
            count,
            sequence: 0,
            sent_at: 0,
            attempts: 0,
            waiting: false,
            stats: PingStatistics {
                packets_sent: 0,
                packets_received: 0,
                min_rtt: u64::MAX,
                max_rtt: 0,
                avg_rtt: 0,
            },
        }) && session.wf(),
{
    Ok(
        Ping {
            destination: dest_ip,
            id,
            count,
            sequence: 0,
            sent_at: 0,
            attempts: 0,
            waiting: false,
            stats: PingStatistics::new(),
        },
    )
}

} // verus!
