//! DNS: the query for the address of a host and the reading of the answer.

use vstd::prelude::*;
use vstd::string::StringSliceAdditionalSpecFns;
use crate::net::IpAddress;
use crate::net::checksum::{be16, u16_from_be};
use crate::net::wire::{be16_bytes, push_u16, read4};

verus! {

pub const DNS_PORT: u16 = 53;

/// Length of the header of a DNS message.
pub const DNS_HEADER_LEN: usize = 12;

/// The flags of a standard query with recursion desired.
pub const QUERY_FLAGS: u16 = 0x0100;

/// The byte that parts the labels of a host name.
pub const DOT: u8 = 0x2E;

#[derive(Debug, Clone, Copy, PartialEq, Eq, Structural)]
pub struct DnsHeader {
    pub id: u16,
    pub flags: u16,
    pub questions: u16,
    pub answers: u16,
    pub authority: u16,
    pub additional: u16,
}

#[derive(Debug)]
pub struct DnsQuestion {
    pub name: String,
    pub qtype: u16,
    pub qclass: u16,
}

#[derive(Debug)]
pub struct DnsAnswer {
    pub name: String,
    pub atype: u16,
    pub aclass: u16,
    pub ttl: u32,
    pub rdlength: u16,
    pub rdata: Vec<u8>,
}

/// Why an answer gave no address.
#[derive(Debug, Clone, Copy, PartialEq, Eq, Structural)]
pub enum DnsError {
    /// The message is shorter than a header.
    TooShort,
    /// The message answers another query.
    IdMismatch,
    /// The message is a query.
    NotResponse,
    /// The server reports an error.
    ServerError,
    /// The message holds no answer.
    NoAnswers,
    /// The message ends before the answer does.
    Truncated,
    /// The first answer is no address record of class IN.
    NotARecord,
    /// The address record does not hold four bytes.
    BadLength,
    /// No query is out.
    NoQuery,
}

/// The place of the first dot in `s`, or its length if it holds none.
pub open spec fn first_dot(s: Seq<u8>) -> nat
    decreases s.len(),
{
    if s.len() == 0 {
        0
    } else if s[0] == DOT {
        0
    } else {
        1 + first_dot(s.skip(1))
    }
}

/// The labels of `host`, each after its length byte. The labels are the
/// parts between the dots; a host name without a dot is one label.
pub open spec fn labels_wire(host: Seq<u8>) -> Seq<u8>
    decreases host.len(),
{
    let n = first_dot(host);
    let head = seq![(n % 256) as u8] + host.take(n as int);
    if n >= host.len() {
        head
    } else {
        head + labels_wire(host.skip(n as int + 1))
    }
}

/// The query for the address of `host` with the id `id`: a header that
/// announces one question, the labels of the name closed by a zero, type A,
/// class IN.
pub open spec fn query_wire(id: u16, host: Seq<u8>) -> Seq<u8> {
    be16_bytes(id) + be16_bytes(QUERY_FLAGS) + be16_bytes(1) + be16_bytes(0) + be16_bytes(0)
        + be16_bytes(0) + labels_wire(host) + seq![0u8] + be16_bytes(1) + be16_bytes(1)
}

/// The place behind the name that starts at `pos`: behind its closing
/// zero, or the end of the message if the name runs into it.
pub open spec fn skip_name(r: Seq<u8>, pos: nat) -> nat
    decreases
            (if pos < r.len() {
                r.len() - pos
            } else {
                0
            }),
{
    if pos >= r.len() {
        pos
    } else if r[pos as int] == 0 {
        pos + 1
    } else {
        skip_name(r, pos + r[pos as int] as nat + 1)
    }
}

/// The place behind `count` questions that start at `pos`: each is a name
/// and four bytes of type and class.
pub open spec fn skip_questions(r: Seq<u8>, pos: nat, count: nat) -> nat
    decreases count,
{
    if count == 0 {
        pos
    } else {
        skip_questions(r, skip_name(r, pos) + 4, (count - 1) as nat)
    }
}

/// The place of the fixed part of the first answer: behind the questions
/// and the name of the answer.
pub open spec fn answer_offset(r: Seq<u8>) -> nat {
    skip_name(r, skip_questions(r, DNS_HEADER_LEN as nat, be16(r[4], r[5])))
}

/// What the message `r` says to the query with the id `id`.
pub open spec fn answer(id: u16, r: Seq<u8>) -> Result<Seq<u8>, DnsError> {
    if r.len() < DNS_HEADER_LEN {
        Err(DnsError::TooShort)
    } else if be16(r[0], r[1]) != id {
        Err(DnsError::IdMismatch)
    } else if !is_response(r[2]) {
        Err(DnsError::NotResponse)
    } else if response_code(r[3]) != 0 {
        Err(DnsError::ServerError)
    } else if be16(r[6], r[7]) == 0 {
        Err(DnsError::NoAnswers)
    } else {
        let pos = answer_offset(r) as int;
        if pos + 10 > r.len() {
            Err(DnsError::Truncated)
        } else if be16(r[pos], r[pos + 1]) != 1 || be16(r[pos + 2], r[pos + 3]) != 1 {
            Err(DnsError::NotARecord)
        } else if be16(r[pos + 8], r[pos + 9]) != 4 {
            Err(DnsError::BadLength)
        } else if pos + 14 > r.len() {
            Err(DnsError::Truncated)
        } else {
            Ok(r.subrange(pos + 10, pos + 14))
        }
    }
}

/// Whether the first flags byte marks a response: its highest bit is set.
pub open spec fn is_response(flags_high: u8) -> bool {
    flags_high & 0x80 != 0
}

/// The response code: the low four bits of the second flags byte.
pub open spec fn response_code(flags_low: u8) -> u8 {
    flags_low & 0x0F
}

pub proof fn lemma_skip_name_grows(r: Seq<u8>, pos: nat)
    ensures
        skip_name(r, pos) >= pos,
        pos >= r.len() ==> skip_name(r, pos) == pos,
    decreases
            (if pos < r.len() {
                r.len() - pos
            } else {
                0
            }),
{
    if pos < r.len() && r[pos as int] != 0 {
        lemma_skip_name_grows(r, pos + r[pos as int] as nat + 1);
    }
}

pub proof fn lemma_skip_questions_grows(r: Seq<u8>, pos: nat, count: nat)
    ensures
        skip_questions(r, pos, count) >= pos,
    decreases count,
{
    if count > 0 {
        lemma_skip_name_grows(r, pos);
        lemma_skip_questions_grows(r, skip_name(r, pos) + 4, (count - 1) as nat);
    }
}

/// Where no dot stands before place `m`, and a dot or the end at `m`, the
/// first dot is at `m`.
pub proof fn lemma_first_dot(s: Seq<u8>, m: nat)
    requires
        m <= s.len(),
        forall|j: int| 0 <= j < m ==> s[j] != DOT,
        m == s.len() || s[m as int] == DOT,
    ensures
        first_dot(s) == m,
    decreases m,
{
    if m > 0 {
        lemma_first_dot(s.skip(1), (m - 1) as nat);
    }
}

/// A resolver that asks one server.
pub struct DnsResolver {
    pub server: IpAddress,
    pub next_id: u16,
    /// The id of the query that is out.
    pub pending: Option<u16>,
}

impl DnsResolver {
    pub fn new(server: IpAddress) -> (r: Self)
        ensures
            r.server == server,
            r.next_id == 0,
            r.pending is None,
    {
        DnsResolver { server, next_id: 0, pending: None }
    }

    fn skip(response: &[u8], start: usize) -> (r: usize)
        requires
            start <= response@.len(),
        ensures
            r <= response@.len(),
            r == response@.len() ==> skip_name(response@, start as nat) >= response@.len(),
            r < response@.len() ==> skip_name(response@, start as nat) == r,
    {
        let n = response.len();
        let mut pos: usize = start;
        while pos < n
            invariant
                n == response@.len(),
                pos <= n,
                skip_name(response@, start as nat) == skip_name(response@, pos as nat),
            decreases n - pos,
        {
            let len = response[pos] as usize;
            if len == 0 {
                if pos + 1 == n {
                    return n;
                }
                return pos + 1;
            }
            if n - pos <= len + 1 {
                proof {
                    lemma_skip_name_grows(response@, (pos + len + 1) as nat);
                }
                return n;
            }
            pos = pos + len + 1;
        }
        n
    }

    /// Starts to resolve `hostname`: the answer is the query to send to
    /// port 53 of the server. The query carries the next id, which
    /// advances, wrapping at 2^16; the resolver remembers the id for the
    /// answer.
    pub fn resolve(&mut self, hostname: &str) -> (r: Vec<u8>)
        ensures
            r@ == query_wire(old(self).next_id, hostname.spec_bytes()),
            final(self).server == old(self).server,
            final(self).pending == Some(old(self).next_id),
            final(self).next_id == (if old(self).next_id == u16::MAX {
                0
            } else {
                old(self).next_id + 1
            }),
    {
        let id = self.next_id;
        self.next_id = if self.next_id == u16::MAX {
            0
        } else {
            self.next_id + 1
        };
        self.pending = Some(id);
        let host = hostname.as_bytes();
        let mut packet: Vec<u8> = Vec::new();
        push_u16(&mut packet, id);
        push_u16(&mut packet, QUERY_FLAGS);
        push_u16(&mut packet, 1);
        push_u16(&mut packet, 0);
        push_u16(&mut packet, 0);
        push_u16(&mut packet, 0);
        let ghost header = packet@;
        let n = host.len();
        let mut i: usize = 0;
        let mut done = false;
        assert(host@.skip(0) =~= host@);
        while !done
            invariant
                n == host@.len(),
                i <= n,
                !done ==> header + labels_wire(host@)
                    == packet@ + labels_wire(host@.skip(i as int)),
                done ==> packet@ == header + labels_wire(host@),
            decreases n - i + (if done { 0int } else { 1int }),
        {
            let mut j: usize = i;
            while j < n && host[j] != DOT
                invariant
                    n == host@.len(),
                    i <= j <= n,
                    forall|k: int| i <= k < j ==> host@[k] != DOT,
                decreases n - j,
            {
                j = j + 1;
            }
            let ghost rest = host@.skip(i as int);
            proof {
                lemma_first_dot(rest, (j - i) as nat);
                assert(rest.take(j - i) =~= host@.subrange(i as int, j as int));
            }
            let ghost before = packet@;
            packet.push(((j - i) % 256) as u8);
            let mut k: usize = i;
            while k < j
                invariant
                    i <= k <= j <= n,
                    n == host@.len(),
                    packet@ == before + seq![((j - i) % 256) as u8] + host@.subrange(
                        i as int,
                        k as int,
                    ),
                decreases j - k,
            {
                packet.push(host[k]);
                k = k + 1;
            }
            if j >= n {
                done = true;
                assert(packet@ =~= header + labels_wire(host@));
            } else {
                proof {
                    assert(rest.skip(j - i + 1) =~= host@.skip(j + 1));
                    assert(packet@ + labels_wire(host@.skip(j + 1)) =~= before + labels_wire(rest));
                }
                i = j + 1;
            }
        }
        packet.push(0);
        push_u16(&mut packet, 1);
        push_u16(&mut packet, 1);
        assert(packet@ =~= query_wire(id, hostname.spec_bytes()));
        packet
    }

    /// Reads the answer `response` to the query that is out, which is then
    /// settled. The address is that of the first answer, which must be an
    /// address record of class IN with four bytes; see `answer` for the
    /// checks and their order. With no query out the call fails.
    pub fn complete(&mut self, response: &[u8]) -> (r: Result<IpAddress, DnsError>)
        ensures
            final(self).server == old(self).server,
            final(self).next_id == old(self).next_id,
            final(self).pending is None,
            old(self).pending is None ==> r == Err::<IpAddress, DnsError>(DnsError::NoQuery),
            old(self).pending matches Some(id) ==> match answer(id, response@) {
                Ok(octets) => r matches Ok(ip) && ip.octets@ == octets,
                Err(e) => r == Err::<IpAddress, DnsError>(e),
            },
    {
        let id = match self.pending {
            Some(id) => id,
            None => {
                return Err(DnsError::NoQuery);
            },
        };
        self.pending = None;
        Self::read_answer(id, response)
    }

    /// Reads the answer `response` to the query with the id `id`.
    #[verifier::loop_isolation(false)]
    pub fn read_answer(id: u16, response: &[u8]) -> (r: Result<IpAddress, DnsError>)
        ensures
            match answer(id, response@) {
                Ok(octets) => r matches Ok(ip) && ip.octets@ == octets,
                Err(e) => r == Err::<IpAddress, DnsError>(e),
            },
    {
        let size = response.len();
        if size < DNS_HEADER_LEN {
            return Err(DnsError::TooShort);
        }
        let header = DnsHeader {
            id: u16_from_be(response[0], response[1]),
            flags: u16_from_be(response[2], response[3]),
            questions: u16_from_be(response[4], response[5]),
            answers: u16_from_be(response[6], response[7]),
            authority: u16_from_be(response[8], response[9]),
            additional: u16_from_be(response[10], response[11]),
        };
        if header.id != id {
            return Err(DnsError::IdMismatch);
        }
        if response[2] & 0x80 == 0 {
            return Err(DnsError::NotResponse);
        }
        if response[3] & 0x0F != 0 {
            return Err(DnsError::ServerError);
        }
        if header.answers == 0 {
            return Err(DnsError::NoAnswers);
        }
        let mut pos: usize = DNS_HEADER_LEN;
        let mut left: u16 = header.questions;
        while left > 0
            invariant
                size == response@.len(),
                pos <= size,
                skip_questions(response@, DNS_HEADER_LEN as nat, header.questions as nat)
                    == skip_questions(response@, pos as nat, left as nat),
            decreases left,
        {
            let after_name = Self::skip(response, pos);
            proof {
                lemma_skip_name_grows(response@, pos as nat);
            }
            if size - after_name < 4 || after_name == size {
                proof {
                    lemma_skip_questions_grows(
                        response@,
                        skip_name(response@, pos as nat) + 4,
                        (left - 1) as nat,
                    );
                    lemma_skip_name_grows(
                        response@,
                        skip_questions(response@, pos as nat, left as nat),
                    );
                }
                return Err(DnsError::Truncated);
            }
            pos = after_name + 4;
            left = left - 1;
        }
        let at = Self::skip(response, pos);
        if at == size || size - at < 10 {
            return Err(DnsError::Truncated);
        }
        let atype = u16_from_be(response[at], response[at + 1]);
        let aclass = u16_from_be(response[at + 2], response[at + 3]);
        let rdlength = u16_from_be(response[at + 8], response[at + 9]);
        if atype != 1 || aclass != 1 {
            return Err(DnsError::NotARecord);
        }
        if rdlength != 4 {
            return Err(DnsError::BadLength);
        }
        if size - at < 14 {
            return Err(DnsError::Truncated);
        }
        Ok(IpAddress::new(read4(response, at + 10)))
    }
}

/// The name server that `resolve_hostname` asks.
pub open spec fn default_server_octets() -> Seq<u8> {
    seq![8u8, 8u8, 8u8, 8u8]
}

/// Starts to resolve `hostname` at the default server. The answer is the
/// resolver, which awaits the answer, and the query to send.
pub fn resolve_hostname(hostname: &str) -> (r: (DnsResolver, Vec<u8>))
    ensures
        r.0.server.octets@ == default_server_octets(),
        r.0.pending == Some(0u16),
        r.0.next_id == 1,
        r.1@ == query_wire(0, hostname.spec_bytes()),
{
    let mut resolver = DnsResolver::new(IpAddress::new([8, 8, 8, 8]));
    let query = resolver.resolve(hostname);
    (resolver, query)
}

} // verus!
