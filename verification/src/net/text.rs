//! Addresses as text: a hardware address in hexadecimal pairs with colons,
//! an IP address in decimal numbers with dots.

use vstd::prelude::*;
use crate::net::{IpAddress, MacAddress};

verus! {

pub const COLON: u8 = 0x3A;

pub const DOT: u8 = 0x2E;

/// The digit for `n` below 16, the letters in lower case.
pub open spec fn hex_digit(n: int) -> u8 {
    if n < 10 {
        (0x30 + n) as u8
    } else {
        (0x57 + n) as u8
    }
}

/// The two hexadecimal digits of `byte`.
pub open spec fn hex_pair(byte: u8) -> Seq<u8> {
    seq![hex_digit(byte as int / 16), hex_digit(byte as int % 16)]
}

/// The decimal digits of `byte`, without leading zeros.
pub open spec fn decimal(byte: u8) -> Seq<u8> {
    if byte < 10 {
        seq![(0x30 + byte) as u8]
    } else if byte < 100 {
        seq![(0x30 + byte / 10) as u8, (0x30 + byte % 10) as u8]
    } else {
        seq![(0x30 + byte / 100) as u8, (0x30 + (byte / 10) % 10) as u8, (0x30 + byte % 10) as u8]
    }
}

/// The text of the first `k` octets of a hardware address: a colon
/// between each two pairs.
pub open spec fn mac_text(octets: Seq<u8>, k: nat) -> Seq<u8>
    decreases k,
{
    if k == 0 {
        Seq::empty()
    } else if k == 1 {
        hex_pair(octets[0])
    } else {
        mac_text(octets, (k - 1) as nat) + seq![COLON] + hex_pair(octets[k - 1])
    }
}

/// The text of the first `k` octets of an IP address: a dot between each
/// two numbers.
pub open spec fn ip_text(octets: Seq<u8>, k: nat) -> Seq<u8>
    decreases k,
{
    if k == 0 {
        Seq::empty()
    } else if k == 1 {
        decimal(octets[0])
    } else {
        ip_text(octets, (k - 1) as nat) + seq![DOT] + decimal(octets[k - 1])
    }
}

fn digit(n: u8) -> (r: u8)
    requires
        n < 16,
    ensures
        r == hex_digit(n as int),
{
    if n < 10 {
        0x30 + n
    } else {
        0x57 + n
    }
}

fn push_decimal(out: &mut Vec<u8>, byte: u8)
    ensures
        final(out)@ == old(out)@ + decimal(byte),
{
    if byte >= 100 {
        out.push(0x30 + byte / 100);
    }
    if byte >= 10 {
        out.push(0x30 + (byte / 10) % 10);
    }
    out.push(0x30 + byte % 10);
    assert(out@ =~= old(out)@ + decimal(byte));
}

impl MacAddress {
    /// The address as text, as in `52:54:00:12:34:56`.
    pub fn to_text(&self) -> (r: Vec<u8>)
        ensures
            r@ == mac_text(self.0@, 6),
    {
        let mut out: Vec<u8> = Vec::new();
        let mut k: usize = 0;
        while k < 6
            invariant
                k <= 6,
                out@ == mac_text(self.0@, k as nat),
            decreases 6 - k,
        {
            let ghost before = out@;
            if k > 0 {
                out.push(COLON);
            }
            let byte = self.0[k];
            out.push(digit(byte / 16));
            out.push(digit(byte % 16));
            proof {
                if k == 0 {
                    assert(out@ =~= hex_pair(byte));
                } else {
                    assert(out@ =~= before + seq![COLON] + hex_pair(byte));
                }
            }
            k = k + 1;
        }
        out
    }
}

impl IpAddress {
    /// The address as text, as in `10.0.2.15`.
    pub fn to_text(&self) -> (r: Vec<u8>)
        ensures
            r@ == ip_text(self.octets@, 4),
    {
        let mut out: Vec<u8> = Vec::new();
        let mut k: usize = 0;
        while k < 4
            invariant
                k <= 4,
                out@ == ip_text(self.octets@, k as nat),
            decreases 4 - k,
        {
            let ghost before = out@;
            if k > 0 {
                out.push(DOT);
            }
            let byte = self.octets[k];
            push_decimal(&mut out, byte);
            proof {
                if k == 0 {
                    assert(out@ =~= decimal(byte));
                } else {
                    assert(out@ =~= before + seq![DOT] + decimal(byte));
                }
            }
            k = k + 1;
        }
        out
    }
}

} // verus!
