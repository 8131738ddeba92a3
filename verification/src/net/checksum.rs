//! The Internet checksum: the ones-complement sum of 16-bit big-endian words.

use vstd::prelude::*;

verus! {

/// The 16-bit number whose big-endian bytes are `hi`, `lo`.
pub open spec fn be16(hi: u8, lo: u8) -> nat {
    (hi as nat) * 256 + (lo as nat)
}

/// The 32-bit number whose big-endian bytes are `b0` to `b3`.
pub open spec fn be32(b0: u8, b1: u8, b2: u8, b3: u8) -> nat {
    (b0 as nat) * 0x100_0000 + (b1 as nat) * 0x1_0000 + (b2 as nat) * 0x100 + (b3 as nat)
}

pub fn u16_from_be(hi: u8, lo: u8) -> (r: u16)
    ensures
        r == be16(hi, lo),
{
    (hi as u16) * 256 + (lo as u16)
}

pub fn u32_from_be(b0: u8, b1: u8, b2: u8, b3: u8) -> (r: u32)
    ensures
        r == be32(b0, b1, b2, b3),
{
    (b0 as u32) * 0x100_0000 + (b1 as u32) * 0x1_0000 + (b2 as u32) * 0x100 + (b3 as u32)
}

/// The more significant byte of `x`.
pub fn hi_byte(x: u16) -> (r: u8)
    ensures
        r == x / 256,
{
    (x / 256) as u8
}

/// The less significant byte of `x`.
pub fn lo_byte(x: u16) -> (r: u8)
    ensures
        r == x % 256,
{
    (x % 256) as u8
}

/// Word `i` of `bytes`: bytes `2i` and `2i+1`; a missing second byte counts as zero.
pub open spec fn word_at(bytes: Seq<u8>, i: int) -> nat
    recommends
        0 <= 2 * i < bytes.len(),
{
    be16(bytes[2 * i], if 2 * i + 1 < bytes.len() { bytes[2 * i + 1] } else { 0u8 })
}

/// The sum of the first `k` words of `bytes`.
pub open spec fn word_sum_upto(bytes: Seq<u8>, k: nat) -> nat
    decreases k,
{
    if k == 0 {
        0
    } else {
        word_sum_upto(bytes, (k - 1) as nat) + word_at(bytes, k - 1)
    }
}

/// The number of 16-bit words that `len` bytes fill, the last one perhaps half.
pub open spec fn word_count(len: nat) -> nat {
    (len + 1) / 2
}

/// The sum of all 16-bit big-endian words of `bytes`.
pub open spec fn word_sum(bytes: Seq<u8>) -> nat {
    word_sum_upto(bytes, word_count(bytes.len()))
}

/// `s` with every carry above bit 15 added back into the low 16 bits.
/// The result is congruent to `s` modulo 0xFFFF and is zero only for zero.
pub open spec fn fold16(s: nat) -> nat {
    if s == 0 {
        0
    } else if s % 0xFFFF == 0 {
        0xFFFF
    } else {
        s % 0xFFFF
    }
}

/// The checksum of data whose words sum to `s`: the complement of the folded sum.
pub open spec fn complement16(s: nat) -> nat {
    (0xFFFF - fold16(s)) as nat
}

/// The Internet checksum of `bytes`.
pub open spec fn checksum_spec(bytes: Seq<u8>) -> nat {
    complement16(word_sum(bytes))
}

/// The Internet checksum of `bytes`, as the 16-bit field holds it.
pub open spec fn checksum16(bytes: Seq<u8>) -> u16 {
    checksum_spec(bytes) as u16
}

/// The high 16 bits of `x`.
pub open spec fn high_half(x: u32) -> u16 {
    (x / 0x1_0000) as u16
}

/// The low 16 bits of `x`.
pub open spec fn low_half(x: u32) -> u16 {
    (x % 0x1_0000) as u16
}

/// The 32-bit word with `high` above `low`.
pub open spec fn joined(high: u16, low: u16) -> u32 {
    (high * 0x1_0000 + low) as u32
}

/// The halves of a 32-bit word read from four big-endian bytes are the
/// 16-bit words of the first two and of the last two bytes.
pub proof fn lemma_halves_of_be32(b0: u8, b1: u8, b2: u8, b3: u8)
    ensures
        high_half(be32(b0, b1, b2, b3) as u32) == be16(b0, b1),
        low_half(be32(b0, b1, b2, b3) as u32) == be16(b2, b3),
{
}

pub fn join_halves(high: u16, low: u16) -> (r: u32)
    ensures
        r == joined(high, low),
        high_half(r) == high,
        low_half(r) == low,
{
    (high as u32) * 0x1_0000 + (low as u32)
}

pub fn upper_half(x: u32) -> (r: u16)
    ensures
        r == high_half(x),
{
    (x / 0x1_0000) as u16
}

pub fn lower_half(x: u32) -> (r: u16)
    ensures
        r == low_half(x),
{
    (x % 0x1_0000) as u16
}

pub proof fn lemma_fold16_bounds(s: nat)
    ensures
        fold16(s) <= 0xFFFF,
        fold16(s) == 0 <==> s == 0,
        s <= 0xFFFF ==> fold16(s) == s,
{
}

/// Folding early does not change the folded sum.
pub proof fn lemma_fold16_add(a: nat, b: nat)
    ensures
        fold16(fold16(a) + b) == fold16(a + b),
{
    let fa = fold16(a);
    assert((fa + b) % 0xFFFF == (a + b) % 0xFFFF) by {
        assert(fa % 0xFFFF == a % 0xFFFF);
        vstd::arithmetic::div_mod::lemma_add_mod_noop(fa as int, b as int, 0xFFFF);
        vstd::arithmetic::div_mod::lemma_add_mod_noop(a as int, b as int, 0xFFFF);
    }
}

/// One step of carry folding on a sum of two 16-bit quantities.
pub fn fold_step(t: u32) -> (r: u32)
    requires
        t <= 0x1FFFE,
    ensures
        r == fold16(t as nat),
        r <= 0xFFFF,
{
    let mut sum: u32 = t;
    if (sum >> 16) != 0 {
        assert(t >> 16 != 0 && t <= 0x1FFFE ==> (t & 0xFFFF) + (t >> 16) == t - 0xFFFF
            && t >= 0x10000) by (bit_vector);
        sum = (sum & 0xFFFF) + (sum >> 16);
    } else {
        assert(t >> 16 == 0 ==> t <= 0xFFFF) by (bit_vector);
    }
    sum
}

/// The folded sum of `init` and all words of `bytes`.
pub fn folded_sum(init: u32, bytes: &[u8]) -> (r: u32)
    requires
        init <= 0xFFFF,
    ensures
        r == fold16(init as nat + word_sum(bytes@)),
        r <= 0xFFFF,
{
    let n: usize = bytes.len();
    let mut acc: u32 = init;
    let mut i: usize = 0;
    let ghost mut k: nat = 0;
    proof {
        lemma_fold16_bounds(init as nat);
    }
    while i < n
        invariant
            n == bytes@.len(),
            i <= n,
            i % 2 == 0 || i == n,
            k == word_count(i as nat),
            i == n || i == 2 * k,
            acc <= 0xFFFF,
            acc == fold16(init as nat + word_sum_upto(bytes@, k)),
        decreases n - i,
    {
        let hi: u8 = bytes[i];
        let lo: u8 = if n - i >= 2 { bytes[i + 1] } else { 0 };
        let w: u32 = (hi as u32) * 256 + (lo as u32);
        proof {
            assert(w == word_at(bytes@, k as int));
            lemma_fold16_add(init as nat + word_sum_upto(bytes@, k), w as nat);
            assert(word_sum_upto(bytes@, k + 1) == word_sum_upto(bytes@, k) + word_at(
                bytes@,
                k as int,
            ));
            k = k + 1;
        }
        acc = fold_step(acc + w);
        if n - i >= 2 {
            i = i + 2;
        } else {
            i = n;
        }
    }
    acc
}

/// Folds a 32-bit sum: while anything stands above bit 15, it is added to the
/// low 16 bits.
pub fn fold_u32(x: u32) -> (r: u32)
    ensures
        r == fold16(x as nat),
        r <= 0xFFFF,
{
    let mut sum: u32 = x;
    while (sum >> 16) != 0
        invariant
            fold16(sum as nat) == fold16(x as nat),
        decreases sum,
    {
        let ghost before = sum;
        assert(before >> 16 != 0 ==> (before & 0xFFFF) + (before >> 16) == before % 0x10000
            + before / 0x10000 && before / 0x10000 >= 1 && before % 0x10000 + before / 0x10000
            < before) by (bit_vector);
        sum = (sum & 0xFFFF) + (sum >> 16);
        proof {
            lemma_fold16_carry((before % 0x10000) as nat, (before / 0x10000) as nat);
        }
    }
    assert(sum >> 16 == 0 ==> sum <= 0xFFFF) by (bit_vector);
    sum
}

/// A carry of `hi` above bit 15 weighs as much as `hi` added to the low bits.
pub proof fn lemma_fold16_carry(lo: nat, hi: nat)
    ensures
        fold16(lo + 0x10000 * hi) == fold16(lo + hi),
{
    assert((lo + 0x10000 * hi) % 0xFFFF == (lo + hi) % 0xFFFF) by {
        assert(lo + 0x10000 * hi == 0xFFFF * hi + (lo + hi)) by (nonlinear_arith);
        vstd::arithmetic::div_mod::lemma_mod_multiples_vanish(
            hi as int,
            (lo + hi) as int,
            0xFFFF,
        );
    }
    assert(lo + 0x10000 * hi == 0 <==> lo + hi == 0) by (nonlinear_arith);
}

/// The folded value of a length.
pub fn fold_len(n: usize) -> (r: u32)
    ensures
        r == fold16(n as nat),
        r <= 0xFFFF,
{
    if n == 0 {
        0
    } else if n % 0xFFFF == 0 {
        0xFFFF
    } else {
        (n % 0xFFFF) as u32
    }
}

/// If `p` is `z` but for word `k`, which is zero in `z` and `c` in `p`, then
/// the words of `p` sum to `c` more than those of `z`.
pub proof fn lemma_word_sum_patch(z: Seq<u8>, p: Seq<u8>, k: int, c: nat)
    requires
        0 <= k,
        2 * k + 1 < z.len(),
        p.len() == z.len(),
        z[2 * k] == 0 && z[2 * k + 1] == 0,
        be16(p[2 * k], p[2 * k + 1]) == c,
        forall|i: int| 0 <= i < z.len() && i != 2 * k && i != 2 * k + 1 ==> p[i] == z[i],
    ensures
        word_sum(p) == word_sum(z) + c,
{
    lemma_word_sum_patch_upto(z, p, k, c, word_count(z.len()));
}

proof fn lemma_word_sum_patch_upto(z: Seq<u8>, p: Seq<u8>, k: int, c: nat, n: nat)
    requires
        0 <= k,
        2 * k + 1 < z.len(),
        p.len() == z.len(),
        z[2 * k] == 0 && z[2 * k + 1] == 0,
        be16(p[2 * k], p[2 * k + 1]) == c,
        forall|i: int| 0 <= i < z.len() && i != 2 * k && i != 2 * k + 1 ==> p[i] == z[i],
        n <= word_count(z.len()),
    ensures
        word_sum_upto(p, n) == word_sum_upto(z, n) + (if n > k {
            c
        } else {
            0
        }),
    decreases n,
{
    if n > 0 {
        lemma_word_sum_patch_upto(z, p, k, c, (n - 1) as nat);
        if n - 1 != k {
            assert(word_at(p, n - 1) == word_at(z, n - 1));
        }
    }
}

/// Data whose words sum to `s`, completed by the checksum of `s`, fold to
/// 0xFFFF, so the checksum over all of it is zero.
pub proof fn lemma_sum_with_checksum(s: nat)
    ensures
        fold16(s + complement16(s)) == 0xFFFF,
        complement16(s + complement16(s)) == 0,
{
    let t = s + complement16(s);
    if s == 0 {
    } else if s % 0xFFFF == 0 {
    } else {
        let q = s / 0xFFFF;
        assert(s == 0xFFFF * q + s % 0xFFFF) by {
            vstd::arithmetic::div_mod::lemma_fundamental_div_mod(s as int, 0xFFFF);
        }
        assert(t == 0xFFFF * (q + 1)) by (nonlinear_arith)
            requires
                s == 0xFFFF * q + s % 0xFFFF,
                t == s + 0xFFFF - s % 0xFFFF,
        ;
        assert(t % 0xFFFF == 0) by {
            vstd::arithmetic::div_mod::lemma_mod_multiples_basic((q + 1) as int, 0xFFFF);
            assert(0xFFFF * (q + 1) == (q + 1) * 0xFFFF) by (nonlinear_arith);
        }
    }
}

/// A checksum computed over data whose words sum to `s` is zero exactly if
/// `s` folds to 0xFFFF.
pub proof fn lemma_zero_iff_all_ones(s: nat)
    ensures
        complement16(s) == 0 <==> fold16(s) == 0xFFFF,
{
}

/// The sum of the pseudo-header that the UDP and TCP checksums cover: the
/// two addresses, the protocol number and the length of the segment.
pub open spec fn pseudo_sum(source: Seq<u8>, destination: Seq<u8>, protocol: nat, length: nat) -> nat
    recommends
        source.len() == 4,
        destination.len() == 4,
{
    be16(source[0], source[1]) + be16(source[2], source[3]) + be16(destination[0], destination[1])
        + be16(destination[2], destination[3]) + protocol + length
}

/// The folded sum of a pseudo-header.
pub fn folded_pseudo_sum(source: &[u8; 4], destination: &[u8; 4], protocol: u8, length: usize) -> (r:
    u32)
    ensures
        r == fold16(pseudo_sum(source@, destination@, protocol as nat, length as nat)),
        r <= 0xFFFF,
{
    let a: u32 = (source[0] as u32) * 256 + (source[1] as u32) + (source[2] as u32) * 256 + (
    source[3] as u32);
    let b: u32 = (destination[0] as u32) * 256 + (destination[1] as u32) + (destination[2] as u32)
        * 256 + (destination[3] as u32);
    let words: u32 = fold_u32(a + b + (protocol as u32));
    let len: u32 = fold_len(length);
    proof {
        lemma_fold16_add((a + b + protocol) as nat, length as nat);
        lemma_fold16_add(length as nat, words as nat);
        assert(fold16(words as nat + len as nat) == fold16(words as nat + length as nat));
        assert(fold16(words as nat + length as nat) == fold16(
            (a + b + protocol) as nat + length as nat,
        ));
    }
    fold_step(words + len)
}

/// The ones-complement of a folded sum, as the checksum field holds it.
pub fn complement(folded: u32) -> (r: u16)
    requires
        folded <= 0xFFFF,
    ensures
        r == 0xFFFF - folded,
{
    (0xFFFF - folded) as u16
}

/// The Internet checksum of `bytes`: sum the 16-bit big-endian words, fold the
/// carries into the low 16 bits, complement.
pub fn internet_checksum(bytes: &[u8]) -> (r: u16)
    ensures
        r == checksum_spec(bytes@),
        r == checksum16(bytes@),
{
    complement(folded_sum(0, bytes))
}

} // verus!
