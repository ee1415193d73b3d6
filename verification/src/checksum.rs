//! The Internet checksum of IPv4 headers and TCP segments.

use pnet::packet::ipv4;
use pnet::packet::tcp;
use vstd::prelude::*;

use crate::addr::{IpAddr, Ipv4Addr, Ipv6Addr};
use crate::octets::be_bytes;

verus! {

/// The sum of the 16-bit words of `s`, with a zero byte behind an odd last one.
pub open spec fn word_sum(s: Seq<u8>) -> nat
    decreases s.len(),
{
    if s.len() == 0 {
        0
    } else if s.len() == 1 {
        s[0] as nat * 256
    } else {
        s[0] as nat * 256 + s[1] as nat + word_sum(s.skip(2))
    }
}

/// A sum of words with every carry out of the 16 bits added back in.
pub open spec fn end_around(sum: nat) -> nat {
    if sum == 0 {
        0
    } else {
        ((sum - 1) % 0xffff + 1) as nat
    }
}

/// The Internet checksum of data whose words add up to `sum`: the complement of that sum.
pub open spec fn checksum_of(sum: nat) -> u16 {
    (0xffff - end_around(sum)) as u16
}

/// `s` with the two bytes at `at` regarded as zero.
pub open spec fn without_word(s: Seq<u8>, at: int) -> Seq<u8> {
    s.update(at, 0).update(at + 1, 0)
}

/// Where the checksum stands in an IPv4 header.
pub open spec fn ipv4_checksum_at() -> int {
    10
}

/// Where the checksum stands in a TCP header.
pub open spec fn tcp_checksum_at() -> int {
    16
}

/// The checksum of an IPv4 header, its checksum field regarded as zero.
pub open spec fn ipv4_checksum(header: Seq<u8>) -> u16 {
    checksum_of(word_sum(without_word(header, ipv4_checksum_at())))
}

/// What precedes a TCP segment of `len` bytes in the data that its checksum covers.
pub open spec fn pseudo_header(source: IpAddr, destination: IpAddr, len: nat) -> Seq<u8> {
    match (source, destination) {
        (IpAddr::V4(source), IpAddr::V4(destination)) => be_bytes(source.bits as nat, 4) + be_bytes(
            destination.bits as nat,
            4,
        ) + seq![0u8, 6u8] + be_bytes(len, 2),
        (IpAddr::V6(source), IpAddr::V6(destination)) => be_bytes(source.bits as nat, 16)
            + be_bytes(destination.bits as nat, 16) + be_bytes(len, 4) + seq![0u8, 0u8, 0u8, 6u8],
        _ => Seq::empty(),
    }
}

/// The checksum of a TCP segment between two hosts, its checksum field regarded as zero.
pub open spec fn tcp_checksum(source: IpAddr, destination: IpAddr, segment: Seq<u8>) -> u16 {
    checksum_of(
        word_sum(
            pseudo_header(source, destination, segment.len()) + without_word(
                segment,
                tcp_checksum_at(),
            ),
        ),
    )
}

/// Whether a receiver that adds up all words of `s`, checksum included, finds them intact.
pub open spec fn checksum_holds(s: Seq<u8>) -> bool {
    end_around(word_sum(s)) == 0xffff
}

/// `pnet::packet::ipv4::checksum` on a header of the least length: the Internet checksum of the
/// twenty bytes, with the checksum field counted as zero.
#[verifier::external_body]
pub(crate) fn pnet_ipv4_checksum(header: &[u8]) -> (sum: u16)
    requires
        header@.len() == 20,
    ensures
        sum == ipv4_checksum(header@),
{
    ipv4::checksum(&ipv4::Ipv4Packet::new(header).unwrap())
}

/// `pnet::packet::tcp::ipv4_checksum`: the Internet checksum of the segment behind the IPv4
/// pseudo-header of the two addresses, with the checksum field counted as zero. Segments are
/// bounded by what the 16-bit length in that pseudo-header can say.
#[verifier::external_body]
pub(crate) fn pnet_tcp_ipv4_checksum(segment: &[u8], source: Ipv4Addr, destination: Ipv4Addr) -> (sum:
    u16)
    requires
        20 <= segment@.len() <= 0xffff,
    ensures
        sum == tcp_checksum(IpAddr::V4(source), IpAddr::V4(destination), segment@),
{
    let packet = tcp::TcpPacket::new(segment).unwrap();
    tcp::ipv4_checksum(&packet, &source.bits.into(), &destination.bits.into())
}

/// `pnet::packet::tcp::ipv6_checksum`: the Internet checksum of the segment behind the IPv6
/// pseudo-header of the two addresses, with the checksum field counted as zero. Segments are
/// bounded by the 16-bit payload length of an IPv6 header.
#[verifier::external_body]
pub(crate) fn pnet_tcp_ipv6_checksum(segment: &[u8], source: Ipv6Addr, destination: Ipv6Addr) -> (sum:
    u16)
    requires
        20 <= segment@.len() <= 0xffff,
    ensures
        sum == tcp_checksum(IpAddr::V6(source), IpAddr::V6(destination), segment@),
{
    let packet = tcp::TcpPacket::new(segment).unwrap();
    tcp::ipv6_checksum(&packet, &source.bits.into(), &destination.bits.into())
}

/// The words of two pieces add up separately when the first piece ends on a word.
pub proof fn lemma_word_sum_concat(a: Seq<u8>, b: Seq<u8>)
    requires
        a.len() % 2 == 0,
    ensures
        word_sum(a + b) == word_sum(a) + word_sum(b),
    decreases a.len(),
{
    if a.len() == 0 {
        assert(a + b =~= b);
    } else {
        assert((a + b).skip(2) =~= a.skip(2) + b);
        lemma_word_sum_concat(a.skip(2), b);
    }
}

/// A word that stood at zero adds its value to the sum when it is filled in.
pub proof fn lemma_word_sum_filled(s: Seq<u8>, at: int, sum: u16)
    requires
        0 <= at,
        at % 2 == 0,
        at + 2 <= s.len(),
        s.subrange(at, at + 2) == be_bytes(sum as nat, 2),
    ensures
        word_sum(s) == word_sum(without_word(s, at)) + sum,
{
    let word = s.subrange(at, at + 2);
    let zero = seq![0u8, 0u8];
    let before = s.take(at);
    let after = s.skip(at + 2);
    reveal_with_fuel(be_bytes, 3);
    reveal_with_fuel(word_sum, 2);
    assert(word[0] as nat * 256 + word[1] as nat == sum);
    assert(word.skip(2) =~= Seq::empty() && zero.skip(2) =~= Seq::empty());
    assert(s =~= before + (word + after));
    assert(without_word(s, at) =~= before + (zero + after));
    lemma_word_sum_concat(before, word + after);
    lemma_word_sum_concat(word, after);
    lemma_word_sum_concat(before, zero + after);
    lemma_word_sum_concat(zero, after);
}

/// Filling in the checksum of the remaining words makes the whole check out.
pub proof fn lemma_checksum_completes(sum: nat)
    ensures
        end_around(sum + checksum_of(sum) as nat) == 0xffff,
{
    let c = checksum_of(sum) as nat;
    assert(c == 0xffff - end_around(sum));
    if sum > 0 {
        let q = ((sum - 1) / 0xffff) as nat;
        let r = ((sum - 1) % 0xffff) as nat;
        assert(sum - 1 == 0xffff * q + r);
        assert(c == 0xffff - (r + 1));
        assert(sum + c - 1 == 0xffff * q + 0xfffe);
        assert((sum + c - 1) % 0xffff == 0xfffe);
    }
}

/// What the Internet checksum of RFC 1071 adds up: words of two bytes, the first the more
/// significant, an odd byte as the first of its word. Data is intact when the sum is no zero and a
/// multiple of 0xffff, which is zero in one's complement.
pub proof fn law_words_add_up(a: u8, b: u8, s: Seq<u8>, t: Seq<u8>)
    ensures
        word_sum(Seq::empty()) == 0,
        word_sum(seq![a]) == a * 256,
        word_sum(seq![a, b]) == a * 256 + b,
        s.len() % 2 == 0 ==> word_sum(s + t) == word_sum(s) + word_sum(t),
        checksum_holds(s) <==> word_sum(s) > 0 && word_sum(s) % 0xffff == 0,
{
    reveal_with_fuel(word_sum, 2);
    assert(seq![a, b].skip(2) =~= Seq::empty());
    if s.len() % 2 == 0 {
        lemma_word_sum_concat(s, t);
    }
}

} // verus!
