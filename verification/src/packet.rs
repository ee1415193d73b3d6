//! TCP segments inside IP packets: building them and reading them.

use pnet::packet::tcp::TcpPacket;
use pnet::packet::Packet;
use vstd::prelude::*;
use vstd::slice::slice_subrange;

use crate::addr::{same_family, IpAddr, Ipv4Addr, Ipv6Addr, SocketAddr};
use crate::checksum::{
    checksum_holds, ipv4_checksum, ipv4_checksum_at, lemma_checksum_completes,
    lemma_word_sum_concat, lemma_word_sum_filled, pnet_ipv4_checksum, pnet_tcp_ipv4_checksum,
    pnet_tcp_ipv6_checksum, pseudo_header, tcp_checksum, tcp_checksum_at, without_word, word_sum,
};
use crate::octets::{
    be_at, be_bytes, be_value, lemma_be_at_words, lemma_be_bytes_len, lemma_be_round_trip,
    lemma_be_value_bound, lemma_pow256_values, push_be, read_be,
};

verus! {

broadcast use lemma_be_bytes_len;

/// The largest packet that is read from a Tun interface.
pub const MAX_PACKET_LEN: usize = 1500;

/// "Synchronize sequence numbers": the flag of an opening segment.
pub const SYN: u8 = 2;

/// "Reset the connection."
pub const RST: u8 = 4;

/// "The acknowledgement field is significant."
pub const ACK: u8 = 16;

/// `SYN` and `ACK` together: the flags of the answer to an opening segment.
pub const SYN_ACK: u8 = 18;

/// `RST` and `ACK` together: the flags of the answer to a segment of no connection.
pub const RST_ACK: u8 = 20;

/// A TCP segment with the addresses of the packet that carried it.
#[derive(Debug)]
pub struct Segment {
    pub source: SocketAddr,
    pub destination: SocketAddr,
    pub sequence: u32,
    pub acknowledgement: u32,
    pub flags: u8,
    pub payload: Vec<u8>,
}

/// What a segment says.
#[verifier::ext_equal]
pub struct SegmentView {
    pub source: SocketAddr,
    pub destination: SocketAddr,
    pub sequence: u32,
    pub acknowledgement: u32,
    pub flags: u8,
    pub payload: Seq<u8>,
}

impl View for Segment {
    type V = SegmentView;

    open spec fn view(&self) -> SegmentView {
        SegmentView {
            source: self.source,
            destination: self.destination,
            sequence: self.sequence,
            acknowledgement: self.acknowledgement,
            flags: self.flags,
            payload: self.payload@,
        }
    }
}

/// Where the payload starts in a TCP segment: behind the header and its options.
pub open spec fn payload_start(segment: Seq<u8>) -> int {
    if segment[12] / 16 > 5 {
        segment[12] / 16 * 4
    } else {
        20
    }
}

/// The payload of a TCP segment, empty where the options reach past its end.
pub open spec fn payload_of(segment: Seq<u8>) -> Seq<u8> {
    if segment.len() <= payload_start(segment) {
        Seq::empty()
    } else {
        segment.skip(payload_start(segment))
    }
}

/// Where the TCP segment starts in an IP packet, if the packet carries a whole TCP header.
pub open spec fn segment_start(buf: Seq<u8>) -> Option<int> {
    if buf.len() < 40 {
        None
    } else if buf[0] / 16 == 4 && buf[0] % 16 >= 5 && buf[9] == 6 && buf.len() >= buf[0] % 16 * 4
        + 20 {
        Some(buf[0] % 16 * 4)
    } else if buf[0] / 16 == 6 && buf[6] == 6 && buf.len() >= 60 {
        Some(40)
    } else {
        None
    }
}

/// The source address of an IP packet.
pub open spec fn ip_source(buf: Seq<u8>) -> IpAddr {
    if buf[0] / 16 == 4 {
        IpAddr::V4(Ipv4Addr { bits: be_at(buf, 12, 4) as u32 })
    } else {
        IpAddr::V6(Ipv6Addr { bits: be_at(buf, 8, 16) as u128 })
    }
}

/// The destination address of an IP packet.
pub open spec fn ip_destination(buf: Seq<u8>) -> IpAddr {
    if buf[0] / 16 == 4 {
        IpAddr::V4(Ipv4Addr { bits: be_at(buf, 16, 4) as u32 })
    } else {
        IpAddr::V6(Ipv6Addr { bits: be_at(buf, 24, 16) as u128 })
    }
}

/// What an IP packet says, if it carries a TCP segment.
#[verifier::opaque]
pub open spec fn parsed(buf: Seq<u8>) -> Option<SegmentView> {
    match segment_start(buf) {
        None => None,
        Some(start) => {
            let tcp = buf.skip(start);
            Some(
                SegmentView {
                    source: SocketAddr::plain(ip_source(buf), be_at(tcp, 0, 2) as u16),
                    destination: SocketAddr::plain(ip_destination(buf), be_at(tcp, 2, 2) as u16),
                    sequence: be_at(tcp, 4, 4) as u32,
                    acknowledgement: be_at(tcp, 8, 4) as u32,
                    flags: tcp[13],
                    payload: payload_of(tcp),
                },
            )
        },
    }
}

/// `TcpPacket::get_source` of pnet: the first two bytes of the segment.
#[verifier::external_body]
fn pnet_source(segment: &[u8]) -> (port: u16)
    requires
        segment@.len() >= 20,
    ensures
        port == be_at(segment@, 0, 2),
{
    TcpPacket::new(segment).unwrap().get_source()
}

/// `TcpPacket::get_destination` of pnet: the two bytes behind the source port.
#[verifier::external_body]
fn pnet_destination(segment: &[u8]) -> (port: u16)
    requires
        segment@.len() >= 20,
    ensures
        port == be_at(segment@, 2, 2),
{
    TcpPacket::new(segment).unwrap().get_destination()
}

/// `TcpPacket::get_sequence` of pnet: the four bytes behind the ports.
#[verifier::external_body]
fn pnet_sequence(segment: &[u8]) -> (sequence: u32)
    requires
        segment@.len() >= 20,
    ensures
        sequence == be_at(segment@, 4, 4),
{
    TcpPacket::new(segment).unwrap().get_sequence()
}

/// `TcpPacket::get_acknowledgement` of pnet: the four bytes behind the sequence number.
#[verifier::external_body]
fn pnet_acknowledgement(segment: &[u8]) -> (acknowledgement: u32)
    requires
        segment@.len() >= 20,
    ensures
        acknowledgement == be_at(segment@, 8, 4),
{
    TcpPacket::new(segment).unwrap().get_acknowledgement()
}

/// `TcpPacket::get_flags` of pnet: the byte behind the data offset.
#[verifier::external_body]
fn pnet_flags(segment: &[u8]) -> (flags: u8)
    requires
        segment@.len() >= 20,
    ensures
        flags == segment@[13],
{
    TcpPacket::new(segment).unwrap().get_flags()
}

/// `TcpPacket::payload` of pnet, copied: all that follows the header and the options whose length
/// the data offset gives, or nothing where they reach past the end of the segment.
#[verifier::external_body]
fn pnet_payload(segment: &[u8]) -> (payload: Vec<u8>)
    requires
        segment@.len() >= 20,
    ensures
        payload@ == payload_of(segment@),
{
    TcpPacket::new(segment).unwrap().payload().to_vec()
}

/// Where the TCP segment starts in an IP packet, if the packet carries a whole TCP header.
fn find_segment(buf: &[u8]) -> (start: Option<usize>)
    ensures
        match start {
            Some(at) => segment_start(buf@) == Some(at as int),
            None => segment_start(buf@) is None,
        },
{
    if buf.len() < 40 {
        return None;
    }
    let version: u8 = buf[0] / 16;
    if version == 4 {
        let header: usize = (buf[0] % 16) as usize * 4;
        if header >= 20 && buf[9] == 6 && buf.len() >= header + 20 {
            return Some(header);
        }
    } else if version == 6 {
        if buf[6] == 6 && buf.len() >= 60 {
            return Some(40);
        }
    }
    None
}

/// The source and the destination address of an IP packet.
fn read_addresses(buf: &[u8]) -> (addresses: (IpAddr, IpAddr))
    requires
        segment_start(buf@) is Some,
    ensures
        addresses == (ip_source(buf@), ip_destination(buf@)),
{
    proof {
        lemma_pow256_values();
    }
    if buf[0] / 16 == 4 {
        let source: u32 = read_be(buf, 12, 4) as u32;
        let destination: u32 = read_be(buf, 16, 4) as u32;
        (
            IpAddr::V4(Ipv4Addr { bits: source }),
            IpAddr::V4(Ipv4Addr { bits: destination }),
        )
    } else {
        let source: u128 = read_be(buf, 8, 16);
        let destination: u128 = read_be(buf, 24, 16);
        (
            IpAddr::V6(Ipv6Addr { bits: source }),
            IpAddr::V6(Ipv6Addr { bits: destination }),
        )
    }
}

/// Reads an IP packet. `None` is the answer to anything that does not carry a TCP segment with a
/// whole header. The segment is taken to reach to the end of the packet; the checksums and the
/// length in the IP header are not looked at.
pub fn parse_ip_packet(buf: &[u8]) -> (segment: Option<Segment>)
    ensures
        match segment {
            Some(segment) => parsed(buf@) == Some(segment@) && same_family(
                segment.source.ip,
                segment.destination.ip,
            ),
            None => parsed(buf@) is None,
        },
{
    proof {
        reveal(parsed);
    }
    match find_segment(buf) {
        None => None,
        Some(start) => {
            let (source, destination) = read_addresses(buf);
            let tcp = slice_subrange(buf, start, buf.len());
            assert(tcp@ =~= buf@.skip(start as int));
            let segment = Segment {
                source: SocketAddr::new(source, pnet_source(tcp)),
                destination: SocketAddr::new(destination, pnet_destination(tcp)),
                sequence: pnet_sequence(tcp),
                acknowledgement: pnet_acknowledgement(tcp),
                flags: pnet_flags(tcp),
                payload: pnet_payload(tcp),
            };
            Some(segment)
        },
    }
}

/// The bytes that a segment built with `payload` carries.
pub open spec fn payload_bytes(payload: Option<&[u8]>) -> Seq<u8> {
    match payload {
        Some(payload) => payload@,
        None => Seq::empty(),
    }
}

/// The options of a segment with these flags. An opening segment offers to scale the window by
/// fourteen bits, behind one byte of padding; others have none.
pub open spec fn options(flags: u8) -> Seq<u8> {
    if flags & SYN != 0 {
        seq![1u8, 3u8, 3u8, 14u8]
    } else {
        Seq::empty()
    }
}

/// The length of a segment with these flags and `n` bytes of payload.
pub open spec fn segment_len(flags: u8, n: nat) -> nat {
    20 + options(flags).len() + n
}

/// Whether the 16-bit length in the IP header can tell the length of such a segment.
pub open spec fn fits(ip: IpAddr, flags: u8, n: nat) -> bool {
    match ip {
        IpAddr::V4(_) => 20 + segment_len(flags, n) <= 0xffff,
        IpAddr::V6(_) => segment_len(flags, n) <= 0xffff,
    }
}

/// Whether the 16-bit length in the IP header can tell the length of a segment with these flags and
/// `n` bytes of payload.
pub fn payload_fits(ip: IpAddr, flags: u8, n: usize) -> (yes: bool)
    ensures
        yes == fits(ip, flags, n as nat),
{
    let limit: usize = match ip {
        IpAddr::V4(_) => 0xffff - 40,
        IpAddr::V6(_) => 0xffff - 20,
    };
    if flags & SYN != 0 {
        n <= limit - 4
    } else {
        n <= limit
    }
}

/// A TCP header: the ports, both numbers, the header's length in words, the flags, an open window,
/// the checksum, no urgent data and the options.
pub open spec fn tcp_header(
    source: u16,
    destination: u16,
    seq: u32,
    ack: u32,
    flags: u8,
    checksum: u16,
) -> Seq<u8> {
    be_bytes(source as nat, 2) + be_bytes(destination as nat, 2) + be_bytes(seq as nat, 4)
        + be_bytes(ack as nat, 4) + seq![
        (80 + 4 * options(flags).len()) as u8,
        flags,
        0xffu8,
        0xffu8,
    ] + be_bytes(checksum as nat, 2) + seq![0u8, 0u8] + options(flags)
}

/// A TCP segment without its checksum.
pub open spec fn blank_segment(
    source: SocketAddr,
    destination: SocketAddr,
    seq: u32,
    ack: u32,
    flags: u8,
    payload: Seq<u8>,
) -> Seq<u8> {
    tcp_header(source.port, destination.port, seq, ack, flags, 0) + payload
}

/// A TCP segment with its checksum.
pub open spec fn tcp_segment(
    source: SocketAddr,
    destination: SocketAddr,
    seq: u32,
    ack: u32,
    flags: u8,
    payload: Seq<u8>,
) -> Seq<u8> {
    let checksum = tcp_checksum(
        source.ip,
        destination.ip,
        blank_segment(source, destination, seq, ack, flags, payload),
    );
    tcp_header(source.port, destination.port, seq, ack, flags, checksum) + payload
}

/// An IPv4 header for `len` bytes of TCP: no options, not to be fragmented, 64 hops to live.
pub open spec fn ipv4_header(
    source: Ipv4Addr,
    destination: Ipv4Addr,
    len: nat,
    checksum: u16,
) -> Seq<u8> {
    seq![0x45u8, 0u8] + be_bytes(20 + len, 2) + seq![0u8, 0u8, 0x40u8, 0u8, 64u8, 6u8] + be_bytes(
        checksum as nat,
        2,
    ) + be_bytes(source.bits as nat, 4) + be_bytes(destination.bits as nat, 4)
}

/// An IPv6 header for `len` bytes of TCP: no extensions, 64 hops to live.
pub open spec fn ipv6_header(source: Ipv6Addr, destination: Ipv6Addr, len: nat) -> Seq<u8> {
    seq![0x60u8, 0u8, 0u8, 0u8] + be_bytes(len, 2) + seq![6u8, 64u8] + be_bytes(
        source.bits as nat,
        16,
    ) + be_bytes(destination.bits as nat, 16)
}

/// The IP header for `len` bytes of TCP between two hosts of one family.
pub open spec fn ip_header(source: IpAddr, destination: IpAddr, len: nat) -> Seq<u8> {
    match (source, destination) {
        (IpAddr::V4(source), IpAddr::V4(destination)) => ipv4_header(
            source,
            destination,
            len,
            ipv4_checksum(ipv4_header(source, destination, len, 0)),
        ),
        (IpAddr::V6(source), IpAddr::V6(destination)) => ipv6_header(source, destination, len),
        _ => Seq::empty(),
    }
}

/// The IP packet that carries a segment from `local_addr` to `remote_addr`.
#[verifier::opaque]
pub open spec fn tcp_packet(
    local_addr: SocketAddr,
    remote_addr: SocketAddr,
    seq: u32,
    ack: u32,
    flags: u8,
    payload: Seq<u8>,
) -> Seq<u8> {
    ip_header(local_addr.ip, remote_addr.ip, segment_len(flags, payload.len())) + tcp_segment(
        local_addr,
        remote_addr,
        seq,
        ack,
        flags,
        payload,
    )
}

/// Puts `x` into the two bytes at `at`.
fn set_u16(out: &mut Vec<u8>, at: usize, x: u16)
    requires
        at + 2 <= old(out).len(),
    ensures
        final(out)@ == old(out)@.update(at as int, (x / 256) as u8).update(
            at + 1,
            (x % 256) as u8,
        ),
{
    out[at] = (x / 256) as u8;
    out[at + 1] = (x % 256) as u8;
}

/// Builds a TCP segment with its checksum.
fn build_segment(
    local_addr: SocketAddr,
    remote_addr: SocketAddr,
    seq: u32,
    ack: u32,
    flags: u8,
    payload: Option<&[u8]>,
) -> (segment: Vec<u8>)
    requires
        same_family(local_addr.ip, remote_addr.ip),
        segment_len(flags, payload_bytes(payload).len()) <= 0xffff,
    ensures
        segment@ == tcp_segment(
            local_addr,
            remote_addr,
            seq,
            ack,
            flags,
            payload_bytes(payload),
        ),
        segment@.len() == segment_len(flags, payload_bytes(payload).len()),
{
    let mut out: Vec<u8> = Vec::new();
    push_be(&mut out, local_addr.port as u128, 2);
    push_be(&mut out, remote_addr.port as u128, 2);
    push_be(&mut out, seq as u128, 4);
    push_be(&mut out, ack as u128, 4);
    let opening: bool = flags & SYN != 0;
    out.push(if opening { 96 } else { 80 });
    out.push(flags);
    push_be(&mut out, 0xffff, 2);
    push_be(&mut out, 0, 2);
    push_be(&mut out, 0, 2);
    if opening {
        out.push(1);
        out.push(3);
        out.push(3);
        out.push(14);
    }
    proof {
        reveal_with_fuel(be_bytes, 3);
        assert(out@ =~= tcp_header(local_addr.port, remote_addr.port, seq, ack, flags, 0));
    }
    match payload {
        Some(payload) => {
            let ghost header = out@;
            out.extend_from_slice(payload);
            assert(out@ =~= header + payload@);
        },
        None => {
            assert(out@ =~= out@ + Seq::<u8>::empty());
        },
    }
    let checksum: u16 = match (local_addr.ip, remote_addr.ip) {
        (IpAddr::V4(local), IpAddr::V4(remote)) => pnet_tcp_ipv4_checksum(
            out.as_slice(),
            local,
            remote,
        ),
        (IpAddr::V6(local), IpAddr::V6(remote)) => pnet_tcp_ipv6_checksum(
            out.as_slice(),
            local,
            remote,
        ),
        _ => 0,
    };
    set_u16(&mut out, 16, checksum);
    proof {
        reveal_with_fuel(be_bytes, 3);
        assert(out@ =~= tcp_header(
            local_addr.port,
            remote_addr.port,
            seq,
            ack,
            flags,
            checksum,
        ) + payload_bytes(payload));
    }
    out
}

/// Builds the IP header for `len` bytes of TCP.
fn build_ip_header(local_ip: IpAddr, remote_ip: IpAddr, len: usize) -> (header: Vec<u8>)
    requires
        same_family(local_ip, remote_ip),
        local_ip is V4 ==> 20 + len <= 0xffff,
        len <= 0xffff,
    ensures
        header@ == ip_header(local_ip, remote_ip, len as nat),
{
    let mut out: Vec<u8> = Vec::new();
    match (local_ip, remote_ip) {
        (IpAddr::V4(local), IpAddr::V4(remote)) => {
            out.push(0x45);
            out.push(0);
            push_be(&mut out, 20 + len as u128, 2);
            push_be(&mut out, 0, 2);
            push_be(&mut out, 0x4000, 2);
            out.push(64);
            out.push(6);
            push_be(&mut out, 0, 2);
            push_be(&mut out, local.bits as u128, 4);
            push_be(&mut out, remote.bits as u128, 4);
            proof {
                reveal_with_fuel(be_bytes, 3);
                assert(out@ =~= ipv4_header(local, remote, len as nat, 0));
            }
            let checksum: u16 = pnet_ipv4_checksum(out.as_slice());
            set_u16(&mut out, 10, checksum);
            assert(out@ =~= ipv4_header(local, remote, len as nat, checksum)) by {
                reveal_with_fuel(be_bytes, 3);
            }
        },
        (IpAddr::V6(local), IpAddr::V6(remote)) => {
            out.push(0x60);
            out.push(0);
            push_be(&mut out, 0, 2);
            push_be(&mut out, len as u128, 2);
            out.push(6);
            out.push(64);
            push_be(&mut out, local.bits, 16);
            push_be(&mut out, remote.bits, 16);
            proof {
                reveal_with_fuel(be_bytes, 3);
                assert(out@ =~= ipv6_header(local, remote, len as nat));
            }
        },
        _ => {},
    }
    out
}

/// Builds the IP packet that carries a segment from `local_addr` to `remote_addr`.
pub fn build_tcp_packet(
    local_addr: SocketAddr,
    remote_addr: SocketAddr,
    seq: u32,
    ack: u32,
    flags: u8,
    payload: Option<&[u8]>,
) -> (packet: Vec<u8>)
    requires
        same_family(local_addr.ip, remote_addr.ip),
        fits(local_addr.ip, flags, payload_bytes(payload).len()),
    ensures
        packet@ == tcp_packet(local_addr, remote_addr, seq, ack, flags, payload_bytes(payload)),
{
    proof {
        reveal(tcp_packet);
    }
    let mut segment = build_segment(local_addr, remote_addr, seq, ack, flags, payload);
    let mut packet = build_ip_header(local_addr.ip, remote_addr.ip, segment.len());
    packet.append(&mut segment);
    packet
}

/// Reading a packet that was built gives back the addresses and ports, the numbers, the flags and
/// the payload that it was built from.
pub proof fn law_parse_inverts_build(
    local_addr: SocketAddr,
    remote_addr: SocketAddr,
    seq: u32,
    ack: u32,
    flags: u8,
    payload: Seq<u8>,
)
    requires
        same_family(local_addr.ip, remote_addr.ip),
        fits(local_addr.ip, flags, payload.len()),
    ensures
        parsed(tcp_packet(local_addr, remote_addr, seq, ack, flags, payload)) == Some(
            SegmentView {
                source: local_addr.on_wire(),
                destination: remote_addr.on_wire(),
                sequence: seq,
                acknowledgement: ack,
                flags,
                payload,
            },
        ),
{
    let buf = tcp_packet(local_addr, remote_addr, seq, ack, flags, payload);
    let tcp = tcp_segment(local_addr, remote_addr, seq, ack, flags, payload);
    let header = ip_header(local_addr.ip, remote_addr.ip, segment_len(flags, payload.len()));
    reveal(parsed);
    reveal(tcp_packet);
    lemma_pow256_values();
    lemma_be_round_trip(local_addr.port as nat, 2);
    lemma_be_round_trip(remote_addr.port as nat, 2);
    lemma_be_round_trip(seq as nat, 4);
    lemma_be_round_trip(ack as nat, 4);
    assert(tcp.subrange(0, 2) =~= be_bytes(local_addr.port as nat, 2));
    assert(tcp.subrange(2, 4) =~= be_bytes(remote_addr.port as nat, 2));
    assert(tcp.subrange(4, 8) =~= be_bytes(seq as nat, 4));
    assert(tcp.subrange(8, 12) =~= be_bytes(ack as nat, 4));
    assert(payload_of(tcp) =~= payload);
    match (local_addr.ip, remote_addr.ip) {
        (IpAddr::V4(local), IpAddr::V4(remote)) => {
            lemma_be_round_trip(local.bits as nat, 4);
            lemma_be_round_trip(remote.bits as nat, 4);
            assert(buf.subrange(12, 16) =~= be_bytes(local.bits as nat, 4));
            assert(buf.subrange(16, 20) =~= be_bytes(remote.bits as nat, 4));
        },
        (IpAddr::V6(local), IpAddr::V6(remote)) => {
            lemma_be_round_trip(local.bits as nat, 16);
            lemma_be_round_trip(remote.bits as nat, 16);
            assert(buf.subrange(8, 24) =~= be_bytes(local.bits as nat, 16));
            assert(buf.subrange(24, 40) =~= be_bytes(remote.bits as nat, 16));
        },
        _ => {},
    }
    assert(buf.skip(header.len() as int) =~= tcp);
}

/// The checksums of a packet that was built check out: that of the segment together with its
/// pseudo-header, and that of the IPv4 header where there is one.
pub proof fn law_built_checksums_hold(
    local_addr: SocketAddr,
    remote_addr: SocketAddr,
    seq: u32,
    ack: u32,
    flags: u8,
    payload: Seq<u8>,
)
    requires
        same_family(local_addr.ip, remote_addr.ip),
        fits(local_addr.ip, flags, payload.len()),
    ensures
        ({
            let segment = tcp_segment(local_addr, remote_addr, seq, ack, flags, payload);
            checksum_holds(pseudo_header(local_addr.ip, remote_addr.ip, segment.len()) + segment)
        }),
        local_addr.ip is V4 ==> checksum_holds(
            ip_header(local_addr.ip, remote_addr.ip, segment_len(flags, payload.len())),
        ),
{
    let segment = tcp_segment(local_addr, remote_addr, seq, ack, flags, payload);
    let blank = blank_segment(local_addr, remote_addr, seq, ack, flags, payload);
    let pseudo = pseudo_header(local_addr.ip, remote_addr.ip, segment.len());
    let sum = tcp_checksum(local_addr.ip, remote_addr.ip, blank);
    assert(segment.len() == blank.len());
    assert(without_word(segment, tcp_checksum_at()) =~= without_word(blank, tcp_checksum_at()));
    assert(segment.subrange(16, 18) =~= be_bytes(sum as nat, 2));
    lemma_word_sum_filled(segment, tcp_checksum_at(), sum);
    lemma_word_sum_concat(pseudo, segment);
    lemma_word_sum_concat(pseudo, without_word(blank, tcp_checksum_at()));
    lemma_checksum_completes(word_sum(pseudo + without_word(blank, tcp_checksum_at())));
    match (local_addr.ip, remote_addr.ip) {
        (IpAddr::V4(local), IpAddr::V4(remote)) => {
            let len = segment_len(flags, payload.len());
            let bare = ipv4_header(local, remote, len, 0);
            let sum = ipv4_checksum(bare);
            let header = ipv4_header(local, remote, len, sum);
            assert(without_word(header, ipv4_checksum_at()) =~= without_word(
                bare,
                ipv4_checksum_at(),
            ));
            assert(header.subrange(10, 12) =~= be_bytes(sum as nat, 2));
            lemma_word_sum_filled(header, ipv4_checksum_at(), sum);
            lemma_checksum_completes(word_sum(without_word(bare, ipv4_checksum_at())));
        },
        _ => {},
    }
}

/// What a packet says, field by field: that it carries a segment between the addresses and ports of
/// two endpoints, with these numbers, these flags and this payload.
pub open spec fn says(
    packet: Seq<u8>,
    from: SocketAddr,
    to: SocketAddr,
    sequence: u32,
    acknowledgement: u32,
    flags: u8,
    payload: Seq<u8>,
) -> bool {
    let segment = parsed(packet)->0;
    &&& parsed(packet) is Some
    &&& segment.source.ip == from.ip
    &&& segment.source.port == from.port
    &&& segment.destination.ip == to.ip
    &&& segment.destination.port == to.port
    &&& segment.sequence == sequence
    &&& segment.acknowledgement == acknowledgement
    &&& segment.flags == flags
    &&& segment.payload == payload
}

/// The flags are the bits that TCP gives them, and a segment with one of the combinations that the
/// stack sends counts as a reset only where it has `RST`.
pub proof fn law_flags()
    ensures
        SYN == 0x02,
        RST == 0x04,
        ACK == 0x10,
        SYN_ACK == SYN + ACK,
        RST_ACK == RST + ACK,
        SYN & RST == 0,
        ACK & RST == 0,
        SYN_ACK & RST == 0,
        RST & RST != 0,
        RST_ACK & RST != 0,
        SYN & SYN != 0,
        SYN_ACK & SYN != 0,
        ACK & SYN == 0,
        RST & SYN == 0,
        RST_ACK & SYN == 0,
{
    assert(2u8 & 4u8 == 0 && 16u8 & 4u8 == 0 && 18u8 & 4u8 == 0 && 4u8 & 4u8 != 0 && 20u8 & 4u8
        != 0) by (bit_vector);
    assert(2u8 & 2u8 != 0 && 18u8 & 2u8 != 0 && 16u8 & 2u8 == 0 && 4u8 & 2u8 == 0 && 20u8 & 2u8
        == 0) by (bit_vector);
}

/// A datagram fits into one packet exactly if the packet is within the 65535 bytes that the length
/// in its IP header can tell, which counts the IP header for IPv4 and does not for IPv6. The TCP
/// header takes 20 bytes, and four more in an opening segment.
pub proof fn law_room_for_payload(ip: IpAddr, flags: u8, n: nat)
    ensures
        ip is V4 && flags & SYN == 0 ==> (fits(ip, flags, n) <==> n <= 65495),
        ip is V4 && flags & SYN != 0 ==> (fits(ip, flags, n) <==> n <= 65491),
        ip is V6 && flags & SYN == 0 ==> (fits(ip, flags, n) <==> n <= 65515),
        ip is V6 && flags & SYN != 0 ==> (fits(ip, flags, n) <==> n <= 65511),
{
}

/// A payload is carried whole, and no payload is an empty one.
pub proof fn law_payload_is_whole(payload: Option<&[u8]>)
    ensures
        payload is Some ==> payload_bytes(payload) == payload->0@,
        payload is None ==> payload_bytes(payload).len() == 0,
{
}

/// A packet that is built says what it was built from.
pub proof fn law_built_packet_says(
    local_addr: SocketAddr,
    remote_addr: SocketAddr,
    seq: u32,
    ack: u32,
    flags: u8,
    payload: Seq<u8>,
)
    requires
        local_addr.ip is V4 <==> remote_addr.ip is V4,
        payload.len() + (if local_addr.ip is V4 {
            20int
        } else {
            0
        }) + (if flags & SYN != 0 {
            4int
        } else {
            0
        }) <= 65515,
    ensures
        says(
            tcp_packet(local_addr, remote_addr, seq, ack, flags, payload),
            local_addr,
            remote_addr,
            seq,
            ack,
            flags,
            payload,
        ),
{
    law_room_for_payload(local_addr.ip, flags, payload.len());
    law_parse_inverts_build(local_addr, remote_addr, seq, ack, flags, payload);
}

/// Whether `s` is what stands in the TCP segment from byte `at` of `buf` on: the ports, the numbers,
/// the flags, and as payload all that follows the header and its options.
pub open spec fn reads_tcp(s: SegmentView, buf: Seq<u8>, at: int) -> bool {
    let offset = 4 * (buf[at + 12] / 16);
    let start = at + if offset > 20 {
        offset as int
    } else {
        20
    };
    &&& s.source.port == buf[at] * 0x100 + buf[at + 1]
    &&& s.destination.port == buf[at + 2] * 0x100 + buf[at + 3]
    &&& s.sequence == buf[at + 4] * 0x100_0000 + buf[at + 5] * 0x1_0000 + buf[at + 6] * 0x100
        + buf[at + 7]
    &&& s.acknowledgement == buf[at + 8] * 0x100_0000 + buf[at + 9] * 0x1_0000 + buf[at + 10]
        * 0x100 + buf[at + 11]
    &&& s.flags == buf[at + 13]
    &&& buf.len() <= start ==> s.payload.len() == 0
    &&& buf.len() > start ==> s.payload == buf.skip(start)
    &&& s.source.flowinfo == 0 && s.source.scope_id == 0
    &&& s.destination.flowinfo == 0 && s.destination.scope_id == 0
}

proof fn lemma_reads_tcp(buf: Seq<u8>, at: int)
    requires
        segment_start(buf) == Some(at),
    ensures
        0 <= at,
        at + 20 <= buf.len(),
        parsed(buf) is Some,
        reads_tcp(parsed(buf)->0, buf, at),
{
    reveal(parsed);
    let tcp = buf.skip(at);
    lemma_be_at_words(tcp, 0);
    lemma_be_at_words(tcp, 2);
    lemma_be_at_words(tcp, 4);
    lemma_be_at_words(tcp, 8);
    assert(forall|i: int| 0 <= i < tcp.len() ==> tcp[i] == buf[at + i]);
    if tcp.len() > payload_start(tcp) {
        assert(tcp.skip(payload_start(tcp)) =~= buf.skip(at + payload_start(tcp)));
    }
}

/// An IPv4 packet is read if it has a whole header, of five words or more, says that it carries
/// TCP, and has a whole TCP header behind its own. Its addresses are read in network order.
pub proof fn law_reads_ipv4(buf: Seq<u8>)
    requires
        buf[0] / 16 == 4,
    ensures
        parsed(buf) is Some <==> {
            &&& buf.len() >= 40
            &&& buf[0] % 16 >= 5
            &&& buf[9] == 6
            &&& buf.len() >= 4 * (buf[0] % 16) + 20
        },
        parsed(buf) matches Some(s) ==> {
            &&& reads_tcp(s, buf, 4 * (buf[0] % 16))
            &&& s.source.ip is V4
            &&& s.destination.ip is V4
            &&& s.source.ip->V4_0.bits == buf[12] * 0x100_0000 + buf[13] * 0x1_0000 + buf[14]
                * 0x100 + buf[15]
            &&& s.destination.ip->V4_0.bits == buf[16] * 0x100_0000 + buf[17] * 0x1_0000 + buf[18]
                * 0x100 + buf[19]
        },
{
    match segment_start(buf) {
        Some(at) => {
            lemma_reads_tcp(buf, at);
            lemma_be_at_words(buf, 12);
            lemma_be_at_words(buf, 16);
            reveal(parsed);
        },
        None => {
            reveal(parsed);
        },
    }
}

/// An IPv6 packet is read if it has a whole header, says that TCP follows, and has a whole TCP
/// header behind it. Its addresses are read in network order.
pub proof fn law_reads_ipv6(buf: Seq<u8>)
    requires
        buf[0] / 16 == 6,
    ensures
        parsed(buf) is Some <==> buf.len() >= 60 && buf[6] == 6,
        parsed(buf) matches Some(s) ==> {
            &&& reads_tcp(s, buf, 40)
            &&& s.source.ip is V6
            &&& s.destination.ip is V6
            &&& s.source.ip->V6_0.bits == be_value(buf.subrange(8, 24))
            &&& s.destination.ip->V6_0.bits == be_value(buf.subrange(24, 40))
        },
{
    match segment_start(buf) {
        Some(at) => {
            lemma_reads_tcp(buf, at);
            lemma_pow256_values();
            lemma_be_value_bound(buf.subrange(8, 24));
            lemma_be_value_bound(buf.subrange(24, 40));
            reveal(parsed);
        },
        None => {
            reveal(parsed);
        },
    }
}

/// Nothing but IPv4 and IPv6 is read, and both ends of a segment that is read are of one family.
pub proof fn law_reads_nothing_else(buf: Seq<u8>)
    ensures
        buf.len() == 0 ==> parsed(buf) is None,
        buf[0] / 16 != 4 && buf[0] / 16 != 6 ==> parsed(buf) is None,
        parsed(buf) matches Some(s) ==> (s.source.ip is V4 <==> s.destination.ip is V4),
{
    reveal(parsed);
}

/// The TCP part of a packet that is built, behind `at` bytes of IP header: no urgent data, an open
/// window, and in an opening segment the offer to scale it by fourteen bits.
pub open spec fn laid_out_tcp(buf: Seq<u8>, at: int, flags: u8, n: nat) -> bool {
    &&& buf[at + 13] == flags
    &&& buf[at + 14] == 0xff && buf[at + 15] == 0xff
    &&& buf[at + 18] == 0 && buf[at + 19] == 0
    &&& if flags & SYN != 0 {
        &&& buf.len() == at + 24 + n
        &&& buf[at + 12] == 0x60
        &&& buf[at + 20] == 1
        &&& buf[at + 21] == 3 && buf[at + 22] == 3 && buf[at + 23] == 14
    } else {
        &&& buf.len() == at + 20 + n
        &&& buf[at + 12] == 0x50
    }
}

/// How a packet between IPv4 addresses is laid out: a header of twenty bytes that tells the length
/// of the packet, with 64 hops to live and not to be fragmented, and the TCP segment. Both checksums
/// hold.
pub proof fn law_layout_over_ipv4(
    local_addr: SocketAddr,
    remote_addr: SocketAddr,
    seq: u32,
    ack: u32,
    flags: u8,
    payload: Seq<u8>,
)
    requires
        local_addr.ip is V4,
        remote_addr.ip is V4,
        fits(local_addr.ip, flags, payload.len()),
    ensures
        ({
            let buf = tcp_packet(local_addr, remote_addr, seq, ack, flags, payload);
            &&& buf[0] == 0x45 && buf[1] == 0
            &&& buf[2] * 0x100 + buf[3] == buf.len()
            &&& buf[4] == 0 && buf[5] == 0
            &&& buf[6] == 0x40 && buf[7] == 0
            &&& buf[8] == 64 && buf[9] == 6
            &&& checksum_holds(buf.take(20))
            &&& laid_out_tcp(buf, 20, flags, payload.len())
            &&& checksum_holds(
                buf.subrange(12, 20) + seq![0u8, 6u8] + be_bytes((buf.len() - 20) as nat, 2)
                    + buf.skip(20),
            )
        }),
{
    reveal(tcp_packet);
    law_built_checksums_hold(local_addr, remote_addr, seq, ack, flags, payload);
    let buf = tcp_packet(local_addr, remote_addr, seq, ack, flags, payload);
    let len = segment_len(flags, payload.len());
    let header = ip_header(local_addr.ip, remote_addr.ip, len);
    let tcp = tcp_segment(local_addr, remote_addr, seq, ack, flags, payload);
    lemma_pow256_values();
    lemma_be_round_trip(20 + len, 2);
    lemma_be_at_words(be_bytes(20 + len, 2), 0);
    assert(be_bytes(20 + len, 2).subrange(0, 2) =~= be_bytes(20 + len, 2));
    assert(header.len() == 20);
    assert(tcp.len() == len);
    assert(buf.take(20) =~= header);
    assert(buf.skip(20) =~= tcp);
    assert(buf[2] == be_bytes(20 + len, 2)[0] && buf[3] == be_bytes(20 + len, 2)[1]);
    assert(buf.subrange(12, 20) + seq![0u8, 6u8] + be_bytes(len, 2) =~= pseudo_header(
        local_addr.ip,
        remote_addr.ip,
        len,
    ));
}

/// How a packet between IPv6 addresses is laid out: a header of forty bytes that tells the length of
/// what follows, with 64 hops to live, and the TCP segment. Its checksum holds.
pub proof fn law_layout_over_ipv6(
    local_addr: SocketAddr,
    remote_addr: SocketAddr,
    seq: u32,
    ack: u32,
    flags: u8,
    payload: Seq<u8>,
)
    requires
        local_addr.ip is V6,
        remote_addr.ip is V6,
        fits(local_addr.ip, flags, payload.len()),
    ensures
        ({
            let buf = tcp_packet(local_addr, remote_addr, seq, ack, flags, payload);
            &&& buf[0] == 0x60 && buf[1] == 0 && buf[2] == 0 && buf[3] == 0
            &&& buf[4] * 0x100 + buf[5] == buf.len() - 40
            &&& buf[6] == 6 && buf[7] == 64
            &&& laid_out_tcp(buf, 40, flags, payload.len())
            &&& checksum_holds(
                buf.subrange(8, 40) + be_bytes((buf.len() - 40) as nat, 4) + seq![
                    0u8,
                    0u8,
                    0u8,
                    6u8,
                ] + buf.skip(40),
            )
        }),
{
    reveal(tcp_packet);
    law_built_checksums_hold(local_addr, remote_addr, seq, ack, flags, payload);
    let buf = tcp_packet(local_addr, remote_addr, seq, ack, flags, payload);
    let len = segment_len(flags, payload.len());
    let header = ip_header(local_addr.ip, remote_addr.ip, len);
    let tcp = tcp_segment(local_addr, remote_addr, seq, ack, flags, payload);
    lemma_pow256_values();
    lemma_be_round_trip(len, 2);
    lemma_be_at_words(be_bytes(len, 2), 0);
    assert(be_bytes(len, 2).subrange(0, 2) =~= be_bytes(len, 2));
    assert(header.len() == 40);
    assert(tcp.len() == len);
    assert(buf.skip(40) =~= tcp);
    assert(buf[4] == be_bytes(len, 2)[0] && buf[5] == be_bytes(len, 2)[1]);
    assert(buf.subrange(8, 40) + be_bytes(len, 4) + seq![0u8, 0u8, 0u8, 6u8] =~= pseudo_header(
        local_addr.ip,
        remote_addr.ip,
        len,
    ));
}

} // verus!
