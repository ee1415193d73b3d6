use fake_tcp::octets::{push_be, read_be};
use fake_tcp::packet::{
    build_tcp_packet, parse_ip_packet, payload_fits, ACK, RST, RST_ACK, SYN, SYN_ACK,
};
use fake_tcp::{IpAddr, Ipv4Addr, Ipv6Addr, SocketAddr};
use pnet::packet::ip::IpNextHeaderProtocols;
use pnet::packet::ipv4::{Ipv4Flags, Ipv4Packet};
use pnet::packet::ipv6::Ipv6Packet;
use pnet::packet::tcp::{ipv4_checksum, ipv6_checksum, TcpFlags, TcpPacket};
use pnet::packet::Packet;

fn v4(a: u8, b: u8, c: u8, d: u8, port: u16) -> SocketAddr {
    SocketAddr::new(IpAddr::V4(Ipv4Addr::new(a, b, c, d)), port)
}

fn v6(bits: u128, port: u16) -> SocketAddr {
    SocketAddr::new(IpAddr::V6(Ipv6Addr { bits }), port)
}

#[test]
fn flags_are_those_of_tcp() {
    assert_eq!(SYN, TcpFlags::SYN);
    assert_eq!(RST, TcpFlags::RST);
    assert_eq!(ACK, TcpFlags::ACK);
    assert_eq!(SYN_ACK, TcpFlags::SYN | TcpFlags::ACK);
    assert_eq!(RST_ACK, TcpFlags::RST | TcpFlags::ACK);
}

#[test]
fn big_endian_integers() {
    let mut out = vec![9u8];
    push_be(&mut out, 0x0102_0304, 4);
    push_be(&mut out, 0xabcd_ef, 2);
    assert_eq!(out, vec![9, 1, 2, 3, 4, 0xcd, 0xef]);
    assert_eq!(read_be(&out, 1, 4), 0x0102_0304);
    assert_eq!(read_be(&out, 0, 0), 0);
    assert_eq!(read_be(&[0xff; 16], 0, 16), u128::MAX);
}

#[test]
fn ipv4_packet_byte_for_byte() {
    let packet = build_tcp_packet(
        v4(192, 168, 2, 1, 49511),
        v4(192, 168, 111, 51, 9000),
        0x9037_d2b8,
        0x944b_b276,
        ACK,
        Some(b"test"),
    );
    assert_eq!(
        &packet[..10],
        &[0x45, 0, 0, 44, 0, 0, 0x40, 0, 64, 6]
    );
    assert_eq!(&packet[12..20], &[192, 168, 2, 1, 192, 168, 111, 51]);
    assert_eq!(
        &packet[20..36],
        &[
            0xc1, 0x67, 0x23, 0x28, 0x90, 0x37, 0xd2, 0xb8, 0x94, 0x4b, 0xb2, 0x76, 0x50, 0x10,
            0xff, 0xff
        ]
    );
    assert_eq!(&packet[38..], &[0, 0, b't', b'e', b's', b't']);
    assert_eq!(packet.len(), 44);
}

#[test]
fn opening_segment_offers_window_scaling() {
    let packet = build_tcp_packet(v4(10, 0, 0, 1, 1), v4(10, 0, 0, 2, 2), 0, 0, SYN, None);
    assert_eq!(packet.len(), 44);
    assert_eq!(packet[32], 0x60);
    assert_eq!(&packet[40..], &[1, 3, 3, 14]);
    let segment = parse_ip_packet(&packet).unwrap();
    assert!(segment.payload.is_empty());
    assert_eq!(segment.flags, SYN);
}

#[test]
fn ipv4_packet_as_pnet_reads_it() {
    for payload in [&b""[..], b"x", b"odd", b"even", &[0xff; 1400]] {
        let packet = build_tcp_packet(
            v4(10, 0, 0, 1, 40000),
            v4(172, 16, 5, 200, 443),
            u32::MAX,
            7,
            ACK,
            Some(payload),
        );
        let ip = Ipv4Packet::new(&packet).unwrap();
        assert_eq!(ip.get_version(), 4);
        assert_eq!(ip.get_header_length(), 5);
        assert_eq!(ip.get_total_length() as usize, packet.len());
        assert_eq!(ip.get_flags(), Ipv4Flags::DontFragment);
        assert_eq!(ip.get_ttl(), 64);
        assert_eq!(ip.get_next_level_protocol(), IpNextHeaderProtocols::Tcp);
        assert_eq!(ip.get_source().octets(), [10, 0, 0, 1]);
        assert_eq!(ip.get_destination().octets(), [172, 16, 5, 200]);
        assert_eq!(ip.get_checksum(), pnet::packet::ipv4::checksum(&ip));
        let tcp = TcpPacket::new(ip.payload()).unwrap();
        assert_eq!(tcp.get_source(), 40000);
        assert_eq!(tcp.get_destination(), 443);
        assert_eq!(tcp.get_sequence(), u32::MAX);
        assert_eq!(tcp.get_acknowledgement(), 7);
        assert_eq!(tcp.get_flags(), TcpFlags::ACK);
        assert_eq!(tcp.get_window(), 0xffff);
        assert_eq!(tcp.payload(), payload);
        assert_eq!(
            tcp.get_checksum(),
            ipv4_checksum(&tcp, &ip.get_source(), &ip.get_destination())
        );
    }
}

#[test]
fn ipv6_packet_as_pnet_reads_it() {
    let local = 0x2001_0db8_0000_0000_0000_0000_0000_0001u128;
    let remote = 0xfe80_0000_0000_0000_1234_5678_9abc_def0u128;
    for (flags, payload) in [(SYN_ACK, None), (ACK, Some(&b"datagram"[..])), (RST, None)] {
        let packet = build_tcp_packet(v6(local, 4567), v6(remote, 80), 1, 2, flags, payload);
        let ip = Ipv6Packet::new(&packet).unwrap();
        assert_eq!(ip.get_version(), 6);
        assert_eq!(ip.get_payload_length() as usize, packet.len() - 40);
        assert_eq!(ip.get_next_header(), IpNextHeaderProtocols::Tcp);
        assert_eq!(ip.get_hop_limit(), 64);
        assert_eq!(u128::from(ip.get_source()), local);
        assert_eq!(u128::from(ip.get_destination()), remote);
        let tcp = TcpPacket::new(ip.payload()).unwrap();
        assert_eq!(tcp.get_flags(), flags);
        assert_eq!(tcp.payload(), payload.unwrap_or(b""));
        assert_eq!(
            tcp.get_checksum(),
            ipv6_checksum(&tcp, &ip.get_source(), &ip.get_destination())
        );
    }
}

/// Adds up the 16-bit words of `data` with end-around carry.
fn ones_sum(data: &[u8]) -> u32 {
    let mut sum = 0u32;
    for word in data.chunks(2) {
        sum += (word[0] as u32) << 8 | word.get(1).copied().unwrap_or(0) as u32;
        sum = (sum & 0xffff) + (sum >> 16);
    }
    sum
}

#[test]
fn checksums_check_out() {
    let packet = build_tcp_packet(
        v4(1, 2, 3, 4, 5),
        v4(6, 7, 8, 9, 10),
        11,
        12,
        ACK,
        Some(b"thirteen bits"),
    );
    assert_eq!(ones_sum(&packet[..20]), 0xffff);
    let mut covered = vec![1, 2, 3, 4, 6, 7, 8, 9, 0, 6, 0, (packet.len() - 20) as u8];
    covered.extend_from_slice(&packet[20..]);
    assert_eq!(ones_sum(&covered), 0xffff);

    let packet = build_tcp_packet(v6(1, 5), v6(2, 10), 11, 12, SYN, None);
    let mut covered = vec![0u8; 32];
    covered[15] = 1;
    covered[31] = 2;
    covered.extend_from_slice(&[0, 0, 0, (packet.len() - 40) as u8, 0, 0, 0, 6]);
    covered.extend_from_slice(&packet[40..]);
    assert_eq!(ones_sum(&covered), 0xffff);
}

#[test]
fn parsing_inverts_building() {
    let local = v4(10, 1, 2, 3, 65535);
    let remote = v4(255, 254, 253, 252, 1);
    let packet = build_tcp_packet(local, remote, 0xdead_beef, 0x0bad_cafe, ACK, Some(b"hello"));
    let segment = parse_ip_packet(&packet).unwrap();
    assert_eq!(segment.source, local);
    assert_eq!(segment.destination, remote);
    assert_eq!(segment.sequence, 0xdead_beef);
    assert_eq!(segment.acknowledgement, 0x0bad_cafe);
    assert_eq!(segment.flags, ACK);
    assert_eq!(segment.payload, b"hello");

    let packet = build_tcp_packet(v6(u128::MAX, 9), v6(77, 8), 1, 2, RST_ACK, None);
    let segment = parse_ip_packet(&packet).unwrap();
    assert_eq!(segment.source, v6(u128::MAX, 9));
    assert_eq!(segment.destination, v6(77, 8));
    assert_eq!(segment.flags, RST_ACK);
    assert!(segment.payload.is_empty());
}

#[test]
fn other_packets_are_no_segments() {
    assert!(parse_ip_packet(&[]).is_none());
    assert!(parse_ip_packet(&[0; 60]).is_none());
    assert!(parse_ip_packet(&[0x45; 39]).is_none());

    let packet = build_tcp_packet(v4(1, 1, 1, 1, 1), v4(2, 2, 2, 2, 2), 0, 0, ACK, None);
    assert!(parse_ip_packet(&packet).is_some());
    assert!(parse_ip_packet(&packet[..39]).is_none());
    let mut udp = packet.clone();
    udp[9] = 17;
    assert!(parse_ip_packet(&udp).is_none());
    let mut short_header = packet.clone();
    short_header[0] = 0x44;
    assert!(parse_ip_packet(&short_header).is_none());
    let mut long_header = packet;
    long_header[0] = 0x46;
    assert!(parse_ip_packet(&long_header).is_none());

    let packet = build_tcp_packet(v6(1, 1), v6(2, 2), 0, 0, ACK, None);
    assert!(parse_ip_packet(&packet).is_some());
    assert!(parse_ip_packet(&packet[..59]).is_none());
    let mut icmp = packet;
    icmp[6] = 58;
    assert!(parse_ip_packet(&icmp).is_none());
}

#[test]
fn ipv4_options_are_skipped() {
    let plain = build_tcp_packet(v4(1, 1, 1, 1, 3), v4(2, 2, 2, 2, 4), 5, 6, ACK, Some(b"abc"));
    let mut packet = plain[..20].to_vec();
    packet[0] = 0x46;
    packet.extend_from_slice(&[1, 1, 1, 0]);
    packet.extend_from_slice(&plain[20..]);
    let segment = parse_ip_packet(&packet).unwrap();
    assert_eq!(segment.source, v4(1, 1, 1, 1, 3));
    assert_eq!(segment.sequence, 5);
    assert_eq!(segment.payload, b"abc");
}

#[test]
fn tcp_options_bound_the_payload() {
    let mut packet =
        build_tcp_packet(v4(1, 1, 1, 1, 3), v4(2, 2, 2, 2, 4), 5, 6, ACK, Some(b"12345678"));
    packet[32] = 0x60;
    assert_eq!(parse_ip_packet(&packet).unwrap().payload, b"5678");
    packet[32] = 0x70;
    assert!(parse_ip_packet(&packet).unwrap().payload.is_empty());
    packet[32] = 0xf0;
    assert!(parse_ip_packet(&packet).unwrap().payload.is_empty());
    packet[32] = 0x00;
    assert_eq!(parse_ip_packet(&packet).unwrap().payload, b"12345678");
}

#[test]
fn payloads_that_fit() {
    let v4 = v4(1, 1, 1, 1, 1).ip;
    let v6 = v6(1, 1).ip;
    assert!(payload_fits(v4, ACK, 65535 - 40));
    assert!(!payload_fits(v4, ACK, 65535 - 39));
    assert!(payload_fits(v4, SYN, 65535 - 44));
    assert!(!payload_fits(v4, SYN, 65535 - 43));
    assert!(payload_fits(v6, ACK, 65535 - 20));
    assert!(!payload_fits(v6, ACK, 65535 - 19));
    assert!(!payload_fits(v6, SYN_ACK, usize::MAX));
}

#[test]
fn largest_packets() {
    let payload = vec![0xa5u8; 65535 - 40];
    let packet = build_tcp_packet(v4(1, 1, 1, 1, 1), v4(2, 2, 2, 2, 2), 0, 0, ACK, Some(&payload));
    assert_eq!(&packet[2..4], &[0xff, 0xff]);
    assert_eq!(parse_ip_packet(&packet).unwrap().payload, payload);
    let payload = vec![0x5au8; 65535 - 20];
    let packet = build_tcp_packet(v6(1, 1), v6(2, 2), 0, 0, ACK, Some(&payload));
    assert_eq!(&packet[4..6], &[0xff, 0xff]);
    assert_eq!(parse_ip_packet(&packet).unwrap().payload, payload);
}
