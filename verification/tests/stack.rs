use fake_tcp::packet::{build_tcp_packet, parse_ip_packet, ACK, RST, RST_ACK, SYN, SYN_ACK};
use fake_tcp::table::ConnTable;
use fake_tcp::{
    AddrTuple, Dispatch, Duration, IpAddr, Ipv4Addr, Ipv6Addr, KeepaliveConfig, Reader, Socket,
    SocketAddr, SocketHealth, Stack, State,
};
use rand::rngs::SmallRng;
use rand::SeedableRng;
use std::sync::Arc;

type TestStack = Stack<&'static str, u32>;

fn addr(host: u8, port: u16) -> SocketAddr {
    SocketAddr::new(IpAddr::V4(Ipv4Addr::new(10, 0, 0, host)), port)
}

fn stack() -> TestStack {
    Stack::new(vec!["q0", "q1", "q2"], Ipv4Addr::new(10, 0, 0, 1), None)
}

#[test]
fn new_stack() {
    let s = stack();
    assert_eq!(s.tun.iter().map(|t| **t).collect::<Vec<_>>(), vec!["q0", "q1", "q2"]);
    assert_eq!(s.keepalive.interval, Duration::from_secs(15));
    assert_eq!(s.keepalive.max_missed, 3);
    assert_eq!(s.local_ip, Ipv4Addr::new(10, 0, 0, 1));
    assert_eq!(s.local_ip6, None);
    let config = KeepaliveConfig::disabled();
    let s: TestStack =
        Stack::new_with_keepalive(vec![], s.local_ip, Some(Ipv6Addr { bits: 5 }), config);
    assert!(s.tun.is_empty());
    assert_eq!(s.keepalive, config);
    assert_eq!(s.local_ip6, Some(Ipv6Addr { bits: 5 }));
}

#[test]
fn listening() {
    let mut s = stack();
    assert!(!s.is_listening(80));
    s.listen(80);
    assert!(s.is_listening(80));
    assert!(!s.is_listening(81));
}

#[test]
fn table() {
    let mut table: ConnTable<u32> = ConnTable::new();
    let a = AddrTuple::new(addr(1, 80), addr(2, 1000));
    let b = AddrTuple::new(addr(1, 80), addr(3, 1000));
    let c = AddrTuple::new(addr(1, 80), addr(2, 1001));
    assert!(table.insert(a, Arc::new(1)).is_none());
    assert!(table.insert(b, Arc::new(2)).is_none());
    assert!(table.insert(c, Arc::new(3)).is_none());
    assert_eq!(table.get(&a).map(|c| **c), Some(1));
    assert_eq!(table.get(&b).map(|c| **c), Some(2));
    assert_eq!(table.get(&c).map(|c| **c), Some(3));
    assert_eq!(table.insert(b, Arc::new(4)).map(|c| *c), Some(2));
    assert_eq!(table.remove(&a).map(|c| *c), Some(1));
    assert!(table.remove(&a).is_none());
    assert!(!table.contains_key(&a));
    assert_eq!(table.get(&b).map(|c| **c), Some(4));
    assert_eq!(table.remove(&c).map(|c| *c), Some(3));
    assert!(table.get(&c).is_none());
    assert!(table.contains_key(&b));
}

#[test]
fn connect_takes_the_first_free_port() {
    let mut s = stack();
    let peer = addr(9, 443);
    for port in 50000..50003 {
        s.register(AddrTuple::new(addr(1, port), peer), Arc::new(0));
    }
    let sock = s.connect_from(peer, 50000, Arc::new(7)).unwrap();
    assert_eq!(sock, Socket::new(addr(1, 50003), peer, None, State::Idle));
    assert_eq!(s.tuples.get(&sock.tuple()).map(|c| **c), Some(7));
    let other = s.connect_from(addr(9, 444), 50000, Arc::new(8)).unwrap();
    assert_eq!(other.local_addr.port, 50000);
}

#[test]
fn connect_runs_out_of_ports() {
    let mut s = stack();
    let peer = addr(9, 443);
    for expected in 60998..=60999 {
        let sock = s.connect_from(peer, 60998, Arc::new(1)).unwrap();
        assert_eq!(sock.local_addr.port, expected);
    }
    assert!(s.connect_from(peer, 60998, Arc::new(1)).is_none());
    assert!(s.connect_from(peer, 61000, Arc::new(1)).is_none());
    assert!(s.connect_from(peer, u16::MAX, Arc::new(1)).is_none());
}

#[test]
fn connect_at_random() {
    let mut ports = Vec::new();
    let mut queues = Vec::new();
    for seed in 0..50 {
        let mut s = stack();
        let mut rng = SmallRng::seed_from_u64(seed);
        let (sock, tun) = s.connect(&mut rng, addr(9, 443), Arc::new(1)).unwrap();
        assert!((32768..=60999).contains(&sock.local_addr.port));
        assert_eq!(sock.local_addr.ip, IpAddr::V4(Ipv4Addr::new(10, 0, 0, 1)));
        assert_eq!(sock.remote_addr, addr(9, 443));
        assert_eq!(sock.state, State::Idle);
        assert!(s.tuples.contains_key(&sock.tuple()));
        ports.push(sock.local_addr.port);
        queues.push(*tun);
    }
    ports.sort_unstable();
    ports.dedup();
    assert!(ports.len() > 10);
    for queue in ["q0", "q1", "q2"] {
        assert!(queues.contains(&queue));
    }
}

#[test]
fn connect_over_ipv6() {
    let mut s: TestStack =
        Stack::new(vec!["q"], Ipv4Addr::new(10, 0, 0, 1), Some(Ipv6Addr { bits: 77 }));
    let peer = SocketAddr::new(IpAddr::V6(Ipv6Addr { bits: 88 }), 443);
    let mut rng = SmallRng::seed_from_u64(1);
    let (sock, _) = s.connect(&mut rng, peer, Arc::new(1)).unwrap();
    assert_eq!(sock.local_addr.ip, IpAddr::V6(Ipv6Addr { bits: 77 }));
}

#[test]
fn scope_tells_connections_apart() {
    let mut s: TestStack =
        Stack::new(vec!["q"], Ipv4Addr::new(10, 0, 0, 1), Some(Ipv6Addr { bits: 77 }));
    let plain = SocketAddr::new(IpAddr::V6(Ipv6Addr { bits: 88 }), 443);
    let scoped = SocketAddr { scope_id: 2, ..plain };
    let labelled = SocketAddr { flowinfo: 9, ..plain };
    for peer in [plain, scoped, labelled] {
        let sock = s.connect_from(peer, 40000, Arc::new(1)).unwrap();
        assert_eq!(sock.local_addr.port, 40000);
        assert_eq!(sock.remote_addr, peer);
    }
    let again = s.connect_from(scoped, 40000, Arc::new(1)).unwrap();
    assert_eq!(again.local_addr.port, 40001);
    let packet = build_tcp_packet(scoped, plain, 1, 2, ACK, None);
    assert_eq!(parse_ip_packet(&packet).unwrap().source, plain);
}

#[test]
fn free_ports() {
    let mut s = stack();
    let peer = addr(9, 443);
    assert!(s.has_free_port(peer));
    for port in 32768..=60999 {
        s.register(AddrTuple::new(addr(1, port), peer), Arc::new(0));
    }
    assert!(!s.has_free_port(peer));
    assert!(s.has_free_port(addr(9, 444)));
    let mut rng = SmallRng::seed_from_u64(3);
    assert!(s.connect(&mut rng, peer, Arc::new(1)).is_none());
    s.remove_tuple(&AddrTuple::new(addr(1, 60999), peer));
    assert!(s.has_free_port(peer));
    let (sock, _) = s.connect(&mut rng, peer, Arc::new(1)).unwrap();
    assert_eq!(sock.local_addr.port, 60999);
}

#[test]
fn release_undoes_registration() {
    let mut s = stack();
    let sock = s.connect_from(addr(9, 1), 40000, Arc::new(1)).unwrap();
    assert!(sock.release(&mut SocketHealth::new(0), &mut s).is_some());
    assert!(!s.tuples.contains_key(&sock.tuple()));
    let again = s.connect_from(addr(9, 1), 40000, Arc::new(1)).unwrap();
    assert_eq!(again, sock);
    assert!(s.remove_tuple(&sock.tuple()));
    assert!(!s.remove_tuple(&sock.tuple()));
}

#[test]
fn resets_go_out_on_the_first_queue() {
    let mut s = stack();
    assert_eq!(s.reset_queue().map(|queue| *queue), Some("q0"));
    assert!(Arc::ptr_eq(&s.reset_queue().unwrap(), &s.tun[0]));
    s.listen(80);
    let mut reader: Reader<u32> = Reader::new();
    for (flags, seq) in [(SYN, 41), (ACK, 0), (SYN_ACK, 7)] {
        let packet = build_tcp_packet(addr(2, 1000), addr(1, 80), seq, 17, flags, Some(b"abc"));
        reset(reader.on_packet(&s, &packet));
        assert_eq!(s.reset_queue().map(|queue| *queue), Some("q0"));
    }
    let s: TestStack = Stack::new(vec![], s.local_ip, None);
    assert!(s.reset_queue().is_none());
}

#[test]
fn closed_connection_is_stray() {
    let mut s = stack();
    let sock = Socket::new(addr(1, 80), addr(2, 1000), Some(1), State::Established);
    let other = AddrTuple::new(addr(1, 80), addr(3, 1000));
    s.register(sock.tuple(), Arc::new(5));
    s.register(other, Arc::new(6));
    let mut reader = Reader::new();
    let packet = build_tcp_packet(addr(2, 1000), addr(1, 80), 1, 17, ACK, Some(b"x"));
    assert_eq!(delivered(reader.on_packet(&s, &packet)), 5);

    let mut health = SocketHealth::new(3);
    let tuple = sock.close(&mut health, &mut s);
    assert_eq!(tuple, sock.tuple());
    assert!(health.closed);
    assert_eq!(health.last_rx_ms, 3);
    assert!(!s.tuples.contains_key(&tuple));
    assert!(s.tuples.contains_key(&other));

    reader.on_purge(&tuple);
    let answer = parse_ip_packet(&reset(reader.on_packet(&s, &packet))).unwrap();
    assert_eq!((answer.sequence, answer.acknowledgement), (17, 2));
    assert!(sock.release(&mut health, &mut s).is_none());
    assert_eq!(sock.close(&mut health, &mut s), tuple);
}

fn delivered(dispatch: Dispatch<u32>) -> u32 {
    match dispatch {
        Dispatch::Deliver(conn) => *conn,
        _ => panic!("not delivered"),
    }
}

fn reset(dispatch: Dispatch<u32>) -> Vec<u8> {
    match dispatch {
        Dispatch::Reset(packet) => packet,
        _ => panic!("not reset"),
    }
}

#[test]
fn packets_find_their_connection() {
    let mut s = stack();
    let tuple = AddrTuple::new(addr(1, 80), addr(2, 1000));
    s.register(tuple, Arc::new(5));
    let mut reader = Reader::new();
    let packet = build_tcp_packet(addr(2, 1000), addr(1, 80), 1, 1, ACK, Some(b"x"));
    assert_eq!(delivered(reader.on_packet(&s, &packet)), 5);
    assert!(reader.cache.contains_key(&tuple));
    assert_eq!(delivered(reader.on_packet(&s, &packet)), 5);
}

#[test]
fn purged_connections_are_forgotten() {
    let mut s = stack();
    let tuple = AddrTuple::new(addr(1, 80), addr(2, 1000));
    s.register(tuple, Arc::new(5));
    let mut reader = Reader::new();
    let packet = build_tcp_packet(addr(2, 1000), addr(1, 80), 1, 1, ACK, Some(b"x"));
    reader.on_packet(&s, &packet);
    s.remove_tuple(&tuple);
    assert_eq!(delivered(reader.on_packet(&s, &packet)), 5);
    reader.on_purge(&tuple);
    assert!(!reader.cache.contains_key(&tuple));
    reset(reader.on_packet(&s, &packet));
    s.register(tuple, Arc::new(6));
    assert_eq!(delivered(reader.on_packet(&s, &packet)), 6);
}

#[test]
fn opening_segment_opens() {
    let mut s = stack();
    s.listen(80);
    let mut reader = Reader::new();
    let packet = build_tcp_packet(addr(2, 1000), addr(1, 80), 0, 0, SYN, None);
    match reader.on_packet(&s, &packet) {
        Dispatch::Open(sock) => {
            assert_eq!(sock, Socket::new(addr(1, 80), addr(2, 1000), Some(1), State::Idle));
        }
        _ => panic!("not opened"),
    }
}

#[test]
fn bad_opening_segment_is_reset() {
    let mut s = stack();
    s.listen(80);
    let mut reader = Reader::new();
    let packet = build_tcp_packet(addr(2, 1000), addr(1, 80), 41, 17, SYN, Some(b"abc"));
    let answer = parse_ip_packet(&reset(reader.on_packet(&s, &packet))).unwrap();
    assert_eq!(answer.source, addr(1, 80));
    assert_eq!(answer.destination, addr(2, 1000));
    assert_eq!(answer.flags, RST_ACK);
    assert_eq!((answer.sequence, answer.acknowledgement), (0, 45));
    let packet = build_tcp_packet(addr(2, 1000), addr(1, 80), u32::MAX, 0, SYN, None);
    let answer = parse_ip_packet(&reset(reader.on_packet(&s, &packet))).unwrap();
    assert_eq!(answer.acknowledgement, 0);
}

#[test]
fn stray_segment_is_reset() {
    let mut s = stack();
    s.listen(80);
    let mut reader = Reader::new();
    for (flags, port) in [(SYN, 81), (ACK, 80), (SYN_ACK, 80), (SYN | 64, 80)] {
        let packet = build_tcp_packet(addr(2, 1000), addr(1, port), 41, 17, flags, Some(b"abc"));
        let answer = parse_ip_packet(&reset(reader.on_packet(&s, &packet))).unwrap();
        assert_eq!(answer.flags, RST_ACK);
        assert_eq!((answer.sequence, answer.acknowledgement), (17, 44));
    }
}

#[test]
fn resets_do_not_breed_resets() {
    let s = stack();
    let mut reader: Reader<u32> = Reader::new();
    for flags in [RST, RST_ACK] {
        let packet = build_tcp_packet(addr(2, 1000), addr(1, 80), 1, 1, flags, None);
        assert!(matches!(reader.on_packet(&s, &packet), Dispatch::Ignore));
    }
    assert!(matches!(reader.on_packet(&s, b"no packet"), Dispatch::Ignore));
}
