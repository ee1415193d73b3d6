use fake_tcp::packet::{build_tcp_packet, parse_ip_packet, Segment, ACK, RST, RST_ACK, SYN};
use fake_tcp::socket::{advance, connection_label, MAX_UNACKED_LEN};
use fake_tcp::{
    now_ms, AddrTuple, Duration, IpAddr, Ipv4Addr, Ipv6Addr, Received, Socket, SocketAddr,
    SocketHealth, Stack, State,
};
use std::sync::Arc;

fn addr(host: u8, port: u16) -> SocketAddr {
    SocketAddr::new(IpAddr::V4(Ipv4Addr::new(10, 0, 0, host)), port)
}

/// Two ends of an established connection.
fn pair() -> (Socket, Socket) {
    let mut a = Socket::new(addr(1, 1000), addr(2, 2000), Some(500), State::Established);
    let mut b = Socket::new(addr(2, 2000), addr(1, 1000), Some(300), State::Established);
    a.seq = 300;
    b.seq = 500;
    (a, b)
}

fn parse(packet: &[u8]) -> Segment {
    parse_ip_packet(packet).unwrap()
}

#[test]
fn new_socket() {
    let sock = Socket::new(addr(1, 1), addr(2, 2), None, State::Idle);
    assert_eq!((sock.seq, sock.ack, sock.last_ack), (0, 0, 0));
    assert_eq!(sock.state, State::Idle);
    let sock = Socket::new(addr(1, 1), addr(2, 2), Some(9), State::SynReceived);
    assert_eq!((sock.seq, sock.ack, sock.last_ack), (0, 9, 9));
    assert_eq!(sock.tuple(), AddrTuple::new(addr(1, 1), addr(2, 2)));
}

#[test]
fn datagrams_arrive_in_any_order() {
    let (mut a, mut b) = pair();
    let health = SocketHealth::new(0);
    let mut b_health = SocketHealth::new(0);
    let first = a.send(&health, b"first").unwrap();
    let second = a.send(&health, b"second!").unwrap();
    assert_eq!(a.seq, 312);
    assert_eq!(parse(&first).sequence, 300);
    assert_eq!(parse(&second).sequence, 305);
    assert_eq!(parse(&second).acknowledgement, 500);
    let mut buf = [0u8; 10];
    let received = b.recv(&mut b_health, &second, 70, &mut buf);
    assert!(matches!(received, Received::Datagram(7, None)));
    assert_eq!(&buf, b"second!\0\0\0");
    assert_eq!(b.ack, 312);
    let received = b.recv(&mut b_health, &first, 80, &mut buf);
    assert!(matches!(received, Received::Datagram(5, None)));
    assert_eq!(&buf, b"firstd!\0\0\0");
    assert_eq!(b.ack, 305);
    assert_eq!(b_health, SocketHealth { last_rx_ms: 80, closed: false });
}

#[test]
fn sequence_numbers_wrap() {
    assert_eq!(advance(u32::MAX, 1), 0);
    assert_eq!(advance(u32::MAX - 1, 5), 3);
    assert_eq!(advance(7, 0), 7);
    assert_eq!(advance(7, 0x1_0000_0002), 9);
    let (mut a, mut b) = pair();
    a.seq = u32::MAX;
    let packet = a.send(&SocketHealth::new(0), b"abc").unwrap();
    assert_eq!(a.seq, 2);
    let mut buf = [0u8; 3];
    b.recv(&mut SocketHealth::new(0), &packet, 0, &mut buf);
    assert_eq!(b.ack, 2);
}

#[test]
fn closed_connection_sends_nothing() {
    let (mut a, _) = pair();
    let health = SocketHealth { last_rx_ms: 0, closed: true };
    assert!(a.send(&health, b"x").is_none());
    assert_eq!(a.seq, 300);
}

#[test]
fn sending_acknowledges() {
    let (mut a, _) = pair();
    a.ack = 510;
    assert_eq!(a.last_ack, 500);
    let packet = a.send(&SocketHealth::new(0), b"x").unwrap();
    assert_eq!(parse(&packet).acknowledgement, 510);
    assert_eq!(a.last_ack, 510);
    let packet = a.build_tcp_packet(RST, None);
    assert_eq!(parse(&packet).flags, RST);
}

#[test]
fn too_much_unacknowledged_data_is_acknowledged() {
    let (_, mut b) = pair();
    b.ack = 0;
    b.last_ack = 0;
    let mut buf = [0u8; 4];
    let at_limit = build_tcp_packet(
        addr(1, 1000),
        addr(2, 2000),
        MAX_UNACKED_LEN - 4,
        500,
        ACK,
        Some(b"data"),
    );
    assert!(matches!(
        b.recv(&mut SocketHealth::new(0), &at_limit, 1, &mut buf),
        Received::Datagram(4, None)
    ));
    assert_eq!((b.ack, b.last_ack), (MAX_UNACKED_LEN, 0));
    let over = build_tcp_packet(
        addr(1, 1000),
        addr(2, 2000),
        MAX_UNACKED_LEN - 3,
        500,
        ACK,
        Some(b"data"),
    );
    match b.recv(&mut SocketHealth::new(0), &over, 1, &mut buf) {
        Received::Datagram(4, Some(answer)) => {
            let answer = parse(&answer);
            assert_eq!(answer.flags, ACK);
            assert_eq!(answer.acknowledgement, MAX_UNACKED_LEN + 1);
            assert_eq!(answer.sequence, 500);
            assert!(answer.payload.is_empty());
        }
        other => panic!("{:?}", other),
    }
    assert_eq!(b.last_ack, b.ack);
}

#[test]
fn probe_is_answered_once() {
    let (mut a, mut b) = pair();
    let probe = a.send_keepalive_probe();
    assert_eq!(parse(&probe).sequence, 299);
    assert_eq!(parse(&probe).acknowledgement, 500);
    assert_eq!(parse(&probe).flags, ACK);
    let mut buf = [];
    let mut health = SocketHealth::new(0);
    let answer = match b.recv(&mut health, &probe, 33, &mut buf) {
        Received::Nothing(Some(answer)) => answer,
        other => panic!("{:?}", other),
    };
    assert_eq!(health.last_rx_ms, 33);
    assert_eq!(parse(&answer).sequence, 500);
    assert_eq!(parse(&answer).acknowledgement, 300);
    assert!(matches!(
        a.recv(&mut SocketHealth::new(0), &answer, 1, &mut buf),
        Received::Nothing(None)
    ));
}

#[test]
fn probe_of_a_fresh_connection_wraps() {
    let sock = Socket::new(addr(1, 1), addr(2, 2), None, State::Established);
    assert_eq!(parse(&sock.send_keepalive_probe()).sequence, u32::MAX);
}

#[test]
fn empty_segments_are_swallowed() {
    let (_, mut b) = pair();
    let mut buf = [];
    for (flags, seq) in [(ACK, 300), (SYN, 299), (ACK | 8, 299)] {
        let packet = build_tcp_packet(addr(1, 1000), addr(2, 2000), seq, 500, flags, None);
        let mut health = SocketHealth::new(0);
        assert!(matches!(b.recv(&mut health, &packet, 5, &mut buf), Received::Nothing(None)));
        assert_eq!(health.last_rx_ms, 5);
    }
    assert_eq!(b.ack, 300);
}

#[test]
fn reset_closes_and_silences() {
    let (_, mut b) = pair();
    let mut health = SocketHealth::new(1);
    let packet = build_tcp_packet(addr(1, 1000), addr(2, 2000), 0, 0, RST_ACK, Some(b"long text"));
    match b.recv(&mut health, &packet, 99, &mut []) {
        Received::Reset(tuple) => assert_eq!(tuple, b.tuple()),
        other => panic!("{:?}", other),
    }
    assert_eq!(health, SocketHealth { last_rx_ms: 1, closed: true });
    assert!(b.send(&health, b"x").is_none());
    let mut stack: Stack<(), ()> = Stack::new(vec![()], Ipv4Addr::new(10, 0, 0, 2), None);
    stack.register(b.tuple(), Arc::new(()));
    assert!(b.release(&mut health, &mut stack).is_none());
    assert!(!stack.tuples.contains_key(&b.tuple()));
}

#[test]
fn release_says_farewell() {
    let (a, mut b) = pair();
    let mut stack: Stack<(), ()> = Stack::new(vec![()], Ipv4Addr::new(10, 0, 0, 1), None);
    stack.register(a.tuple(), Arc::new(()));
    let mut health = SocketHealth::new(0);
    let farewell = a.release(&mut health, &mut stack).unwrap();
    assert!(health.closed);
    assert!(!stack.tuples.contains_key(&a.tuple()));
    let segment = parse(&farewell);
    assert_eq!(segment.flags, RST);
    assert_eq!((segment.sequence, segment.acknowledgement), (300, 0));
    assert!(matches!(
        b.recv(&mut SocketHealth::new(0), &farewell, 1, &mut []),
        Received::Reset(_)
    ));
    let mut health = SocketHealth::new(0);
    assert!(a.release(&mut health, &mut stack).is_none());
    assert!(health.closed);
}

#[test]
fn close_names_the_endpoints() {
    let (a, _) = pair();
    let mut health = SocketHealth::new(3);
    assert_eq!(a.mark_closed(&mut health), a.tuple());
    assert_eq!(health, SocketHealth { last_rx_ms: 3, closed: true });
    let mut health = SocketHealth::new(3);
    health.touch(8);
    assert_eq!(health, SocketHealth { last_rx_ms: 8, closed: false });
}

#[test]
fn ipv6_connection() {
    let left = SocketAddr::new(IpAddr::V6(Ipv6Addr { bits: 1 }), 10);
    let right = SocketAddr::new(IpAddr::V6(Ipv6Addr { bits: 2 }), 20);
    let mut a = Socket::new(left, right, None, State::Established);
    let mut b = Socket::new(right, left, None, State::Established);
    let packet = a.send(&SocketHealth::new(0), b"six").unwrap();
    let mut buf = [0u8; 3];
    assert!(matches!(
        b.recv(&mut SocketHealth::new(0), &packet, 0, &mut buf),
        Received::Datagram(3, None)
    ));
    assert_eq!(&buf, b"six");
}

#[test]
fn label() {
    assert_eq!(
        connection_label("10.0.0.1:80", "[::1]:9"),
        "(Fake TCP connection from 10.0.0.1:80 to [::1]:9)"
    );
}

#[test]
fn clock() {
    assert_eq!(now_ms(Duration { secs: 2, nanos: 345_999_999 }), 2345);
    assert_eq!(now_ms(Duration::zero()), 0);
    let secs = u64::MAX / 1000 + 1;
    assert_eq!(now_ms(Duration::from_secs(secs)), secs.wrapping_mul(1000));
}

#[test]
fn addresses() {
    assert_eq!(Ipv4Addr::new(192, 168, 2, 1).bits, 0xc0a8_0201);
    assert!(addr(1, 1).is_ipv4());
    assert!(!SocketAddr::new(IpAddr::V6(Ipv6Addr { bits: 0 }), 1).is_ipv4());
}
