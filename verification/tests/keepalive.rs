use fake_tcp::packet::{build_tcp_packet, parse_ip_packet, ACK};
use fake_tcp::{
    Duration, IpAddr, Ipv4Addr, Keepalive, KeepaliveConfig, Socket, SocketAddr, SocketHealth,
    State, Watch,
};

fn sock() -> Socket {
    let local = SocketAddr::new(IpAddr::V4(Ipv4Addr::new(10, 0, 0, 1)), 1);
    let remote = SocketAddr::new(IpAddr::V4(Ipv4Addr::new(10, 0, 0, 2)), 2);
    let mut sock = Socket::new(local, remote, Some(70), State::Established);
    sock.seq = 50;
    sock
}

#[test]
fn configurations() {
    let config = KeepaliveConfig::default();
    assert_eq!(config.interval, Duration::from_secs(15));
    assert_eq!(config.max_missed, 3);
    assert!(config.is_enabled());
    let config = KeepaliveConfig::disabled();
    assert!(config.interval.is_zero());
    assert_eq!(config.max_missed, 0);
    assert!(!config.is_enabled());
    let nanos = KeepaliveConfig { interval: Duration { secs: 0, nanos: 1 }, max_missed: 1 };
    assert!(nanos.is_enabled());
    assert!(!KeepaliveConfig { max_missed: 0, ..nanos }.is_enabled());
    assert!(!KeepaliveConfig { interval: Duration::zero(), max_missed: 9 }.is_enabled());
}

#[test]
fn no_watch_when_disabled() {
    let health = SocketHealth::new(4);
    assert!(sock().start_keepalive(KeepaliveConfig::disabled(), &health).is_none());
    assert_eq!(
        sock().start_keepalive(KeepaliveConfig::default(), &health),
        Some(Keepalive { last_seen: 4, missed: 0 })
    );
}

#[test]
fn silence_is_probed_then_fatal() {
    let config = KeepaliveConfig::default();
    let mut health = SocketHealth::new(4);
    let sock = sock();
    let mut watch = sock.start_keepalive(config, &health).unwrap();
    for missed in 1..=3 {
        match watch.tick(config, &mut health, &sock) {
            Watch::Probe(packet) => {
                let segment = parse_ip_packet(&packet).unwrap();
                assert_eq!((segment.sequence, segment.acknowledgement), (49, 70));
                assert_eq!(segment.flags, ACK);
                assert!(segment.payload.is_empty());
            }
            other => panic!("{:?}", other),
        }
        assert_eq!(watch.missed, missed);
        assert!(!health.closed);
    }
    match watch.tick(config, &mut health, &sock) {
        Watch::Dead(tuple) => assert_eq!(tuple, sock.tuple()),
        other => panic!("{:?}", other),
    }
    assert!(health.closed);
    assert!(matches!(watch.tick(config, &mut health, &sock), Watch::Stop));
}

#[test]
fn refused_probe_is_fatal() {
    let config = KeepaliveConfig::default();
    let mut health = SocketHealth::new(4);
    let sock = sock();
    let mut watch = sock.start_keepalive(config, &health).unwrap();
    assert!(matches!(watch.tick(config, &mut health, &sock), Watch::Probe(_)));
    match watch.probe_refused(&mut health, &sock) {
        Watch::Dead(tuple) => assert_eq!(tuple, sock.tuple()),
        other => panic!("{:?}", other),
    }
    assert_eq!(health, SocketHealth { last_rx_ms: 4, closed: true });
    assert!(matches!(watch.tick(config, &mut health, &sock), Watch::Stop));
}

#[test]
fn traffic_forgives() {
    let config = KeepaliveConfig { interval: Duration::from_secs(1), max_missed: 1 };
    let mut health = SocketHealth::new(0);
    let mut sock = sock();
    let mut watch = sock.start_keepalive(config, &health).unwrap();
    for now in 1..5 {
        assert!(matches!(watch.tick(config, &mut health, &sock), Watch::Probe(_)));
        let answer = build_tcp_packet(sock.remote_addr, sock.local_addr, 70, 50, ACK, None);
        sock.recv(&mut health, &answer, now, &mut []);
        assert!(matches!(watch.tick(config, &mut health, &sock), Watch::Alive));
        assert_eq!(watch, Keepalive { last_seen: now, missed: 0 });
    }
    assert!(matches!(watch.tick(config, &mut health, &sock), Watch::Probe(_)));
    assert!(matches!(watch.tick(config, &mut health, &sock), Watch::Dead(_)));
}

#[test]
fn closed_connection_is_not_watched() {
    let config = KeepaliveConfig::default();
    let mut health = SocketHealth { last_rx_ms: 9, closed: true };
    let mut watch = Keepalive { last_seen: 0, missed: 2 };
    assert!(matches!(watch.tick(config, &mut health, &sock()), Watch::Stop));
    assert_eq!(watch, Keepalive { last_seen: 0, missed: 2 });
}
