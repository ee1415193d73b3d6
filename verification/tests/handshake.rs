use fake_tcp::handshake::{RETRIES, TIMEOUT_SECS};
use fake_tcp::packet::{build_tcp_packet, parse_ip_packet, ACK, RST, RST_ACK, SYN, SYN_ACK};
use fake_tcp::{
    Action, Dispatch, Event, IpAddr, Ipv4Addr, Reader, Socket, SocketAddr, Stack, State,
};

fn addr(host: u8, port: u16) -> SocketAddr {
    SocketAddr::new(IpAddr::V4(Ipv4Addr::new(10, 0, 0, host)), port)
}

fn client() -> Socket {
    Socket::new(addr(1, 40000), addr(2, 80), None, State::Idle)
}

fn server() -> Socket {
    Socket::new(addr(2, 80), addr(1, 40000), Some(1), State::Idle)
}

fn transmitted(action: Action) -> Vec<u8> {
    match action {
        Action::Transmit(packet) => packet,
        other => panic!("{:?}", other),
    }
}

#[test]
fn limits() {
    assert_eq!(RETRIES, 6);
    assert_eq!(TIMEOUT_SECS, 1);
}

#[test]
fn three_way_handshake() {
    let mut client = client();
    let mut client_turns = 0;
    let syn = transmitted(client.connect(&mut client_turns, Event::Ready));
    assert_eq!(client.state, State::SynSent);
    let segment = parse_ip_packet(&syn).unwrap();
    assert_eq!(segment.flags, SYN);
    assert_eq!((segment.sequence, segment.acknowledgement), (0, 0));
    assert!(matches!(client.connect(&mut client_turns, Event::Ready), Action::Await));
    assert_eq!(client_turns, 2);

    let mut stack: Stack<(), ()> = Stack::new(vec![()], Ipv4Addr::new(10, 0, 0, 2), None);
    stack.listen(80);
    let mut server = match Reader::new().on_packet(&stack, &syn) {
        Dispatch::Open(sock) => sock,
        _ => panic!("not opened"),
    };
    let mut server_turns = 0;
    let syn_ack = transmitted(server.accept(&mut server_turns, Event::Ready));
    assert_eq!(server.state, State::SynReceived);
    let segment = parse_ip_packet(&syn_ack).unwrap();
    assert_eq!(segment.flags, SYN_ACK);
    assert_eq!((segment.sequence, segment.acknowledgement), (0, 1));
    assert!(matches!(server.accept(&mut server_turns, Event::Ready), Action::Await));

    let ack = match client.connect(&mut client_turns, Event::Received(&syn_ack)) {
        Action::Established(Some(packet)) => packet,
        other => panic!("{:?}", other),
    };
    assert_eq!(client.state, State::Established);
    assert_eq!((client.seq, client.ack, client.last_ack), (1, 1, 1));
    let segment = parse_ip_packet(&ack).unwrap();
    assert_eq!(segment.flags, ACK);
    assert_eq!((segment.sequence, segment.acknowledgement), (1, 1));

    assert!(matches!(
        server.accept(&mut server_turns, Event::Received(&ack)),
        Action::Established(None)
    ));
    assert_eq!(server.state, State::Established);
    assert_eq!((server.seq, server.ack), (1, 1));
}

#[test]
fn client_gives_up_on_silence() {
    let mut client = client();
    let mut turns = 0;
    let mut sent = 0;
    let mut event = Event::Ready;
    loop {
        match client.connect(&mut turns, event) {
            Action::Transmit(_) => {
                sent += 1;
                event = Event::Ready;
            }
            Action::Await => event = Event::TimedOut,
            Action::Exhausted => break,
            other => panic!("{:?}", other),
        }
    }
    assert_eq!(sent, 3);
    assert_eq!(turns, RETRIES);
    assert_eq!(client.state, State::Idle);
}

#[test]
fn server_gives_up_on_silence() {
    let mut server = server();
    let mut turns = 0;
    let mut sent = 0;
    let mut event = Event::Ready;
    loop {
        match server.accept(&mut turns, event) {
            Action::Transmit(packet) => {
                assert_eq!(parse_ip_packet(&packet).unwrap().flags, SYN_ACK);
                sent += 1;
                event = Event::Ready;
            }
            Action::Await => event = Event::TimedOut,
            Action::Exhausted => break,
            other => panic!("{:?}", other),
        }
    }
    assert_eq!(sent, 3);
}

#[test]
fn irrelevant_packets_use_up_turns() {
    let mut client = client();
    let mut turns = 0;
    transmitted(client.connect(&mut turns, Event::Ready));
    let wrong = [
        build_tcp_packet(addr(2, 80), addr(1, 40000), 0, 2, SYN_ACK, None),
        build_tcp_packet(addr(2, 80), addr(1, 40000), 0, 1, ACK, None),
        build_tcp_packet(addr(2, 80), addr(1, 40000), 0, 1, SYN, None),
    ];
    assert!(matches!(client.connect(&mut turns, Event::Ready), Action::Await));
    for packet in &wrong {
        assert!(matches!(client.connect(&mut turns, Event::Received(packet)), Action::Await));
    }
    assert_eq!(turns, 5);
    assert!(matches!(client.connect(&mut turns, Event::Received(&wrong[0])), Action::Await));
    assert!(matches!(client.connect(&mut turns, Event::Received(&wrong[0])), Action::Exhausted));
    assert_eq!(client.state, State::SynSent);
}

#[test]
fn reset_refuses() {
    for flags in [RST, RST_ACK] {
        let mut client = client();
        let mut turns = 0;
        transmitted(client.connect(&mut turns, Event::Ready));
        let reset = build_tcp_packet(addr(2, 80), addr(1, 40000), 0, 1, flags, None);
        assert!(matches!(client.connect(&mut turns, Event::Received(&reset)), Action::Refused));

        let mut server = server();
        let mut turns = 0;
        transmitted(server.accept(&mut turns, Event::Ready));
        let reset = build_tcp_packet(addr(1, 40000), addr(2, 80), 1, 1, flags, None);
        assert!(matches!(server.accept(&mut turns, Event::Received(&reset)), Action::Refused));
    }
}

#[test]
fn numbers_wrap_in_the_handshake() {
    let mut client = client();
    let mut turns = 0;
    transmitted(client.connect(&mut turns, Event::Ready));
    let answer = build_tcp_packet(addr(2, 80), addr(1, 40000), u32::MAX, 1, SYN_ACK, None);
    assert!(matches!(
        client.connect(&mut turns, Event::Received(&answer)),
        Action::Established(Some(_))
    ));
    assert_eq!(client.ack, 0);
}

#[test]
fn server_wants_its_number_acknowledged() {
    let mut server = server();
    let mut turns = 0;
    transmitted(server.accept(&mut turns, Event::Ready));
    let wrong = build_tcp_packet(addr(1, 40000), addr(2, 80), 1, 7, ACK, None);
    assert!(matches!(server.accept(&mut turns, Event::Received(&wrong)), Action::Await));
    let with_data = build_tcp_packet(addr(1, 40000), addr(2, 80), 1, 1, ACK, Some(b"early"));
    assert!(matches!(
        server.accept(&mut turns, Event::Received(&with_data)),
        Action::Established(None)
    ));
    assert_eq!(server.ack, 1);
}
