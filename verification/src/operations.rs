//! What each operation does, as those who call it see it.
//!
//! `call_ensures` stands for a call that has returned, and `call_requires` for one that may be made.

use rand::rngs::SmallRng;
use std::sync::Arc;
use vstd::prelude::*;

use crate::addr::{AddrTuple, IpAddr, Ipv4Addr, Ipv6Addr, SocketAddr};
use crate::handshake::{
    law_client_hears, law_client_opens, law_client_persists, law_server_hears, law_server_opens,
    law_server_persists, Action, Event,
};
use crate::keepalive::{law_look, Keepalive, KeepaliveConfig, Watch};
use crate::packet::{
    build_tcp_packet, fits, law_flags, law_parse_inverts_build, law_reads_ipv4, law_reads_ipv6,
    law_reads_nothing_else, law_room_for_payload, parse_ip_packet, parsed, payload_fits, says, Segment, ACK, RST, RST_ACK,
    SYN, SYN_ACK,
};
use crate::reader::{
    law_what_is_delivered, law_what_is_reset, law_what_opens, Dispatch, Reader,
};
use crate::socket::{
    advance, connection_label, law_datagram_goes_out_whole, law_datagram_is_delivered, law_probe_repeats_last_number,
    law_reception_is_noted, law_reset_ends_connection, law_sign_of_life, seq_add, seq_sub,
    Received, Socket, SocketHealth, State,
};
use crate::stack::{law_farewell_is_due, Stack};
use crate::table::ConnTable;
use crate::time::{now_ms, Duration};

verus! {

/// Whether both ends of a socket are of one family.
pub open spec fn one_family(sock: Socket) -> bool {
    sock.local_addr.ip is V4 <==> sock.remote_addr.ip is V4
}

/// Whether no more than 128 MB that a socket received wait for an acknowledgement.
pub open spec fn not_overdue(sock: Socket) -> bool {
    seq_sub(sock.ack, sock.last_ack) <= 134_217_728
}

/// Whether two sockets differ at most in their numbers.
pub open spec fn same_but_numbers(a: Socket, b: Socket) -> bool {
    a.local_addr == b.local_addr && a.remote_addr == b.remote_addr && a.state == b.state
}

/// Sending on an established connection. A datagram that fits into a packet can be sent. If the
/// connection is closed nothing comes of it, and otherwise the packet carries the whole datagram
/// with the numbers of the socket, and the next number is behind the datagram.
pub proof fn law_send(
    sock: &mut Socket,
    health: &SocketHealth,
    payload: &[u8],
    packet: Option<Vec<u8>>,
)
    requires
        one_family(*old(sock)),
        not_overdue(*old(sock)),
        old(sock).state is Established,
        payload@.len() <= if old(sock).local_addr.ip is V4 {
            65495int
        } else {
            65515int
        },
    ensures
        call_requires(Socket::send, (sock, health, payload)),
        call_ensures(Socket::send, (sock, health, payload), packet) ==> {
            &&& packet is Some <==> !health.closed
            &&& health.closed ==> *final(sock) == *old(sock)
            &&& !health.closed ==> {
                &&& says(
                    packet->0@,
                    old(sock).local_addr,
                    old(sock).remote_addr,
                    old(sock).seq,
                    old(sock).ack,
                    ACK,
                    payload@,
                )
                &&& same_but_numbers(*final(sock), *old(sock))
                &&& final(sock).seq == seq_add(old(sock).seq, payload@.len())
                &&& final(sock).ack == old(sock).ack
                &&& final(sock).last_ack == old(sock).ack
            }
        },
{
    law_flags();
    law_room_for_payload(sock.local_addr.ip, ACK, payload@.len());
    law_datagram_goes_out_whole(*sock, *health, payload@);
}

/// Taking in a packet with `RST`. It closes the connection and names its endpoints, and nothing else
/// changes.
pub proof fn law_recv_reset(
    sock: &mut Socket,
    health: &mut SocketHealth,
    raw_buf: &[u8],
    now_ms: u64,
    buf: &mut [u8],
    received: Received,
)
    requires
        one_family(*old(sock)),
        not_overdue(*old(sock)),
        old(sock).state is Established,
        parsed(raw_buf@) is Some,
        parsed(raw_buf@)->0.flags & RST != 0,
    ensures
        call_requires(Socket::recv, (sock, health, raw_buf, now_ms, buf)),
        call_ensures(Socket::recv, (sock, health, raw_buf, now_ms, buf), received) ==> {
            &&& received is Reset
            &&& received->Reset_0.local_addr == old(sock).local_addr
            &&& received->Reset_0.remote_addr == old(sock).remote_addr
            &&& *final(sock) == *old(sock)
            &&& final(health).closed
            &&& final(health).last_rx_ms == old(health).last_rx_ms
            &&& final(buf)@ == old(buf)@
        },
{
    law_reset_ends_connection(*sock, parsed(raw_buf@)->0);
    law_reception_is_noted(*sock, *health, parsed(raw_buf@)->0, now_ms);
}

/// Taking in a packet without payload. It is noted, and only a bare `ACK` that repeats the number
/// before the one expected is answered, by a bare `ACK` of the one expected.
pub proof fn law_recv_nothing(
    sock: &mut Socket,
    health: &mut SocketHealth,
    raw_buf: &[u8],
    now_ms: u64,
    buf: &mut [u8],
    received: Received,
)
    requires
        one_family(*old(sock)),
        not_overdue(*old(sock)),
        old(sock).state is Established,
        parsed(raw_buf@) is Some,
        parsed(raw_buf@)->0.flags & RST == 0,
        parsed(raw_buf@)->0.payload.len() == 0,
    ensures
        call_requires(Socket::recv, (sock, health, raw_buf, now_ms, buf)),
        call_ensures(Socket::recv, (sock, health, raw_buf, now_ms, buf), received) ==> {
            let segment = parsed(raw_buf@)->0;
            let asked = segment.flags == ACK && seq_add(segment.sequence, 1) == old(sock).ack;
            let answer = received->Nothing_0;
            &&& received is Nothing
            &&& answer is Some <==> asked
            &&& asked ==> says(
                answer->0@,
                old(sock).local_addr,
                old(sock).remote_addr,
                old(sock).seq,
                old(sock).ack,
                ACK,
                Seq::empty(),
            )
            &&& same_but_numbers(*final(sock), *old(sock))
            &&& final(sock).seq == old(sock).seq && final(sock).ack == old(sock).ack
            &&& final(sock).last_ack == if asked {
                old(sock).ack
            } else {
                old(sock).last_ack
            }
            &&& final(health).closed == old(health).closed
            &&& final(health).last_rx_ms == now_ms
            &&& final(buf)@ == old(buf)@
        },
{
    law_sign_of_life(*sock, parsed(raw_buf@)->0);
    law_reception_is_noted(*sock, *health, parsed(raw_buf@)->0, now_ms);
}

/// Taking in a packet with payload. The payload, all of it, stands at the front of the buffer, and
/// the rest of the buffer is as it was. The number behind the payload is the one expected next. Only
/// if more than 128 MB have come since the last acknowledgement is there an answer, a bare `ACK` of
/// that number.
pub proof fn law_recv_datagram(
    sock: &mut Socket,
    health: &mut SocketHealth,
    raw_buf: &[u8],
    now_ms: u64,
    buf: &mut [u8],
    received: Received,
)
    requires
        one_family(*old(sock)),
        not_overdue(*old(sock)),
        old(sock).state is Established,
        parsed(raw_buf@) is Some,
        parsed(raw_buf@)->0.flags & RST == 0,
        0 < parsed(raw_buf@)->0.payload.len() <= old(buf)@.len(),
    ensures
        call_requires(Socket::recv, (sock, health, raw_buf, now_ms, buf)),
        call_ensures(Socket::recv, (sock, health, raw_buf, now_ms, buf), received) ==> {
            let segment = parsed(raw_buf@)->0;
            let size = received->Datagram_0;
            let answer = received->Datagram_1;
            &&& received is Datagram
            &&& size == segment.payload.len()
            &&& final(buf)@.len() == old(buf)@.len()
            &&& forall|i: int|
                0 <= i < final(buf)@.len() ==> #[trigger] final(buf)@[i] == if i < size {
                    segment.payload[i]
                } else {
                    old(buf)@[i]
                }
            &&& same_but_numbers(*final(sock), *old(sock))
            &&& final(sock).seq == old(sock).seq
            &&& final(sock).ack == seq_add(segment.sequence, segment.payload.len())
            &&& answer is Some <==> seq_sub(final(sock).ack, old(sock).last_ack) > 134_217_728
            &&& answer is None ==> final(sock).last_ack == old(sock).last_ack
            &&& answer is Some ==> final(sock).last_ack == final(sock).ack && says(
                answer->0@,
                old(sock).local_addr,
                old(sock).remote_addr,
                old(sock).seq,
                final(sock).ack,
                ACK,
                Seq::empty(),
            )
            &&& final(health).closed == old(health).closed
            &&& final(health).last_rx_ms == now_ms
        },
{
    let segment = parsed(raw_buf@)->0;
    law_datagram_is_delivered(*sock, segment);
    law_reception_is_noted(*sock, *health, segment, now_ms);
    if call_ensures(Socket::recv, (sock, health, raw_buf, now_ms, buf), received) {
        assert(received is Datagram);
        assert(final(buf)@.take(received->Datagram_0 as int) == segment.payload);
        assert(final(buf)@.take(received->Datagram_0 as int).len() == segment.payload.len());
    }
}

/// A turn of the client's handshake, taken when it begins or has transmitted, or after a wait in vain.
/// Within six turns it transmits its opening segment, with `SYN`, its numbers and no payload, when
/// it begins and after every wait in vain, and waits when it has transmitted. Its numbers stay.
pub proof fn law_connect_unanswered(
    sock: &mut Socket,
    turns: &mut usize,
    event: Event,
    action: Action,
)
    requires
        one_family(*old(sock)),
        not_overdue(*old(sock)),
        old(sock).state is Idle || old(sock).state is SynSent,
        event is Ready || (event is TimedOut && old(sock).state is SynSent),
    ensures
        call_requires(Socket::connect, (sock, turns, event)),
        call_ensures(Socket::connect, (sock, turns, event), action) ==> {
            let opens = event is TimedOut || old(sock).state is Idle;
            &&& action is Exhausted <==> *old(turns) >= 6
            &&& action is Transmit <==> *old(turns) < 6 && opens
            &&& action is Await <==> *old(turns) < 6 && !opens
            &&& action is Exhausted ==> *final(turns) == *old(turns)
            &&& !(action is Exhausted) ==> *final(turns) == *old(turns) + 1
            &&& action matches Action::Transmit(packet) ==> {
                &&& says(
                    packet@,
                    old(sock).local_addr,
                    old(sock).remote_addr,
                    old(sock).seq,
                    old(sock).ack,
                    SYN,
                    Seq::empty(),
                )
                &&& *final(sock) == Socket {
                    last_ack: old(sock).ack,
                    state: State::SynSent,
                    ..*old(sock)
                }
            }
            &&& action is Await ==> *final(sock) == *old(sock)
            &&& final(sock).seq == old(sock).seq && final(sock).ack == old(sock).ack
        },
{
    law_client_opens(*sock, *turns as nat, event@);
    law_client_persists(*sock, *turns as nat);
}

/// A turn of the client's handshake in which a segment came. A reset is a refusal. The answer that
/// acknowledges the opening segment establishes the connection at once, however many turns were
/// taken. Anything else is passed over, at the cost of a turn.
pub proof fn law_connect_answered(
    sock: &mut Socket,
    turns: &mut usize,
    raw_buf: &[u8],
    action: Action,
)
    requires
        one_family(*old(sock)),
        not_overdue(*old(sock)),
        old(sock).state is SynSent,
        parsed(raw_buf@) is Some,
    ensures
        call_requires(Socket::connect, (sock, turns, Event::Received(raw_buf))),
        call_ensures(Socket::connect, (sock, turns, Event::Received(raw_buf)), action) ==> {
            let segment = parsed(raw_buf@)->0;
            let answered = segment.flags == SYN_ACK && seq_sub(
                segment.acknowledgement,
                old(sock).seq,
            ) == 1;
            &&& action is Refused <==> segment.flags & RST != 0
            &&& action is Established <==> answered
            &&& action is Exhausted <==> *old(turns) >= 6 && !answered && segment.flags & RST == 0
            &&& action is Await <==> *old(turns) < 6 && !answered && segment.flags & RST == 0
            &&& action is Await ==> *final(turns) == *old(turns) + 1
            &&& !(action is Await) ==> *final(turns) == *old(turns)
            &&& !answered ==> *final(sock) == *old(sock)
            &&& answered ==> {
                &&& final(sock).local_addr == old(sock).local_addr
                &&& final(sock).remote_addr == old(sock).remote_addr
                &&& final(sock).seq == segment.acknowledgement
                &&& final(sock).state is Established
                &&& final(sock).ack == seq_add(segment.sequence, 1)
                &&& final(sock).last_ack == final(sock).ack
                &&& action->Established_0 is Some
                &&& says(
                    action->Established_0->0@,
                    old(sock).local_addr,
                    old(sock).remote_addr,
                    segment.acknowledgement,
                    seq_add(segment.sequence, 1),
                    ACK,
                    Seq::empty(),
                )
            }
        },
{
    law_flags();
    law_client_hears(*sock, *turns as nat, parsed(raw_buf@)->0);
    law_client_persists(*sock, *turns as nat);
}

/// A turn of the server's handshake, taken when it begins or has transmitted, or after a wait in vain.
/// Within six turns it transmits its opening segment, with `SYN + ACK`, its numbers and no payload, when
/// it begins and after every wait in vain, and waits when it has transmitted. Its numbers stay.
pub proof fn law_accept_unanswered(
    sock: &mut Socket,
    turns: &mut usize,
    event: Event,
    action: Action,
)
    requires
        one_family(*old(sock)),
        not_overdue(*old(sock)),
        old(sock).state is Idle || old(sock).state is SynReceived,
        event is Ready || (event is TimedOut && old(sock).state is SynReceived),
    ensures
        call_requires(Socket::accept, (sock, turns, event)),
        call_ensures(Socket::accept, (sock, turns, event), action) ==> {
            let opens = event is TimedOut || old(sock).state is Idle;
            &&& action is Exhausted <==> *old(turns) >= 6
            &&& action is Transmit <==> *old(turns) < 6 && opens
            &&& action is Await <==> *old(turns) < 6 && !opens
            &&& action is Exhausted ==> *final(turns) == *old(turns)
            &&& !(action is Exhausted) ==> *final(turns) == *old(turns) + 1
            &&& action matches Action::Transmit(packet) ==> {
                &&& says(
                    packet@,
                    old(sock).local_addr,
                    old(sock).remote_addr,
                    old(sock).seq,
                    old(sock).ack,
                    SYN_ACK,
                    Seq::empty(),
                )
                &&& *final(sock) == Socket {
                    last_ack: old(sock).ack,
                    state: State::SynReceived,
                    ..*old(sock)
                }
            }
            &&& action is Await ==> *final(sock) == *old(sock)
            &&& final(sock).seq == old(sock).seq && final(sock).ack == old(sock).ack
        },
{
    law_server_opens(*sock, *turns as nat, event@);
    law_server_persists(*sock, *turns as nat);
}

/// A turn of the server's handshake in which a segment came. A reset is a refusal. The answer that
/// acknowledges the opening segment establishes the connection at once, however many turns were
/// taken. Anything else is passed over, at the cost of a turn.
pub proof fn law_accept_answered(
    sock: &mut Socket,
    turns: &mut usize,
    raw_buf: &[u8],
    action: Action,
)
    requires
        one_family(*old(sock)),
        not_overdue(*old(sock)),
        old(sock).state is SynReceived,
        parsed(raw_buf@) is Some,
    ensures
        call_requires(Socket::accept, (sock, turns, Event::Received(raw_buf))),
        call_ensures(Socket::accept, (sock, turns, Event::Received(raw_buf)), action) ==> {
            let segment = parsed(raw_buf@)->0;
            let answered = segment.flags == ACK && seq_sub(
                segment.acknowledgement,
                old(sock).seq,
            ) == 1;
            &&& action is Refused <==> segment.flags & RST != 0
            &&& action is Established <==> answered
            &&& action is Exhausted <==> *old(turns) >= 6 && !answered && segment.flags & RST == 0
            &&& action is Await <==> *old(turns) < 6 && !answered && segment.flags & RST == 0
            &&& action is Await ==> *final(turns) == *old(turns) + 1
            &&& !(action is Await) ==> *final(turns) == *old(turns)
            &&& !answered ==> *final(sock) == *old(sock)
            &&& answered ==> {
                &&& final(sock).local_addr == old(sock).local_addr
                &&& final(sock).remote_addr == old(sock).remote_addr
                &&& final(sock).seq == segment.acknowledgement
                &&& final(sock).state is Established
                &&& final(sock).ack == old(sock).ack
                &&& final(sock).last_ack == old(sock).last_ack
                &&& action->Established_0 is None
            }
        },
{
    law_flags();
    law_server_hears(*sock, *turns as nat, parsed(raw_buf@)->0);
    law_server_persists(*sock, *turns as nat);
}

/// A look at a connection: it stops at a closed one, starts to count anew if something was received
/// since the last look, and otherwise probes until `max_missed` probes went unanswered. Then the
/// connection is closed. Only then does its health change.
pub proof fn law_tick(
    watch: &mut Keepalive,
    config: KeepaliveConfig,
    health: &mut SocketHealth,
    sock: &Socket,
    verdict: Watch,
)
    requires
        one_family(*sock),
        not_overdue(*sock),
    ensures
        call_requires(Keepalive::tick, (watch, config, health, sock)),
        call_ensures(Keepalive::tick, (watch, config, health, sock), verdict) ==> {
            let silent = !old(health).closed && old(health).last_rx_ms == old(watch).last_seen;
            &&& verdict is Stop <==> old(health).closed
            &&& verdict is Alive <==> !old(health).closed && !silent
            &&& verdict is Probe <==> silent && old(watch).missed < config.max_missed
            &&& verdict is Dead <==> silent && old(watch).missed >= config.max_missed
            &&& verdict is Stop || verdict is Dead ==> *final(watch) == *old(watch)
            &&& verdict is Alive ==> final(watch).missed == 0 && final(watch).last_seen
                == old(health).last_rx_ms
            &&& verdict is Probe ==> final(watch).missed == old(watch).missed + 1
                && final(watch).last_seen == old(watch).last_seen
            &&& final(health).last_rx_ms == old(health).last_rx_ms
            &&& final(health).closed <==> old(health).closed || verdict is Dead
            &&& verdict matches Watch::Dead(tuple) ==> tuple.local_addr == sock.local_addr
                && tuple.remote_addr == sock.remote_addr
            &&& verdict matches Watch::Probe(packet) ==> asks_for_life(packet@, *sock)
        },
{
    law_look(*watch, config.max_missed, *health, *sock);
}

/// Whether a packet is a bare `ACK` from a socket that repeats the number before its next one.
pub open spec fn asks_for_life(packet: Seq<u8>, sock: Socket) -> bool {
    let sequence = parsed(packet)->0.sequence;
    &&& says(packet, sock.local_addr, sock.remote_addr, sequence, sock.ack, ACK, Seq::empty())
    &&& seq_add(sequence, 1) == sock.seq
}

/// A probe that could not be sent closes the connection at once.
pub proof fn law_probe_refused(
    watch: &Keepalive,
    health: &mut SocketHealth,
    sock: &Socket,
    verdict: Watch,
)
    ensures
        call_requires(Keepalive::probe_refused, (watch, health, sock)),
        call_ensures(Keepalive::probe_refused, (watch, health, sock), verdict) ==> {
            &&& verdict is Dead
            &&& verdict->Dead_0.local_addr == sock.local_addr
            &&& verdict->Dead_0.remote_addr == sock.remote_addr
            &&& final(health).closed
            &&& final(health).last_rx_ms == old(health).last_rx_ms
        },
{
}

/// A watch starts where connections are watched over, with nothing missed, from what was last
/// received.
pub proof fn law_start_keepalive(
    sock: &Socket,
    config: KeepaliveConfig,
    health: &SocketHealth,
    watch: Option<Keepalive>,
)
    ensures
        call_requires(Socket::start_keepalive, (sock, config, health)),
        call_ensures(Socket::start_keepalive, (sock, config, health), watch) ==> {
            &&& watch is Some <==> (config.interval.secs > 0 || config.interval.nanos > 0)
                && config.max_missed > 0
            &&& watch is Some ==> watch->0.missed == 0 && watch->0.last_seen == health.last_rx_ms
        },
{
}

/// By default a connection is looked after every 15 seconds, and three probes may go unanswered. A
/// disabled watch has neither, and a watch is enabled if it has both.
pub proof fn law_configurations(
    config: KeepaliveConfig,
    enabled: bool,
    disabled: KeepaliveConfig,
    default: KeepaliveConfig,
)
    requires
        call_ensures(KeepaliveConfig::is_enabled, (config,), enabled),
        call_ensures(KeepaliveConfig::disabled, (), disabled),
        call_ensures(<KeepaliveConfig as Default>::default, (), default),
    ensures
        enabled <==> (config.interval.secs > 0 || config.interval.nanos > 0) && config.max_missed
            > 0,
        disabled.interval.secs == 0 && disabled.interval.nanos == 0 && disabled.max_missed == 0,
        default.interval.secs == 15 && default.interval.nanos == 0 && default.max_missed == 3,
{
}

/// A probe and an acknowledgement: bare `ACK`s, one of the number before the next, one of the next.
/// The acknowledgement covers all that was received, and a probe changes nothing.
pub proof fn law_probe_and_ack(
    sock: &mut Socket,
    same: &Socket,
    probe: Vec<u8>,
    ack: Vec<u8>,
)
    requires
        *same == *old(sock),
        one_family(*same),
        not_overdue(*same),
    ensures
        call_requires(Socket::send_keepalive_probe, (same,)),
        call_requires(Socket::send_ack, (sock,)),
        call_ensures(Socket::send_keepalive_probe, (same,), probe) ==> asks_for_life(
            probe@,
            *same,
        ),
        call_ensures(Socket::send_ack, (sock,), ack) ==> {
            &&& says(
                ack@,
                same.local_addr,
                same.remote_addr,
                same.seq,
                same.ack,
                ACK,
                Seq::empty(),
            )
            &&& *final(sock) == Socket { last_ack: same.ack, ..*same }
        },
{
    law_flags();
    law_room_for_payload(same.local_addr.ip, ACK, 0);
    law_probe_repeats_last_number(*same);
    law_parse_inverts_build(
        same.local_addr,
        same.remote_addr,
        same.seq,
        same.ack,
        ACK,
        Seq::empty(),
    );
}

/// A socket that is made has its endpoints and its state, has sent nothing, and expects the number
/// that it is given, or zero.
pub proof fn law_new_socket(
    local_addr: SocketAddr,
    remote_addr: SocketAddr,
    ack: Option<u32>,
    state: State,
    sock: Socket,
    tuple: AddrTuple,
)
    ensures
        call_requires(Socket::new, (local_addr, remote_addr, ack, state)),
        call_ensures(Socket::new, (local_addr, remote_addr, ack, state), sock) ==> {
            &&& sock.local_addr == local_addr && sock.remote_addr == remote_addr
            &&& sock.seq == 0
            &&& ack is Some ==> sock.ack == ack->0
            &&& ack is None ==> sock.ack == 0
            &&& sock.last_ack == sock.ack
            &&& sock.state == state
        },
        call_ensures(Socket::tuple, (&sock,), tuple) ==> {
            &&& tuple.local_addr == sock.local_addr
            &&& tuple.remote_addr == sock.remote_addr
        },
{
}

/// The packet that a socket builds has its endpoints and numbers, and the flags and the payload that
/// are asked for. It acknowledges all that was received.
pub proof fn law_socket_builds(
    sock: &mut Socket,
    flags: u8,
    payload: Option<&[u8]>,
    packet: Vec<u8>,
)
    requires
        one_family(*old(sock)),
        payload is Some ==> fits(old(sock).local_addr.ip, flags, payload->0@.len()),
    ensures
        call_requires(Socket::build_tcp_packet, (sock, flags, payload)),
        call_ensures(Socket::build_tcp_packet, (sock, flags, payload), packet) ==> {
            &&& *final(sock) == Socket { last_ack: old(sock).ack, ..*old(sock) }
            &&& says(
                packet@,
                old(sock).local_addr,
                old(sock).remote_addr,
                old(sock).seq,
                old(sock).ack,
                flags,
                match payload {
                    Some(payload) => payload@,
                    None => Seq::empty(),
                },
            )
        },
{
    let bytes = match payload {
        Some(payload) => payload@,
        None => Seq::empty(),
    };
    law_room_for_payload(sock.local_addr.ip, flags, bytes.len());
    law_parse_inverts_build(
        sock.local_addr,
        sock.remote_addr,
        sock.seq,
        sock.ack,
        flags,
        bytes,
    );
}

/// A connection begins open, as heard of now. Whatever comes in is noted with its time and closes
/// nothing. A connection that is declared over keeps its time.
pub proof fn law_health(
    health: &mut SocketHealth,
    now_ms: u64,
    begun: SocketHealth,
    sock: &Socket,
    tuple: AddrTuple,
)
    ensures
        call_requires(SocketHealth::new, (now_ms,)),
        call_requires(SocketHealth::touch, (health, now_ms)),
        call_requires(Socket::mark_closed, (sock, health)),
        call_ensures(SocketHealth::new, (now_ms,), begun) ==> !begun.closed && begun.last_rx_ms
            == now_ms,
        call_ensures(SocketHealth::touch, (health, now_ms), ()) ==> final(health).last_rx_ms
            == now_ms && final(health).closed == old(health).closed,
        call_ensures(Socket::mark_closed, (sock, health), tuple) ==> {
            &&& final(health).closed
            &&& final(health).last_rx_ms == old(health).last_rx_ms
            &&& tuple.local_addr == sock.local_addr
            &&& tuple.remote_addr == sock.remote_addr
        },
{
}

/// A packet that comes in. What carries no TCP segment is ignored. A segment whose destination and
/// source are the local and the remote end of a connection that the reader or the table has is
/// delivered there, and the reader has it from then on. Nothing else changes what the reader has.
pub proof fn law_on_packet_delivers<T, C>(
    reader: &mut Reader<C>,
    stack: &Stack<T, C>,
    buf: &[u8],
    dispatch: Dispatch<C>,
    tuple: AddrTuple,
)
    requires
        old(reader).wf(),
        stack.wf(),
        parsed(buf@) matches Some(segment) ==> tuple.local_addr == segment.destination
            && tuple.remote_addr == segment.source,
    ensures
        call_requires(Reader::<C>::on_packet::<T>, (reader, stack, buf)),
        call_ensures(Reader::<C>::on_packet::<T>, (reader, stack, buf), dispatch) ==> {
            let had = old(reader).cache@;
            let has = final(reader).cache@;
            let known = had.contains_key(tuple) || stack.tuples@.contains_key(tuple);
            &&& final(reader).wf()
            &&& parsed(buf@) is None ==> dispatch is Ignore
            &&& dispatch is Deliver <==> parsed(buf@) is Some && known
            &&& dispatch matches Dispatch::Deliver(conn) ==> {
                &&& conn == if had.contains_key(tuple) {
                    had[tuple]
                } else {
                    stack.tuples@[tuple]
                }
                &&& has.contains_key(tuple) && has[tuple] == conn
                &&& forall|t: AddrTuple| #[trigger]
                    has.contains_key(t) <==> had.contains_key(t) || t == tuple
                &&& forall|t: AddrTuple| #[trigger] had.contains_key(t) ==> has[t] == had[t]
            }
            &&& !(dispatch is Deliver) ==> has == had
        },
{
    law_what_is_delivered(
        reader.cache@,
        stack.tuples@,
        stack.listening@,
        buf@,
        tuple,
    );
    if parsed(buf@) is Some && !reader.cache@.contains_key(tuple) && !stack.tuples@.contains_key(
        tuple,
    ) {
        law_what_opens::<C>(stack.listening@, parsed(buf@)->0);
    }
}

/// A segment of no connection that comes in. A bare `SYN` from number zero for a port that is
/// listened on opens a connection. A reset is ignored. Anything else, a `SYN` for any other port
/// included, is answered with `RST + ACK` between the swapped endpoints: with the number that the
/// segment acknowledges, and an acknowledgement of all of it, or for a bare `SYN` on a port that is
/// listened on, from zero and with the `SYN` counted.
pub proof fn law_on_packet_answers_strays<T, C>(
    reader: &mut Reader<C>,
    stack: &Stack<T, C>,
    buf: &[u8],
    dispatch: Dispatch<C>,
    tuple: AddrTuple,
)
    requires
        old(reader).wf(),
        stack.wf(),
        parsed(buf@) is Some,
        tuple.local_addr == parsed(buf@)->0.destination,
        tuple.remote_addr == parsed(buf@)->0.source,
        !old(reader).cache@.contains_key(tuple),
        !stack.tuples@.contains_key(tuple),
    ensures
        call_ensures(Reader::<C>::on_packet::<T>, (reader, stack, buf), dispatch) ==> {
            let segment = parsed(buf@)->0;
            let len = segment.payload.len();
            let opening = segment.flags == SYN && stack.listening@.contains(
                segment.destination.port,
            );
            &&& dispatch is Ignore <==> segment.flags & RST != 0
            &&& dispatch is Open <==> opening && segment.sequence == 0
            &&& dispatch is Reset <==> segment.flags & RST == 0 && !(opening && segment.sequence
                == 0)
            &&& dispatch matches Dispatch::Open(sock) ==> {
                &&& sock.local_addr == segment.destination
                &&& sock.remote_addr == segment.source
                &&& sock.seq == 0 && sock.ack == 1 && sock.last_ack == 1
                &&& sock.state is Idle
                &&& one_family(sock)
            }
            &&& dispatch matches Dispatch::Reset(packet) ==> says(
                packet@,
                segment.destination,
                segment.source,
                if opening {
                    0
                } else {
                    segment.acknowledgement
                },
                seq_add(
                    segment.sequence,
                    if opening {
                        len + 1
                    } else {
                        len
                    },
                ),
                RST_ACK,
                Seq::empty(),
            )
        },
{
    law_reads_nothing_else(buf@);
    law_flags();
    law_what_is_delivered(
        reader.cache@,
        stack.tuples@,
        stack.listening@,
        buf@,
        tuple,
    );
    law_what_opens::<C>(stack.listening@, parsed(buf@)->0);
    law_what_is_reset::<C>(stack.listening@, parsed(buf@)->0);
}

/// A reader begins with nothing, and when it is told of endpoints it forgets their connection and no
/// other.
pub proof fn law_reader_forgets<C>(fresh: Reader<C>, reader: &mut Reader<C>, tuple: &AddrTuple)
    requires
        old(reader).wf(),
    ensures
        call_requires(Reader::<C>::on_purge, (reader, tuple)),
        call_ensures(Reader::<C>::new, (), fresh) ==> fresh.wf() && forall|t: AddrTuple|
            !(#[trigger] fresh.cache@.contains_key(t)),
        call_ensures(Reader::<C>::on_purge, (reader, tuple), ()) ==> {
            let had = old(reader).cache@;
            let has = final(reader).cache@;
            &&& final(reader).wf()
            &&& forall|t: AddrTuple| #[trigger]
                has.contains_key(t) <==> had.contains_key(t) && t != *tuple
            &&& forall|t: AddrTuple| #[trigger] has.contains_key(t) ==> has[t] == had[t]
        },
{
}

/// Whether the connections of `after` are those of `before` but for the one at `tuple`, and all else
/// of the stack is what it was.
pub open spec fn differ_at<T, C>(before: Stack<T, C>, after: Stack<T, C>, tuple: AddrTuple) -> bool {
    &&& after.wf()
    &&& forall|t: AddrTuple|
        t != tuple ==> (#[trigger] after.tuples@.contains_key(t) <==> before.tuples@.contains_key(
            t,
        ))
    &&& forall|t: AddrTuple|
        t != tuple && #[trigger] before.tuples@.contains_key(t) ==> after.tuples@[t]
            == before.tuples@[t]
    &&& after.listening@ == before.listening@
    &&& after.tun@ == before.tun@
    &&& after.keepalive == before.keepalive
    &&& after.local_ip == before.local_ip
    &&& after.local_ip6 == before.local_ip6
}

/// A connection that is registered is in the table, and one that is removed is not. No other
/// connection is touched, and removing tells whether there was one.
pub proof fn law_register_and_remove<T, C>(
    stack: &mut Stack<T, C>,
    tuple: AddrTuple,
    incoming: Arc<C>,
    removed: bool,
)
    requires
        old(stack).wf(),
    ensures
        !old(stack).tuples@.contains_key(tuple) ==> call_requires(
            Stack::<T, C>::register,
            (stack, tuple, incoming),
        ),
        call_requires(Stack::<T, C>::remove_tuple, (stack, &tuple)),
        call_ensures(Stack::<T, C>::register, (stack, tuple, incoming), ()) ==> {
            &&& differ_at(*old(stack), *final(stack), tuple)
            &&& final(stack).tuples@.contains_key(tuple)
            &&& final(stack).tuples@[tuple] == incoming
        },
        call_ensures(Stack::<T, C>::remove_tuple, (stack, &tuple), removed) ==> {
            &&& differ_at(*old(stack), *final(stack), tuple)
            &&& !final(stack).tuples@.contains_key(tuple)
            &&& removed <==> old(stack).tuples@.contains_key(tuple)
        },
{
}

/// Closing a connection closes its health and takes it out of the table, and nothing else.
pub proof fn law_close<T, C>(
    sock: &Socket,
    health: &mut SocketHealth,
    stack: &mut Stack<T, C>,
    tuple: AddrTuple,
)
    requires
        old(stack).wf(),
    ensures
        call_requires(Socket::close::<T, C>, (sock, health, stack)),
        call_ensures(Socket::close::<T, C>, (sock, health, stack), tuple) ==> {
            &&& tuple.local_addr == sock.local_addr && tuple.remote_addr == sock.remote_addr
            &&& final(health).closed
            &&& final(health).last_rx_ms == old(health).last_rx_ms
            &&& differ_at(*old(stack), *final(stack), tuple)
            &&& !final(stack).tuples@.contains_key(tuple)
        },
{
}

/// Dropping a socket closes its health and takes it out of the table. The other end is sent a bare
/// `RST` with the next number exactly if the connection was in the table and not closed.
pub proof fn law_release<T, C>(
    sock: &Socket,
    health: &mut SocketHealth,
    stack: &mut Stack<T, C>,
    packet: Option<Vec<u8>>,
    tuple: AddrTuple,
)
    requires
        one_family(*sock),
        not_overdue(*sock),
        old(stack).wf(),
        tuple.local_addr == sock.local_addr,
        tuple.remote_addr == sock.remote_addr,
    ensures
        call_requires(Socket::release::<T, C>, (sock, health, stack)),
        call_ensures(Socket::release::<T, C>, (sock, health, stack), packet) ==> {
            &&& final(health).closed
            &&& final(health).last_rx_ms == old(health).last_rx_ms
            &&& differ_at(*old(stack), *final(stack), tuple)
            &&& !final(stack).tuples@.contains_key(tuple)
            &&& packet is Some <==> !old(health).closed && old(stack).tuples@.contains_key(tuple)
            &&& packet is Some ==> says(
                packet->0@,
                sock.local_addr,
                sock.remote_addr,
                sock.seq,
                0,
                RST,
                Seq::empty(),
            )
        },
{
    law_farewell_is_due(*sock, *health, stack.tuples@.contains_key(tuple));
}

/// Listening on a port that is not listened on adds that port and no other, and changes nothing
/// else.
pub proof fn law_listen<T, C>(stack: &mut Stack<T, C>, port: u16, same: &Stack<T, C>, yes: bool)
    ensures
        !old(stack).listening@.contains(port) ==> call_requires(
            Stack::<T, C>::listen,
            (stack, port),
        ),
        call_requires(Stack::<T, C>::is_listening, (same, port)),
        call_ensures(Stack::<T, C>::is_listening, (same, port), yes) ==> (yes
            <==> same.listening@.contains(port)),
        call_ensures(Stack::<T, C>::listen, (stack, port), ()) ==> {
            &&& forall|p: u16| #[trigger]
                final(stack).listening@.contains(p) <==> old(stack).listening@.contains(p) || p
                    == port
            &&& old(stack).wf() ==> final(stack).wf()
            &&& final(stack).tuples == old(stack).tuples
            &&& final(stack).tun == old(stack).tun
            &&& final(stack).keepalive == old(stack).keepalive
            &&& final(stack).local_ip == old(stack).local_ip
            &&& final(stack).local_ip6 == old(stack).local_ip6
        },
{
}

/// Resets go out on the first queue, where there is one.
pub proof fn law_reset_queue<T, C>(stack: &Stack<T, C>, queue: Option<Arc<T>>)
    ensures
        call_requires(Stack::<T, C>::reset_queue, (stack,)),
        call_ensures(Stack::<T, C>::reset_queue, (stack,), queue) ==> {
            &&& queue is Some <==> stack.tun@.len() > 0
            &&& queue is Some ==> queue->0 == stack.tun@[0]
        },
{
}

/// A stack begins without connections and listens on no port. It has the queues that it is given, in
/// their order, and the addresses and the keepalive that it is given, or the default one.
pub proof fn law_new_stack<T, C>(
    tun: Vec<T>,
    local_ip: Ipv4Addr,
    local_ip6: Option<Ipv6Addr>,
    keepalive: KeepaliveConfig,
    plain: Stack<T, C>,
    tuned: Stack<T, C>,
)
    ensures
        call_requires(Stack::<T, C>::new, (tun, local_ip, local_ip6)),
        call_requires(
            Stack::<T, C>::new_with_keepalive,
            (tun, local_ip, local_ip6, keepalive),
        ),
        call_ensures(Stack::<T, C>::new, (tun, local_ip, local_ip6), plain) ==> {
            &&& begins(plain, tun@, local_ip, local_ip6)
            &&& plain.keepalive.interval.secs == 15 && plain.keepalive.interval.nanos == 0
            &&& plain.keepalive.max_missed == 3
        },
        call_ensures(
            Stack::<T, C>::new_with_keepalive,
            (tun, local_ip, local_ip6, keepalive),
            tuned,
        ) ==> begins(tuned, tun@, local_ip, local_ip6) && tuned.keepalive == keepalive,
{
}

/// Whether a stack stands as it begins, on these queues and addresses.
pub open spec fn begins<T, C>(
    stack: Stack<T, C>,
    tun: Seq<T>,
    local_ip: Ipv4Addr,
    local_ip6: Option<Ipv6Addr>,
) -> bool {
    &&& stack.wf()
    &&& forall|t: AddrTuple| !(#[trigger] stack.tuples@.contains_key(t))
    &&& forall|p: u16| !(#[trigger] stack.listening@.contains(p))
    &&& stack.tun@.len() == tun.len()
    &&& forall|i: int| 0 <= i < tun.len() ==> *(#[trigger] stack.tun@[i]) == tun[i]
    &&& stack.local_ip == local_ip
    &&& stack.local_ip6 == local_ip6
}

/// Whether the table has no connection to `addr` from `port` at the address that this host has in
/// the family of `addr`.
pub open spec fn free<T, C>(stack: Stack<T, C>, port: u16, addr: SocketAddr) -> bool {
    !stack.tuples@.contains_key(from_port(stack, port, addr))
}

/// The ends of a connection to `addr` from `port`.
pub open spec fn from_port<T, C>(stack: Stack<T, C>, port: u16, addr: SocketAddr) -> AddrTuple {
    AddrTuple {
        local_addr: SocketAddr {
            ip: if addr.ip is V4 {
                IpAddr::V4(stack.local_ip)
            } else {
                IpAddr::V6(stack.local_ip6->0)
            },
            port,
            flowinfo: 0,
            scope_id: 0,
        },
        remote_addr: addr,
    }
}

/// Whether `sock` is an idle socket that has sent nothing, at these ends.
pub open spec fn begun_at(sock: Socket, tuple: AddrTuple) -> bool {
    &&& sock.local_addr == tuple.local_addr && sock.remote_addr == tuple.remote_addr
    &&& sock.seq == 0 && sock.ack == 0 && sock.last_ack == 0
    &&& sock.state is Idle
}

/// The search for a port from `start` on takes the first that is free up to 60999, and registers the
/// connection there. It fails only if there is none, and then changes nothing.
pub proof fn law_connect_from<T, C>(
    stack: &mut Stack<T, C>,
    addr: SocketAddr,
    start: u16,
    incoming: Arc<C>,
    sock: Option<Socket>,
)
    requires
        old(stack).wf(),
        addr.ip is V4 || old(stack).local_ip6 is Some,
    ensures
        call_requires(Stack::<T, C>::connect_from, (stack, addr, start, incoming)),
        call_ensures(Stack::<T, C>::connect_from, (stack, addr, start, incoming), sock) ==> {
            &&& sock is Some <==> exists|p: u16|
                start <= p <= 60999 && #[trigger] free(*old(stack), p, addr)
            &&& sock is None ==> {
                &&& final(stack).tuples@ == old(stack).tuples@
                &&& final(stack).same_but_tuples(old(stack))
            }
            &&& sock matches Some(sock) ==> {
                let port = sock.local_addr.port;
                let tuple = from_port(*old(stack), port, addr);
                &&& start <= port <= 60999
                &&& free(*old(stack), port, addr)
                &&& forall|p: u16| start <= p < port ==> !(#[trigger] free(*old(stack), p, addr))
                &&& begun_at(sock, tuple)
                &&& differ_at(*old(stack), *final(stack), tuple)
                &&& final(stack).tuples@.contains_key(tuple)
                &&& final(stack).tuples@[tuple] == incoming
            }
        },
{
    assert forall|p: u16| #[trigger] free(*stack, p, addr) == !stack.in_use(p, addr) by {
        assert(stack.tuple_from(p, addr) == from_port(*stack, p, addr));
    }
    if call_ensures(Stack::<T, C>::connect_from, (stack, addr, start, incoming), sock) {
        match sock {
            Some(sock) => {
                let port = sock.local_addr.port;
                assert(free(*stack, port, addr));
                assert forall|p: u16| start <= p < port implies !(#[trigger] free(
                    *stack,
                    p,
                    addr,
                )) by {
                    assert(stack.in_use(p, addr));
                }
            },
            None => {
                assert forall|p: u16| start <= p <= 60999 implies !(#[trigger] free(
                    *stack,
                    p,
                    addr,
                )) by {
                    assert(stack.in_use(p, addr));
                }
            },
        }
    }
}

/// A free port is found exactly if one of 32768 to 60999 is free.
pub proof fn law_has_free_port<T, C>(stack: &Stack<T, C>, addr: SocketAddr, yes: bool)
    requires
        stack.wf(),
        addr.ip is V4 || stack.local_ip6 is Some,
    ensures
        call_requires(Stack::<T, C>::has_free_port, (stack, addr)),
        call_ensures(Stack::<T, C>::has_free_port, (stack, addr), yes) ==> (yes <==> exists|p: u16|
            32768 <= p <= 60999 && #[trigger] free(*stack, p, addr)),
{
    assert forall|p: u16| #[trigger] free(*stack, p, addr) == !stack.in_use(p, addr) by {
        assert(stack.tuple_from(p, addr) == from_port(*stack, p, addr));
    }
    if call_ensures(Stack::<T, C>::has_free_port, (stack, addr), yes) {
        if yes {
            let p = choose|p: u16| 32768 <= p <= 60999 && !(#[trigger] stack.in_use(p, addr));
            assert(free(*stack, p, addr));
        } else {
            assert forall|p: u16| 32768 <= p <= 60999 implies !(#[trigger] free(
                *stack,
                p,
                addr,
            )) by {
                assert(stack.in_use(p, addr));
            }
        }
    }
}

/// A connection that is made has a port of 32768 to 60999 that was free and one of the queues, and
/// is registered. None is made only if the last port is taken, and then nothing changes.
pub proof fn law_connect<T, C>(
    stack: &mut Stack<T, C>,
    rng: &mut SmallRng,
    addr: SocketAddr,
    incoming: Arc<C>,
    made: Option<(Socket, Arc<T>)>,
)
    requires
        old(stack).wf(),
        addr.ip is V4 || old(stack).local_ip6 is Some,
        old(stack).tun@.len() > 0 || forall|p: u16|
            32768 <= p <= 60999 ==> !(#[trigger] free(*old(stack), p, addr)),
    ensures
        call_requires(Stack::<T, C>::connect, (stack, rng, addr, incoming)),
        call_ensures(Stack::<T, C>::connect, (stack, rng, addr, incoming), made) ==> {
            &&& made is None ==> {
                &&& !free(*old(stack), 60999, addr)
                &&& final(stack).tuples@ == old(stack).tuples@
                &&& final(stack).same_but_tuples(old(stack))
            }
            &&& made matches Some((sock, tun)) ==> {
                let port = sock.local_addr.port;
                let tuple = from_port(*old(stack), port, addr);
                &&& 32768 <= port <= 60999
                &&& free(*old(stack), port, addr)
                &&& begun_at(sock, tuple)
                &&& old(stack).tun@.contains(tun)
                &&& differ_at(*old(stack), *final(stack), tuple)
                &&& final(stack).tuples@.contains_key(tuple)
                &&& final(stack).tuples@[tuple] == incoming
            }
        },
{
    assert forall|p: u16| #[trigger] free(*stack, p, addr) == !stack.in_use(p, addr) by {
        assert(stack.tuple_from(p, addr) == from_port(*stack, p, addr));
    }
    assert(free(*stack, 60999, addr) == !stack.in_use(60999, addr));
    if stack.tun@.len() == 0 {
        assert forall|p: u16| 32768 <= p <= 60999 implies #[trigger] stack.in_use(p, addr) by {
            assert(!free(*stack, p, addr));
        }
    }
}

/// Whatever is read from a packet is what the packet says, and only a packet that says nothing is
/// not read.
pub proof fn law_parse(buf: &[u8], segment: Option<Segment>)
    ensures
        call_requires(parse_ip_packet, (buf,)),
        call_ensures(parse_ip_packet, (buf,), segment) ==> {
            &&& segment is Some <==> parsed(buf@) is Some
            &&& segment matches Some(s) ==> {
                &&& says(
                    buf@,
                    s.source,
                    s.destination,
                    s.sequence,
                    s.acknowledgement,
                    s.flags,
                    s.payload@,
                )
                &&& s.source.flowinfo == 0 && s.source.scope_id == 0
                &&& s.destination.flowinfo == 0 && s.destination.scope_id == 0
            }
        },
{
    law_reads_nothing_else(buf@);
    if buf@[0] / 16 == 4 {
        law_reads_ipv4(buf@);
    } else if buf@[0] / 16 == 6 {
        law_reads_ipv6(buf@);
    }
}

/// A packet that is built says what it is asked to say. It can be built between addresses of one
/// family, if it is not too long for its IP header.
pub proof fn law_build(
    local_addr: SocketAddr,
    remote_addr: SocketAddr,
    seq: u32,
    ack: u32,
    flags: u8,
    payload: Option<&[u8]>,
    packet: Vec<u8>,
)
    requires
        local_addr.ip is V4 <==> remote_addr.ip is V4,
        payload is Some ==> payload->0@.len() + (if local_addr.ip is V4 {
            20int
        } else {
            0
        }) + (if flags & SYN != 0 {
            4int
        } else {
            0
        }) <= 65515,
    ensures
        call_requires(build_tcp_packet, (local_addr, remote_addr, seq, ack, flags, payload)),
        call_ensures(
            build_tcp_packet,
            (local_addr, remote_addr, seq, ack, flags, payload),
            packet,
        ) ==> says(
            packet@,
            local_addr,
            remote_addr,
            seq,
            ack,
            flags,
            match payload {
                Some(payload) => payload@,
                None => Seq::empty(),
            },
        ),
{
    let bytes = match payload {
        Some(payload) => payload@,
        None => Seq::empty(),
    };
    law_room_for_payload(local_addr.ip, flags, bytes.len());
    law_parse_inverts_build(local_addr, remote_addr, seq, ack, flags, bytes);
}

/// A payload of `n` bytes fits exactly if a packet with it can be built.
pub proof fn law_fit(ip: IpAddr, flags: u8, n: usize, yes: bool)
    ensures
        call_requires(payload_fits, (ip, flags, n)),
        call_ensures(payload_fits, (ip, flags, n), yes) ==> (yes <==> n + (if ip is V4 {
            20int
        } else {
            0
        }) + (if flags & SYN != 0 {
            4int
        } else {
            0
        }) <= 65515),
{
    law_room_for_payload(ip, flags, n as nat);
}

/// What is found in a table after a connection was entered or removed: that connection, or none, at
/// those endpoints, and at any others what was found before. Entering and removing hand out what
/// was found there before.
pub proof fn law_table<C>(
    empty: ConnTable<C>,
    table: &mut ConnTable<C>,
    tuple: AddrTuple,
    conn: Arc<C>,
    other: AddrTuple,
    before: &ConnTable<C>,
    after: &ConnTable<C>,
    had: Option<&Arc<C>>,
    has: Option<&Arc<C>>,
    known: bool,
    out: Option<Arc<C>>,
)
    requires
        old(table).wf(),
        *before == *old(table),
        *after == *final(table),
        call_ensures(ConnTable::<C>::get, (before, &other), had),
        call_ensures(ConnTable::<C>::get, (after, &other), has),
        call_ensures(ConnTable::<C>::contains_key, (after, &other), known),
    ensures
        call_requires(ConnTable::<C>::get, (before, &other)),
        call_requires(ConnTable::<C>::contains_key, (before, &other)),
        call_requires(ConnTable::<C>::insert, (table, tuple, conn)),
        call_requires(ConnTable::<C>::remove, (table, &tuple)),
        known <==> has is Some,
        call_ensures(ConnTable::<C>::new, (), empty) ==> empty.wf()
            && !empty@.contains_key(other),
        call_ensures(ConnTable::<C>::insert, (table, tuple, conn), out) ==> {
            &&& final(table).wf()
            &&& other == tuple ==> has is Some && *has->0 == conn
            &&& other != tuple ==> (has is Some <==> had is Some)
            &&& other != tuple && had is Some ==> *has->0 == *had->0
            &&& other == tuple ==> (out is Some <==> had is Some)
            &&& other == tuple && had is Some ==> out->0 == *had->0
        },
        call_ensures(ConnTable::<C>::remove, (table, &tuple), out) ==> {
            &&& final(table).wf()
            &&& other == tuple ==> has is None
            &&& other != tuple ==> (has is Some <==> had is Some)
            &&& other != tuple && had is Some ==> *has->0 == *had->0
            &&& other == tuple ==> (out is Some <==> had is Some)
            &&& other == tuple && had is Some ==> out->0 == *had->0
        },
{
}

/// Endpoints and addresses are made of what is given.
pub proof fn law_addresses(
    a: u8,
    b: u8,
    c: u8,
    d: u8,
    ipv4: Ipv4Addr,
    ip: IpAddr,
    port: u16,
    local_addr: SocketAddr,
    remote_addr: SocketAddr,
    tuple: AddrTuple,
    yes: bool,
)
    ensures
        call_ensures(Ipv4Addr::new, (a, b, c, d), ipv4) ==> {
            &&& ipv4.bits / 0x100_0000 == a
            &&& ipv4.bits / 0x1_0000 % 0x100 == b
            &&& ipv4.bits / 0x100 % 0x100 == c
            &&& ipv4.bits % 0x100 == d
        },
        call_ensures(SocketAddr::new, (ip, port), local_addr) ==> {
            &&& local_addr.ip == ip && local_addr.port == port
            &&& local_addr.flowinfo == 0 && local_addr.scope_id == 0
        },
        call_ensures(SocketAddr::is_ipv4, (&remote_addr,), yes) ==> (yes
            <==> remote_addr.ip is V4),
        call_ensures(AddrTuple::new, (local_addr, remote_addr), tuple) ==> {
            &&& tuple.local_addr == local_addr
            &&& tuple.remote_addr == remote_addr
        },
{
}

/// The clock counts the milliseconds that have passed entirely, in 64 bits, and a number advances by as many
/// places as it is told to, round the circle.
pub proof fn law_counting(span: Duration, ms: u64, a: u32, n: usize, b: u32)
    ensures
        call_requires(now_ms, (span,)),
        call_requires(advance, (a, n)),
        call_ensures(now_ms, (span,), ms) ==> ms == (span.secs * 1_000_000_000 + span.nanos)
            / 1_000_000 % 0x1_0000_0000_0000_0000,
        call_ensures(advance, (a, n), b) ==> (b - a - n) % 0x1_0000_0000 == 0,
{
}

/// Spans of time are made of what is given.
pub proof fn law_spans(secs: u64, zero: Duration, span: Duration, yes: bool)
    ensures
        call_ensures(Duration::zero, (), zero) ==> zero.secs == 0 && zero.nanos == 0,
        call_ensures(Duration::from_secs, (secs,), span) ==> span.secs == secs && span.nanos == 0,
        call_ensures(Duration::is_zero, (&span,), yes) ==> (yes <==> span.secs == 0 && span.nanos
            == 0),
{
}

/// A connection is called by both of its ends, the local one first.
pub proof fn law_label(local_addr: &str, remote_addr: &str, label: String)
    ensures
        call_requires(connection_label, (local_addr, remote_addr)),
        call_ensures(connection_label, (local_addr, remote_addr), label) ==> label@
            == "(Fake TCP connection from "@ + local_addr@ + " to "@ + remote_addr@ + ")"@,
{
}

} // verus!
