//! What holds of the stack as a whole, between the two ends of a connection.

use std::sync::Arc;
use vstd::prelude::*;

use crate::addr::{same_family, AddrTuple, SocketAddr};
use crate::handshake::{law_client_opens, EventView, Turn, RETRIES, TIMEOUT_SECS};
use crate::keepalive::{Keepalive, WatchView};
use crate::packet::{
    fits, law_parse_inverts_build, parsed, SegmentView, ACK, MAX_PACKET_LEN, RST, RST_ACK, SYN,
    SYN_ACK,
};
use crate::reader::{
    cached, dispatched, law_what_is_reset, reset_answer, stray, tuple_of, DispatchView,
};
use crate::socket::{
    law_datagram_goes_out_whole, seq_sub, Reception, Socket, SocketHealth, State,
    MAX_UNACKED_LEN, MPMC_BUFFER_LEN,
};
use crate::stack::{law_farewell_is_due, MPSC_BUFFER_LEN};

verus! {

/// Whether two sockets are the two ends of one connection.
pub open spec fn opposite(a: Socket, b: Socket) -> bool {
    a.local_addr == b.remote_addr && a.remote_addr == b.local_addr
}

/// Whether `b` expects the number that `a` sends next.
pub open spec fn follows(b: Socket, a: Socket) -> bool {
    b.ack == a.seq
}

/// Which flags count as a reset.
proof fn lemma_flags()
    ensures
        SYN & RST == 0,
        ACK & RST == 0,
        SYN_ACK & RST == 0,
        RST & RST != 0,
        RST_ACK & RST != 0,
{
    assert(2u8 & 4u8 == 0) by (bit_vector);
    assert(16u8 & 4u8 == 0) by (bit_vector);
    assert(18u8 & 4u8 == 0) by (bit_vector);
    assert(4u8 & 4u8 != 0) by (bit_vector);
    assert(20u8 & 4u8 != 0) by (bit_vector);
}

/// A datagram that is sent arrives as it was sent, whatever the receiver has received or missed
/// before. Once it has arrived, the receiver expects the number that the sender continues with, and
/// what the sender expects of the receiver is what it was.
pub proof fn law_datagram_arrives(a: Socket, b: Socket, payload: Seq<u8>)
    requires
        a.wf(),
        payload.len() > 0,
        fits(a.local_addr.ip, ACK, payload.len()),
    ensures
        ({
            let segment = parsed(a.packet(ACK, payload))->0;
            let (next, reception) = b.receive(segment);
            &&& parsed(a.packet(ACK, payload)) is Some
            &&& reception is Datagram
            &&& reception->Datagram_0 == payload
            &&& follows(next, a.sent(payload.len()))
            &&& follows(a, b) ==> follows(a.sent(payload.len()), next)
        }),
{
    lemma_flags();
    law_parse_inverts_build(a.local_addr, a.remote_addr, a.seq, a.ack, ACK, payload);
}

/// A packet that one end builds is handed to the connection of the other end, if that is
/// registered, packets say all there is to say of its endpoints, and the reader's cache has nothing
/// else under them.
pub proof fn law_packet_finds_its_connection<C>(
    a: Socket,
    b: Socket,
    flags: u8,
    payload: Seq<u8>,
    cache: Map<AddrTuple, Arc<C>>,
    tuples: Map<AddrTuple, Arc<C>>,
    listening: Set<u16>,
)
    requires
        a.wf(),
        opposite(a, b),
        b.local_addr.is_plain(),
        b.remote_addr.is_plain(),
        fits(a.local_addr.ip, flags, payload.len()),
        tuples.contains_key(b.endpoints()),
        coherent(cache, tuples, Set::empty()),
    ensures
        dispatched(cache, tuples, listening, a.packet(flags, payload)) == DispatchView::Deliver(
            tuples[b.endpoints()],
        ),
{
    law_parse_inverts_build(a.local_addr, a.remote_addr, a.seq, a.ack, flags, payload);
}

/// The handshake: the opening segment of a client opens a connection on a stack that listens on
/// its port, the server's answer establishes the client, and the client's acknowledgement
/// establishes the server. Each end then expects the number that the other sends next. The two are
/// the ends of one connection, where packets say all there is to say of its endpoints.
pub proof fn law_handshake_establishes<C>(
    client: SocketAddr,
    server: SocketAddr,
    listening: Set<u16>,
    client_turns: nat,
    server_turns: nat,
)
    requires
        same_family(client.ip, server.ip),
        listening.contains(server.port),
    ensures
        ({
            let idle = Socket::fresh(client, server, 0, State::Idle);
            let syn = idle.connect_turn(0, EventView::Ready);
            let opened = stray::<C>(listening, parsed(syn.action->Transmit_0)->0)->Open_0;
            let syn_ack = opened.accept_turn(0, EventView::Ready);
            let connected = syn.socket.connect_turn(
                client_turns,
                EventView::Received(parsed(syn_ack.action->Transmit_0)->0),
            );
            let ack = connected.action->Established_0->0;
            let accepted = syn_ack.socket.accept_turn(
                server_turns,
                EventView::Received(parsed(ack)->0),
            );
            &&& syn.action is Transmit
            &&& parsed(syn.action->Transmit_0) is Some
            &&& stray::<C>(listening, parsed(syn.action->Transmit_0)->0) is Open
            &&& syn_ack.action is Transmit
            &&& parsed(syn_ack.action->Transmit_0) is Some
            &&& connected.action is Established
            &&& connected.action->Established_0 is Some
            &&& parsed(ack) is Some
            &&& accepted.action is Established
            &&& connected.socket.state is Established
            &&& accepted.socket.state is Established
            &&& client.is_plain() && server.is_plain() ==> opposite(
                connected.socket,
                accepted.socket,
            )
            &&& follows(accepted.socket, connected.socket)
            &&& follows(connected.socket, accepted.socket)
        }),
{
    lemma_flags();
    let idle = Socket::fresh(client, server, 0, State::Idle);
    let syn = idle.connect_turn(0, EventView::Ready);
    law_parse_inverts_build(client, server, 0, 0, SYN, Seq::empty());
    let opened = stray::<C>(listening, parsed(syn.action->Transmit_0)->0)->Open_0;
    law_parse_inverts_build(server.on_wire(), client.on_wire(), 0, 1, SYN_ACK, Seq::empty());
    law_parse_inverts_build(client, server, 1, 1, ACK, Seq::empty());
}

/// A probe from an end that the other keeps up with is answered, and the answer is not answered in
/// turn by an end that keeps up as well.
pub proof fn law_probe_is_answered_once(a: Socket, b: Socket)
    requires
        a.wf(),
        b.wf(),
        follows(b, a),
        follows(a, b),
    ensures
        ({
            let (next, reception) = b.receive(parsed(a.probe())->0);
            let answer = reception->Nothing_0->0;
            &&& parsed(a.probe()) is Some
            &&& reception is Nothing
            &&& reception->Nothing_0 is Some
            &&& answer == b.packet(ACK, Seq::empty())
            &&& next == b.acked()
            &&& parsed(answer) is Some
            &&& a.receive(parsed(answer)->0) == (a, Reception::Nothing(None))
        }),
{
    lemma_flags();
    law_parse_inverts_build(
        a.local_addr,
        a.remote_addr,
        seq_sub(a.seq, 1),
        a.ack,
        ACK,
        Seq::empty(),
    );
    law_parse_inverts_build(b.local_addr, b.remote_addr, b.seq, b.ack, ACK, Seq::empty());
}

/// The farewell of a socket resets the connection at the other end, and is ignored where there is
/// no such connection.
pub proof fn law_farewell_resets<C>(a: Socket, b: Socket, listening: Set<u16>)
    requires
        a.wf(),
    ensures
        parsed(a.farewell()) is Some,
        b.receive(parsed(a.farewell())->0) == (b, Reception::Reset(b.endpoints())),
        stray::<C>(listening, parsed(a.farewell())->0) == DispatchView::<C>::Ignore,
{
    lemma_flags();
    law_parse_inverts_build(a.local_addr, a.remote_addr, a.seq, 0, RST, Seq::empty());
}

/// A reset that answers a stray segment ends whatever it meets: a connection, the handshake of a
/// client or of a server. Where it meets nothing it is ignored, so resets do not breed resets.
pub proof fn law_reset_is_final<C>(
    segment: SegmentView,
    seq: u32,
    ack: u32,
    b: Socket,
    turns: nat,
    listening: Set<u16>,
)
    requires
        same_family(segment.source.ip, segment.destination.ip),
    ensures
        ({
            let answer = parsed(reset_answer(segment, seq, ack));
            &&& answer is Some
            &&& b.receive(answer->0) == (b, Reception::Reset(b.endpoints()))
            &&& b.connect_turn(turns, EventView::Received(answer->0)).action is Refused
            &&& b.accept_turn(turns, EventView::Received(answer->0)).action is Refused
            &&& stray::<C>(listening, answer->0) == DispatchView::<C>::Ignore
        }),
{
    lemma_flags();
    law_parse_inverts_build(
        segment.destination,
        segment.source,
        seq,
        ack,
        RST_ACK,
        Seq::empty(),
    );
}

/// Once the other end has reset a connection, nothing more is sent on it: no datagram, and no
/// farewell when its socket goes away.
pub proof fn law_reset_silences(
    sock: Socket,
    health: SocketHealth,
    segment: SegmentView,
    now_ms: u64,
    payload: Seq<u8>,
    registered: bool,
)
    requires
        segment.flags & RST != 0,
    ensures
        ({
            let after = health.after(sock.receive(segment).1, now_ms);
            &&& after.closed
            &&& sock.sends(after, payload) is None
            &&& sock.leaves(after, registered) is None
        }),
{
}

/// Once a connection that was reset, or was found dead, has left the table and the reader's cache,
/// a packet for it is dealt with as one that belongs to no connection. It is never delivered, and
/// anything but a reset or a new opening segment is answered with a reset.
pub proof fn law_ended_connection_is_stray<C>(
    sock: Socket,
    reset: SegmentView,
    watch: Keepalive,
    max_missed: usize,
    health: SocketHealth,
    ended: AddrTuple,
    cache: Map<AddrTuple, Arc<C>>,
    tuples: Map<AddrTuple, Arc<C>>,
    listening: Set<u16>,
    buf: Seq<u8>,
)
    requires
        sock.receive(reset).1 == Reception::Reset(ended) || watch.look(max_missed, health, sock).1
            == WatchView::Dead(ended),
        parsed(buf) is Some,
        tuple_of(parsed(buf)->0) == sock.endpoints(),
    ensures
        ({
            let segment = parsed(buf)->0;
            let dispatch = dispatched(
                cache.remove(ended),
                tuples.remove(ended),
                listening,
                buf,
            );
            &&& dispatch == stray::<C>(listening, segment)
            &&& !(dispatch is Deliver)
            &&& segment.flags & RST == 0 && segment.flags != SYN ==> dispatch is Reset
        }),
{
}

/// A handshake that goes on has used one more of its turns, and there are no more than `RETRIES`.
pub proof fn law_handshake_is_bounded(sock: Socket, turns: nat, event: EventView)
    ensures
        ({
            let turn = sock.connect_turn(turns, event);
            turn.action is Transmit || turn.action is Await ==> turn.turns == turns + 1
                && turn.turns <= RETRIES
        }),
        ({
            let turn = sock.accept_turn(turns, event);
            turn.action is Transmit || turn.action is Await ==> turn.turns == turns + 1
                && turn.turns <= RETRIES
        }),
{
}

/// How many packets a client sends to a server that never answers.
pub open spec fn unanswered_connects(sock: Socket, turns: nat, event: EventView) -> nat
    decreases RETRIES + 1 - turns,
{
    let turn = sock.connect_turn(turns, event);
    if turn.turns <= turns {
        0
    } else if turn.action is Transmit {
        1 + unanswered_connects(turn.socket, turn.turns, EventView::Ready)
    } else {
        unanswered_connects(turn.socket, turn.turns, EventView::TimedOut)
    }
}

/// How many packets a server sends to a client that never answers.
pub open spec fn unanswered_accepts(sock: Socket, turns: nat, event: EventView) -> nat
    decreases RETRIES + 1 - turns,
{
    let turn = sock.accept_turn(turns, event);
    if turn.turns <= turns {
        0
    } else if turn.action is Transmit {
        1 + unanswered_accepts(turn.socket, turn.turns, EventView::Ready)
    } else {
        unanswered_accepts(turn.socket, turn.turns, EventView::TimedOut)
    }
}

/// Against silence, either end sends its opening segment three times and gives up.
pub proof fn law_silence_ends_handshake(sock: Socket)
    requires
        sock.state is Idle,
    ensures
        unanswered_connects(sock, 0, EventView::Ready) == 3,
        unanswered_accepts(sock, 0, EventView::Ready) == 3,
{
    reveal_with_fuel(unanswered_connects, 8);
    reveal_with_fuel(unanswered_accepts, 8);
}

/// Whether a reader may trust its cache: whatever it holds is what the table holds, but for
/// connections that left the table and that the reader is still to be told of.
pub open spec fn coherent<C>(
    cache: Map<AddrTuple, Arc<C>>,
    tuples: Map<AddrTuple, Arc<C>>,
    untold: Set<AddrTuple>,
) -> bool {
    forall|t: AddrTuple| #[trigger]
        cache.contains_key(t) ==> untold.contains(t) || (tuples.contains_key(t) && tuples[t]
            == cache[t])
}

/// A reader begins with a cache that it may trust, and may trust it after every packet, when a
/// connection enters the table, when one leaves it, and when it is told so.
pub proof fn law_cache_stays_coherent<C>(
    cache: Map<AddrTuple, Arc<C>>,
    tuples: Map<AddrTuple, Arc<C>>,
    untold: Set<AddrTuple>,
    buf: Seq<u8>,
    tuple: AddrTuple,
    conn: Arc<C>,
)
    requires
        coherent(cache, tuples, untold),
    ensures
        coherent(Map::<AddrTuple, Arc<C>>::empty(), tuples, Set::empty()),
        coherent(cached(cache, tuples, buf), tuples, untold),
        !tuples.contains_key(tuple) ==> coherent(cache, tuples.insert(tuple, conn), untold),
        coherent(cache, tuples.remove(tuple), untold.insert(tuple)),
        coherent(cache.remove(tuple), tuples, untold.remove(tuple)),
{
}

/// A reader that has been told of everything deals with a packet as if it had no cache.
pub proof fn law_cache_is_invisible<C>(
    cache: Map<AddrTuple, Arc<C>>,
    tuples: Map<AddrTuple, Arc<C>>,
    listening: Set<u16>,
    buf: Seq<u8>,
)
    requires
        coherent(cache, tuples, Set::empty()),
    ensures
        dispatched(cache, tuples, listening, buf) == dispatched(
            Map::empty(),
            tuples,
            listening,
            buf,
        ),
{
}

/// Whatever a connection goes through, its ends stay of one family and no more than
/// `MAX_UNACKED_LEN` bytes wait for an acknowledgement.
pub proof fn law_sockets_stay_well_formed(
    sock: Socket,
    n: nat,
    segment: SegmentView,
    turns: nat,
    event: EventView,
)
    requires
        sock.wf(),
    ensures
        sock.sent(n).wf(),
        sock.receive(segment).0.wf(),
        sock.connect_turn(turns, event).socket.wf(),
        sock.accept_turn(turns, event).socket.wf(),
{
}

/// Anything but a reset that is received at a later time than the watch has noted keeps the
/// connection alive at the next look, whatever was missed before.
pub proof fn law_reception_keeps_alive(
    watch: Keepalive,
    max_missed: usize,
    health: SocketHealth,
    sock: Socket,
    segment: SegmentView,
    now_ms: u64,
)
    requires
        !health.closed,
        segment.flags & RST == 0,
        now_ms != watch.last_seen,
    ensures
        ({
            let (next, reception) = sock.receive(segment);
            watch.look(max_missed, health.after(reception, now_ms), next) == (
                Keepalive { last_seen: now_ms, missed: 0 },
                WatchView::Alive,
            )
        }),
{
}

/// Giving up a connection undoes its registration: the table is as it was before.
pub proof fn law_release_undoes_registration<C>(
    tuples: Map<AddrTuple, Arc<C>>,
    sock: Socket,
    conn: Arc<C>,
)
    requires
        !tuples.contains_key(sock.endpoints()),
    ensures
        tuples.insert(sock.endpoints(), conn).remove(sock.endpoints()) == tuples,
{
    assert(tuples.insert(sock.endpoints(), conn).remove(sock.endpoints()) =~= tuples);
}

/// What one end hands out for a datagram on an open connection delivers that datagram, all of it, at
/// the other end, which then expects the number that the sender continues with.
pub proof fn law_sent_datagram_arrives(
    a: Socket,
    health: SocketHealth,
    b: Socket,
    payload: Seq<u8>,
)
    requires
        !health.closed,
        a.local_addr.ip is V4 <==> a.remote_addr.ip is V4,
        payload.len() > 0,
        fits(a.local_addr.ip, ACK, payload.len()),
    ensures
        ({
            let packet = a.sends(health, payload);
            let (next, reception) = b.receive(parsed(packet->0)->0);
            &&& packet is Some
            &&& parsed(packet->0) is Some
            &&& reception is Datagram
            &&& reception->Datagram_0 == payload
            &&& next.ack == a.sent(payload.len()).seq
            &&& next.seq == b.seq
        }),
{
    lemma_flags();
    law_datagram_goes_out_whole(a, health, payload);
}

/// Dropping a socket whose connection is registered and not closed resets the other end, whatever
/// the numbers of either. Dropping any other sends nothing.
pub proof fn law_release_resets_other_end(
    a: Socket,
    health: SocketHealth,
    registered: bool,
    b: Socket,
)
    requires
        a.local_addr.ip is V4 <==> a.remote_addr.ip is V4,
    ensures
        health.closed || !registered ==> a.leaves(health, registered) is None,
        !health.closed && registered ==> {
            let packet = a.leaves(health, registered);
            &&& packet is Some
            &&& parsed(packet->0) is Some
            &&& b.receive(parsed(packet->0)->0).1 is Reset
        },
{
    lemma_flags();
    law_farewell_is_due(a, health, registered);
}

/// The opening segment of a client for a port that is not listened on is answered with a reset, and
/// the answer refuses the connection at once.
pub proof fn law_closed_port_refuses<C>(
    client: SocketAddr,
    server: SocketAddr,
    listening: Set<u16>,
    turns: nat,
)
    requires
        client.ip is V4 <==> server.ip is V4,
        !listening.contains(server.port),
    ensures
        ({
            let idle = Socket::fresh(client, server, 0, State::Idle);
            let syn = idle.connect_turn(0, EventView::Ready);
            let answer = stray::<C>(listening, parsed(syn.action->Transmit_0)->0);
            let segment = parsed(answer->Reset_0)->0;
            &&& syn.action is Transmit
            &&& parsed(syn.action->Transmit_0) is Some
            &&& answer is Reset
            &&& parsed(answer->Reset_0) is Some
            &&& segment.source.ip == server.ip && segment.source.port == server.port
            &&& segment.destination.ip == client.ip && segment.destination.port == client.port
            &&& syn.socket.connect_turn(turns, EventView::Received(segment)).action is Refused
        }),
{
    lemma_flags();
    let idle = Socket::fresh(client, server, 0, State::Idle);
    let syn = idle.connect_turn(0, EventView::Ready);
    law_client_opens(idle, 0, EventView::Ready);
    law_what_is_reset::<C>(listening, parsed(syn.action->Transmit_0)->0);
}

/// A client that transmitted, waited in vain, and transmitted again, `losses` times over.
pub open spec fn client_after_losses(idle: Socket, losses: nat) -> Turn
    decreases losses,
{
    if losses == 0 {
        idle.connect_turn(0, EventView::Ready)
    } else {
        let sent = client_after_losses(idle, (losses - 1) as nat);
        let waited = sent.socket.connect_turn(sent.turns, EventView::Ready);
        waited.socket.connect_turn(waited.turns, EventView::TimedOut)
    }
}

/// A server that transmitted, waited in vain, and transmitted again, `losses` times over.
pub open spec fn server_after_losses(idle: Socket, losses: nat) -> Turn
    decreases losses,
{
    if losses == 0 {
        idle.accept_turn(0, EventView::Ready)
    } else {
        let sent = server_after_losses(idle, (losses - 1) as nat);
        let waited = sent.socket.accept_turn(sent.turns, EventView::Ready);
        waited.socket.accept_turn(waited.turns, EventView::TimedOut)
    }
}

/// Up to two losses in a row are made good: what either end transmits after them, and how it stands,
/// is as if nothing had been lost.
pub proof fn law_losses_leave_no_trace(idle: Socket, losses: nat)
    requires
        idle.state is Idle,
        losses <= 2,
    ensures
        ({
            let first = client_after_losses(idle, 0);
            let last = client_after_losses(idle, losses);
            &&& last.action is Transmit
            &&& last.action->Transmit_0 == first.action->Transmit_0
            &&& last.socket == first.socket
            &&& last.turns == 2 * losses + 1
        }),
        ({
            let first = server_after_losses(idle, 0);
            let last = server_after_losses(idle, losses);
            &&& last.action is Transmit
            &&& last.action->Transmit_0 == first.action->Transmit_0
            &&& last.socket == first.socket
            &&& last.turns == 2 * losses + 1
        }),
    decreases losses,
{
    reveal_with_fuel(client_after_losses, 2);
    reveal_with_fuel(server_after_losses, 2);
    if losses > 0 {
        law_losses_leave_no_trace(idle, (losses - 1) as nat);
    }
}

/// The handshake comes to its end though either end was heard only after up to two losses: the
/// `SYN` that arrives opens the connection, the `SYN + ACK` that arrives establishes the client, and
/// the acknowledgement establishes the server. Each end then expects what the other sends next.
pub proof fn law_handshake_survives_losses<C>(
    client: SocketAddr,
    server: SocketAddr,
    listening: Set<u16>,
    client_losses: nat,
    server_losses: nat,
    client_turns: nat,
    server_turns: nat,
)
    requires
        client.ip is V4 <==> server.ip is V4,
        listening.contains(server.port),
        client_losses <= 2,
        server_losses <= 2,
    ensures
        ({
            let idle = Socket::fresh(client, server, 0, State::Idle);
            let syn = client_after_losses(idle, client_losses);
            let opening = stray::<C>(listening, parsed(syn.action->Transmit_0)->0);
            let syn_ack = server_after_losses(opening->Open_0, server_losses);
            let connected = syn.socket.connect_turn(
                client_turns,
                EventView::Received(parsed(syn_ack.action->Transmit_0)->0),
            );
            let ack = connected.action->Established_0->0;
            let accepted = syn_ack.socket.accept_turn(
                server_turns,
                EventView::Received(parsed(ack)->0),
            );
            &&& syn.action is Transmit
            &&& parsed(syn.action->Transmit_0) is Some
            &&& opening is Open
            &&& syn_ack.action is Transmit
            &&& parsed(syn_ack.action->Transmit_0) is Some
            &&& connected.action is Established
            &&& connected.action->Established_0 is Some
            &&& parsed(ack) is Some
            &&& accepted.action is Established
            &&& connected.socket.seq == 1 && connected.socket.ack == 1
            &&& accepted.socket.seq == 1 && accepted.socket.ack == 1
        }),
{
    let idle = Socket::fresh(client, server, 0, State::Idle);
    law_handshake_establishes::<C>(client, server, listening, client_turns, server_turns);
    law_losses_leave_no_trace(idle, client_losses);
    let syn = client_after_losses(idle, client_losses);
    law_parse_inverts_build(client, server, 0, 0, SYN, Seq::empty());
    let opened = stray::<C>(listening, parsed(syn.action->Transmit_0)->0)->Open_0;
    law_losses_leave_no_trace(opened, server_losses);
    law_parse_inverts_build(server.on_wire(), client.on_wire(), 0, 1, SYN_ACK, Seq::empty());
}

/// The limits of the stack: six turns of up to a second for a handshake, 512 packets that wait on a
/// connection, 128 connections that wait to be taken over, 128 MB without an acknowledgement, and
/// packets of 1500 bytes.
pub proof fn law_limits()
    ensures
        RETRIES == 6,
        TIMEOUT_SECS == 1,
        MPMC_BUFFER_LEN == 512,
        MPSC_BUFFER_LEN == 128,
        MAX_UNACKED_LEN == 134_217_728,
        MAX_PACKET_LEN == 1500,
{
}

} // verus!
