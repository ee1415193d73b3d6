//! One connection: its numbers, what it sends, and what it makes of what it receives.

use vstd::prelude::*;
use vstd::string::StringExecFns;

use crate::addr::{same_family, AddrTuple, SocketAddr};
use crate::packet::{
    build_tcp_packet, fits, law_flags, law_parse_inverts_build, law_room_for_payload,
    parse_ip_packet, parsed, payload_bytes, says, tcp_packet, SegmentView, ACK, RST,
};

verus! {

/// How many packets may wait to be received on one connection.
pub const MPMC_BUFFER_LEN: usize = 512;

/// How much data may be received before it is acknowledged: 128 MB.
pub const MAX_UNACKED_LEN: u32 = 128 * 1024 * 1024;

/// The phase of a connection.
#[derive(Clone, Copy, Debug, PartialEq, Eq, Structural)]
pub enum State {
    Idle,
    SynSent,
    SynReceived,
    Established,
}

/// What is known of the life of a connection, shared by its socket, the reader that feeds it and
/// its keepalive task.
#[derive(Clone, Copy, Debug, PartialEq, Eq, Structural)]
pub struct SocketHealth {
    /// When something was last received, on the clock of the stack.
    pub last_rx_ms: u64,
    /// Whether the connection is over.
    pub closed: bool,
}

/// A connection between a server and a client.
#[derive(Debug, PartialEq, Eq, Structural)]
pub struct Socket {
    pub local_addr: SocketAddr,
    pub remote_addr: SocketAddr,
    /// The number of the next byte to send.
    pub seq: u32,
    /// The number of the next byte expected from the other end.
    pub ack: u32,
    /// The last number that was acknowledged to the other end.
    pub last_ack: u32,
    pub state: State,
}

/// What came of a packet.
#[derive(Debug)]
pub enum Received {
    /// The other end reset the connection. It is closed, and these endpoints are to leave the
    /// table.
    Reset(AddrTuple),
    /// There was no datagram in the packet. The answer, if there is one, is to be sent back.
    Nothing(Option<Vec<u8>>),
    /// A datagram of this many bytes. The answer, if there is one, is to be sent back.
    Datagram(usize, Option<Vec<u8>>),
}

/// What comes of a segment: what `Received` says, with the datagram itself.
#[verifier::ext_equal]
pub enum Reception {
    Reset(AddrTuple),
    Nothing(Option<Seq<u8>>),
    Datagram(Seq<u8>, Option<Seq<u8>>),
}

/// The bytes of an answer, if there is one.
pub open spec fn answer_bytes(answer: Option<Vec<u8>>) -> Option<Seq<u8>> {
    match answer {
        Some(answer) => Some(answer@),
        None => None,
    }
}

/// Whether `received`, with the datagram in `buf`, says that `reception` took place.
pub open spec fn reports(received: Received, buf: Seq<u8>, reception: Reception) -> bool {
    match received {
        Received::Reset(tuple) => reception == Reception::Reset(tuple),
        Received::Nothing(answer) => reception == Reception::Nothing(answer_bytes(answer)),
        Received::Datagram(size, answer) => size <= buf.len() && reception == Reception::Datagram(
            buf.take(size as int),
            answer_bytes(answer),
        ),
    }
}

/// The sequence number `n` places after `a`, on the circle of 32-bit numbers.
pub open spec fn seq_add(a: u32, n: nat) -> u32 {
    ((a + n) % 0x1_0000_0000) as u32
}

/// How far the sequence number `a` is ahead of `b`, on the circle of 32-bit numbers.
pub open spec fn seq_sub(a: u32, b: u32) -> u32 {
    ((a - b) % 0x1_0000_0000) as u32
}

/// The sequence number `n` places after `a`.
pub fn advance(a: u32, n: usize) -> (b: u32)
    ensures
        b == seq_add(a, n as nat),
{
    let n: u64 = n as u64;
    assert(n as u32 as u64 == n % 0x1_0000_0000u64) by (bit_vector);
    #[verifier::truncate]
    let low: u32 = n as u32;
    a.wrapping_add(low)
}

/// How a connection is called in messages, given how its two ends are called.
pub fn connection_label(local_addr: &str, remote_addr: &str) -> (label: String)
    ensures
        label@ == "(Fake TCP connection from "@ + local_addr@ + " to "@ + remote_addr@ + ")"@,
{
    let mut label = "(Fake TCP connection from ".to_owned();
    label.append(local_addr);
    label.append(" to ");
    label.append(remote_addr);
    label.append(")");
    label
}

/// Copies `data` over the front of `buf`.
fn copy_to_front(buf: &mut [u8], data: &Vec<u8>)
    requires
        data@.len() <= old(buf)@.len(),
    ensures
        final(buf)@ == data@ + old(buf)@.skip(data@.len() as int),
{
    let ghost before = buf@;
    let mut i: usize = 0;
    while i < data.len()
        invariant
            i <= data@.len() <= before.len(),
            buf@ =~= data@.take(i as int) + before.skip(i as int),
        decreases data@.len() - i,
    {
        buf[i] = data[i];
        i += 1;
    }
    assert(data@.take(i as int) =~= data@);
}

impl SocketHealth {
    /// The health of a connection after a reception at `now_ms`.
    pub open spec fn after(self, reception: Reception, now_ms: u64) -> SocketHealth {
        if reception is Reset {
            SocketHealth { closed: true, ..self }
        } else {
            SocketHealth { last_rx_ms: now_ms, ..self }
        }
    }

    /// The health of a connection that begins now.
    pub fn new(now_ms: u64) -> (health: SocketHealth)
        ensures
            health == (SocketHealth { last_rx_ms: now_ms, closed: false }),
    {
        SocketHealth { last_rx_ms: now_ms, closed: false }
    }

    /// Notes that a packet came in.
    pub fn touch(&mut self, now_ms: u64)
        ensures
            *final(self) == (SocketHealth { last_rx_ms: now_ms, ..*old(self) }),
    {
        self.last_rx_ms = now_ms;
    }
}

impl Socket {
    /// Both ends are of one address family, and at most `MAX_UNACKED_LEN` bytes wait for an
    /// acknowledgement.
    pub open spec fn wf(self) -> bool {
        &&& same_family(self.local_addr.ip, self.remote_addr.ip)
        &&& seq_sub(self.ack, self.last_ack) <= MAX_UNACKED_LEN
    }

    /// What identifies the connection.
    pub open spec fn endpoints(self) -> AddrTuple {
        AddrTuple { local_addr: self.local_addr, remote_addr: self.remote_addr }
    }

    /// A socket before its first packet.
    pub open spec fn fresh(
        local_addr: SocketAddr,
        remote_addr: SocketAddr,
        ack: u32,
        state: State,
    ) -> Socket {
        Socket { local_addr, remote_addr, seq: 0, ack, last_ack: ack, state }
    }

    /// The packet that the socket sends with these flags and this payload.
    pub open spec fn packet(self, flags: u8, payload: Seq<u8>) -> Seq<u8> {
        tcp_packet(self.local_addr, self.remote_addr, self.seq, self.ack, flags, payload)
    }

    /// The packet that asks the other end for a sign of life: it repeats the number before the
    /// next one and carries nothing.
    pub open spec fn probe(self) -> Seq<u8> {
        tcp_packet(
            self.local_addr,
            self.remote_addr,
            seq_sub(self.seq, 1),
            self.ack,
            ACK,
            Seq::empty(),
        )
    }

    /// The socket once all that it received is acknowledged.
    pub open spec fn acked(self) -> Socket {
        Socket { last_ack: self.ack, ..self }
    }

    /// The socket once it has sent a datagram of `n` bytes.
    pub open spec fn sent(self, n: nat) -> Socket {
        Socket { seq: seq_add(self.seq, n), ..self.acked() }
    }

    /// The packet that a datagram goes out in, unless the connection is closed.
    pub open spec fn sends(self, health: SocketHealth, payload: Seq<u8>) -> Option<Seq<u8>> {
        if health.closed {
            None
        } else {
            Some(self.packet(ACK, payload))
        }
    }

    /// A socket for a connection that begins. `ack` is the number that the other end is to
    /// continue with, where that is known.
    pub fn new(
        local_addr: SocketAddr,
        remote_addr: SocketAddr,
        ack: Option<u32>,
        state: State,
    ) -> (sock: Socket)
        ensures
            sock == Socket::fresh(
                local_addr,
                remote_addr,
                match ack {
                    Some(ack) => ack,
                    None => 0,
                },
                state,
            ),
            same_family(local_addr.ip, remote_addr.ip) ==> sock.wf(),
    {
        let ack: u32 = ack.unwrap_or(0);
        Socket { local_addr, remote_addr, seq: 0, ack, last_ack: ack, state }
    }

    /// What identifies the connection.
    pub fn tuple(&self) -> (tuple: AddrTuple)
        ensures
            tuple == self.endpoints(),
    {
        AddrTuple::new(self.local_addr, self.remote_addr)
    }

    /// Builds the next packet to send, which acknowledges all that was received.
    pub fn build_tcp_packet(&mut self, flags: u8, payload: Option<&[u8]>) -> (packet: Vec<u8>)
        requires
            same_family(old(self).local_addr.ip, old(self).remote_addr.ip),
            fits(old(self).local_addr.ip, flags, payload_bytes(payload).len()),
        ensures
            final(self).wf(),
            *final(self) == old(self).acked(),
            packet@ == old(self).packet(flags, payload_bytes(payload)),
    {
        self.last_ack = self.ack;
        build_tcp_packet(self.local_addr, self.remote_addr, self.seq, self.ack, flags, payload)
    }

    /// Sends a datagram to the other end: the packet to hand to the Tun interface.
    ///
    /// `None` means that the connection is closed.
    pub fn send(&mut self, health: &SocketHealth, payload: &[u8]) -> (packet: Option<Vec<u8>>)
        requires
            old(self).wf(),
            old(self).state is Established,
            !health.closed ==> fits(old(self).local_addr.ip, ACK, payload@.len()),
        ensures
            final(self).wf(),
            answer_bytes(packet) == old(self).sends(*health, payload@),
            *final(self) == if health.closed {
                *old(self)
            } else {
                old(self).sent(payload@.len())
            },
    {
        if health.closed {
            return None;
        }
        let packet = self.build_tcp_packet(ACK, Some(payload));
        self.seq = advance(self.seq, payload.len());
        Some(packet)
    }

    /// What the socket makes of a segment.
    ///
    /// A reset ends the connection. A segment without payload is answered only where it asks for a
    /// sign of life. Any other segment delivers its payload, in whatever order it comes, and is
    /// answered only where too much has gone unacknowledged.
    pub open spec fn receive(self, segment: SegmentView) -> (Socket, Reception) {
        if segment.flags & RST != 0 {
            (self, Reception::Reset(self.endpoints()))
        } else if segment.payload.len() == 0 {
            if segment.flags == ACK && segment.sequence == seq_sub(self.ack, 1) {
                (self.acked(), Reception::Nothing(Some(self.packet(ACK, Seq::empty()))))
            } else {
                (self, Reception::Nothing(None))
            }
        } else {
            let next = Socket {
                ack: seq_add(segment.sequence, segment.payload.len()),
                ..self
            };
            if seq_sub(next.ack, self.last_ack) > MAX_UNACKED_LEN {
                (
                    next.acked(),
                    Reception::Datagram(segment.payload, Some(next.packet(ACK, Seq::empty()))),
                )
            } else {
                (next, Reception::Datagram(segment.payload, None))
            }
        }
    }

    /// Takes in a packet that came for this connection. A datagram ends up at the front of `buf`,
    /// which must have room for it.
    pub fn recv(
        &mut self,
        health: &mut SocketHealth,
        raw_buf: &[u8],
        now_ms: u64,
        buf: &mut [u8],
    ) -> (received: Received)
        requires
            old(self).wf(),
            old(self).state is Established,
            parsed(raw_buf@) is Some,
            parsed(raw_buf@)->0.flags & RST == 0 ==> parsed(raw_buf@)->0.payload.len()
                <= old(buf)@.len(),
        ensures
            final(self).wf(),
            ({
                let segment = parsed(raw_buf@)->0;
                let (next, reception) = old(self).receive(segment);
                &&& *final(self) == next
                &&& reports(received, final(buf)@, reception)
                &&& final(buf)@ == if reception is Datagram {
                    segment.payload + old(buf)@.skip(segment.payload.len() as int)
                } else {
                    old(buf)@
                }
                &&& *final(health) == old(health).after(reception, now_ms)
            }),
    {
        let segment = parse_ip_packet(raw_buf).unwrap();
        if segment.flags & RST != 0 {
            return Received::Reset(self.mark_closed(health));
        }
        health.touch(now_ms);
        let size: usize = segment.payload.len();
        if size == 0 {
            if segment.flags == ACK && segment.sequence == self.ack.wrapping_sub(1) {
                return Received::Nothing(Some(self.send_ack()));
            }
            return Received::Nothing(None);
        }
        self.ack = advance(segment.sequence, size);
        let answer = if self.ack.wrapping_sub(self.last_ack) > MAX_UNACKED_LEN {
            Some(self.send_ack())
        } else {
            None
        };
        copy_to_front(buf, &segment.payload);
        assert(buf@.take(size as int) =~= segment.payload@);
        Received::Datagram(size, answer)
    }

    /// Acknowledges all that was received: the packet to send.
    pub fn send_ack(&mut self) -> (packet: Vec<u8>)
        requires
            same_family(old(self).local_addr.ip, old(self).remote_addr.ip),
        ensures
            final(self).wf(),
            *final(self) == old(self).acked(),
            packet@ == old(self).packet(ACK, Seq::empty()),
    {
        self.build_tcp_packet(ACK, None)
    }

    /// The packet that asks the other end for a sign of life.
    pub fn send_keepalive_probe(&self) -> (packet: Vec<u8>)
        requires
            self.wf(),
        ensures
            packet@ == self.probe(),
    {
        build_tcp_packet(
            self.local_addr,
            self.remote_addr,
            self.seq.wrapping_sub(1),
            self.ack,
            ACK,
            None,
        )
    }

    /// Declares the connection over. The endpoints that are returned are to leave the table, see
    /// [`Socket::close`].
    pub fn mark_closed(&self, health: &mut SocketHealth) -> (tuple: AddrTuple)
        ensures
            *final(health) == (SocketHealth { closed: true, ..*old(health) }),
            tuple == self.endpoints(),
    {
        health.closed = true;
        self.tuple()
    }
}

/// Numbers go round: the one behind the last is zero, steps add up, and the distance of two numbers
/// is how many steps lead from one to the other.
pub proof fn law_numbers_go_round(a: u32, b: u32, m: nat, n: nat)
    ensures
        seq_add(a, 0) == a,
        seq_add(a, 1) == if a == u32::MAX {
            0
        } else {
            a + 1
        },
        seq_add(seq_add(a, m), n) == seq_add(a, m + n),
        seq_add(b, seq_sub(a, b) as nat) == a,
        n <= u32::MAX ==> seq_sub(seq_add(a, n), a) == n,
{
}

/// A socket that begins has sent nothing, owes no acknowledgement, and is known by its endpoints.
pub proof fn law_socket_begins(
    local_addr: SocketAddr,
    remote_addr: SocketAddr,
    ack: u32,
    state: State,
)
    ensures
        ({
            let sock = Socket::fresh(local_addr, remote_addr, ack, state);
            &&& sock.local_addr == local_addr && sock.remote_addr == remote_addr
            &&& sock.seq == 0
            &&& sock.ack == ack && sock.last_ack == ack
            &&& sock.state == state
            &&& sock.endpoints().local_addr == local_addr
            &&& sock.endpoints().remote_addr == remote_addr
            &&& (local_addr.ip is V4 <==> remote_addr.ip is V4) ==> sock.wf()
        }),
{
}

/// A socket may be used exactly if its ends are of one family and no more than 128 MB that it
/// received wait for an acknowledgement.
pub proof fn law_usable_sockets(sock: Socket)
    ensures
        sock.wf() <==> (sock.local_addr.ip is V4 <==> sock.remote_addr.ip is V4) && seq_sub(
            sock.ack,
            sock.last_ack,
        ) <= 134_217_728,
        sock.endpoints().local_addr == sock.local_addr,
        sock.endpoints().remote_addr == sock.remote_addr,
{
}

/// A datagram goes out in one packet, whole, with the numbers of the socket, exactly if the
/// connection is not closed.
pub proof fn law_datagram_goes_out_whole(sock: Socket, health: SocketHealth, payload: Seq<u8>)
    requires
        sock.local_addr.ip is V4 <==> sock.remote_addr.ip is V4,
        fits(sock.local_addr.ip, ACK, payload.len()),
    ensures
        sock.sends(health, payload) is Some <==> !health.closed,
        !health.closed ==> says(
            sock.sends(health, payload)->0,
            sock.local_addr,
            sock.remote_addr,
            sock.seq,
            sock.ack,
            ACK,
            payload,
        ),
{
    law_parse_inverts_build(
        sock.local_addr,
        sock.remote_addr,
        sock.seq,
        sock.ack,
        ACK,
        payload,
    );
}

/// A datagram that went out counts with its whole length: the next one is numbered from behind it.
/// All that was received is acknowledged with it, and nothing else changes.
pub proof fn law_datagrams_are_numbered(
    sock: Socket,
    health: SocketHealth,
    first: Seq<u8>,
    second: Seq<u8>,
)
    requires
        !health.closed,
        sock.local_addr.ip is V4 <==> sock.remote_addr.ip is V4,
        fits(sock.local_addr.ip, ACK, first.len()),
        fits(sock.local_addr.ip, ACK, second.len()),
    ensures
        ({
            let next = sock.sent(first.len());
            let one = parsed(sock.sends(health, first)->0)->0;
            let two = parsed(next.sends(health, second)->0)->0;
            &&& seq_sub(two.sequence, one.sequence) == first.len()
            &&& two.acknowledgement == one.acknowledgement
            &&& next.ack == sock.ack
            &&& next.last_ack == one.acknowledgement
            &&& next.seq == two.sequence
            &&& next.local_addr == sock.local_addr && next.remote_addr == sock.remote_addr
            &&& next.state == sock.state
        }),
{
    law_datagram_goes_out_whole(sock, health, first);
    law_datagram_goes_out_whole(sock.sent(first.len()), health, second);
    law_numbers_go_round(sock.seq, 0, 0, first.len());
}

/// The socket after sending any number of bytes.
pub proof fn law_sending_moves_on(sock: Socket, n: nat)
    ensures
        sock.sent(n).seq == seq_add(sock.seq, n),
        sock.sent(n).ack == sock.ack,
        sock.sent(n).last_ack == sock.ack,
        sock.sent(n).local_addr == sock.local_addr,
        sock.sent(n).remote_addr == sock.remote_addr,
        sock.sent(n).state == sock.state,
        sock.acked() == sock.sent(0),
{
}

/// A segment with `RST`, whatever else it says, ends the connection between the endpoints of the
/// socket and changes none of its numbers. No other segment ends it.
pub proof fn law_reset_ends_connection(sock: Socket, segment: SegmentView)
    ensures
        sock.receive(segment).1 is Reset <==> segment.flags & RST != 0,
        segment.flags & RST != 0 ==> {
            &&& sock.receive(segment).0 == sock
            &&& sock.receive(segment).1->Reset_0.local_addr == sock.local_addr
            &&& sock.receive(segment).1->Reset_0.remote_addr == sock.remote_addr
        },
{
}

/// A segment without payload delivers nothing. It is answered exactly if it is a bare `ACK` that
/// repeats the number before the one that is expected, and the answer tells the number that is.
pub proof fn law_sign_of_life(sock: Socket, segment: SegmentView)
    requires
        sock.local_addr.ip is V4 <==> sock.remote_addr.ip is V4,
        segment.flags & RST == 0,
        segment.payload.len() == 0,
    ensures
        ({
            let (next, reception) = sock.receive(segment);
            let asked = segment.flags == ACK && seq_add(segment.sequence, 1) == sock.ack;
            &&& reception is Nothing
            &&& reception->Nothing_0 is Some <==> asked
            &&& asked ==> says(
                reception->Nothing_0->0,
                sock.local_addr,
                sock.remote_addr,
                sock.seq,
                sock.ack,
                ACK,
                Seq::empty(),
            )
            &&& asked ==> next == Socket { last_ack: sock.ack, ..sock }
            &&& !asked ==> next == sock
        }),
{
    law_flags();
    law_room_for_payload(sock.local_addr.ip, ACK, 0);
    law_parse_inverts_build(
        sock.local_addr,
        sock.remote_addr,
        sock.seq,
        sock.ack,
        ACK,
        Seq::empty(),
    );
}

/// A segment with payload delivers it, whole and at once, whatever its number and its other flags,
/// and the number behind it is the one expected next. Only if more than 128 MB have come since the
/// last acknowledgement is it answered, with an `ACK` of all that came.
pub proof fn law_datagram_is_delivered(sock: Socket, segment: SegmentView)
    requires
        sock.local_addr.ip is V4 <==> sock.remote_addr.ip is V4,
        segment.flags & RST == 0,
        segment.payload.len() > 0,
    ensures
        ({
            let (next, reception) = sock.receive(segment);
            let answer = reception->Datagram_1;
            &&& reception is Datagram
            &&& reception->Datagram_0 == segment.payload
            &&& next.ack == seq_add(segment.sequence, segment.payload.len())
            &&& next.seq == sock.seq
            &&& next.local_addr == sock.local_addr && next.remote_addr == sock.remote_addr
            &&& next.state == sock.state
            &&& answer is Some <==> seq_sub(next.ack, sock.last_ack) > 134_217_728
            &&& answer is Some ==> next.last_ack == next.ack && says(
                answer->0,
                sock.local_addr,
                sock.remote_addr,
                sock.seq,
                next.ack,
                ACK,
                Seq::empty(),
            )
            &&& answer is None ==> next.last_ack == sock.last_ack
        }),
{
    law_flags();
    law_room_for_payload(sock.local_addr.ip, ACK, 0);
    law_parse_inverts_build(
        sock.local_addr,
        sock.remote_addr,
        sock.seq,
        seq_add(segment.sequence, segment.payload.len()),
        ACK,
        Seq::empty(),
    );
}

/// A reset closes the connection, and does not count as a sign of life. Anything else that is
/// received counts, at the time it is received, and closes nothing.
pub proof fn law_reception_is_noted(
    sock: Socket,
    health: SocketHealth,
    segment: SegmentView,
    now_ms: u64,
)
    ensures
        ({
            let after = health.after(sock.receive(segment).1, now_ms);
            if segment.flags & RST != 0 {
                after.closed && after.last_rx_ms == health.last_rx_ms
            } else {
                after.closed == health.closed && after.last_rx_ms == now_ms
            }
        }),
{
}

/// A probe is a bare `ACK` between the ends of the connection. It repeats the number before the
/// next one and acknowledges what was received.
pub proof fn law_probe_repeats_last_number(sock: Socket)
    requires
        sock.local_addr.ip is V4 <==> sock.remote_addr.ip is V4,
    ensures
        says(
            sock.probe(),
            sock.local_addr,
            sock.remote_addr,
            parsed(sock.probe())->0.sequence,
            sock.ack,
            ACK,
            Seq::empty(),
        ),
        seq_add(parsed(sock.probe())->0.sequence, 1) == sock.seq,
{
    law_flags();
    law_room_for_payload(sock.local_addr.ip, ACK, 0);
    law_parse_inverts_build(
        sock.local_addr,
        sock.remote_addr,
        seq_sub(sock.seq, 1),
        sock.ack,
        ACK,
        Seq::empty(),
    );
}

/// What `recv` returns tells what took place: the endpoints of a reset, or the length of a datagram
/// that stands at the front of the buffer, and the whole answer where there is one.
pub proof fn law_reports_tell_all(received: Received, buf: Seq<u8>, reception: Reception)
    requires
        reports(received, buf, reception),
    ensures
        match received {
            Received::Reset(tuple) => reception is Reset && reception->Reset_0 == tuple,
            Received::Nothing(answer) => {
                &&& reception is Nothing
                &&& reception->Nothing_0 is Some <==> answer is Some
                &&& answer is Some ==> reception->Nothing_0->0 == answer->0@
            },
            Received::Datagram(size, answer) => {
                &&& reception is Datagram
                &&& size <= buf.len()
                &&& reception->Datagram_0 == buf.take(size as int)
                &&& reception->Datagram_1 is Some <==> answer is Some
                &&& answer is Some ==> reception->Datagram_1->0 == answer->0@
            },
        },
{
}

/// The bytes of an answer are all of its bytes.
pub proof fn law_answers_are_whole(answer: Option<Vec<u8>>)
    ensures
        answer_bytes(answer) is Some <==> answer is Some,
        answer is Some ==> answer_bytes(answer)->0 == answer->0@,
{
}

} // verus!
