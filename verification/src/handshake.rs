//! Opening a connection, from either end.

use vstd::prelude::*;

use crate::packet::{
    law_flags, law_parse_inverts_build, law_room_for_payload, parse_ip_packet, parsed, says,
    SegmentView, ACK, RST, SYN, SYN_ACK,
};
use crate::socket::{advance, law_numbers_go_round, seq_add, seq_sub, Socket, State};

verus! {

/// How many turns a handshake may take. A transmission is a turn, and so is a wait.
pub const RETRIES: usize = 6;

/// How long a handshake waits for the other end, in seconds.
pub const TIMEOUT_SECS: u64 = 1;

/// What happened since the last turn of a handshake.
pub enum Event<'a> {
    /// The handshake begins, or the packet of the last turn went out.
    Ready,
    /// Nothing came within the time to wait.
    TimedOut,
    /// This packet came.
    Received(&'a [u8]),
}

/// What is to be done next in a handshake.
#[derive(Debug)]
pub enum Action {
    /// Send this packet.
    Transmit(Vec<u8>),
    /// Wait for a packet.
    Await,
    /// The connection stands. The packet, if there is one, is to be sent to the other end.
    Established(Option<Vec<u8>>),
    /// The other end refused.
    Refused,
    /// All turns are used up.
    Exhausted,
}

/// What an `Action` says.
#[verifier::ext_equal]
pub enum ActionView {
    Transmit(Seq<u8>),
    Await,
    Established(Option<Seq<u8>>),
    Refused,
    Exhausted,
}

impl View for Action {
    type V = ActionView;

    open spec fn view(&self) -> ActionView {
        match *self {
            Action::Transmit(packet) => ActionView::Transmit(packet@),
            Action::Await => ActionView::Await,
            Action::Established(packet) => ActionView::Established(
                crate::socket::answer_bytes(packet),
            ),
            Action::Refused => ActionView::Refused,
            Action::Exhausted => ActionView::Exhausted,
        }
    }
}

/// What happened since the last turn, with a packet as what it says.
pub enum EventView {
    Ready,
    TimedOut,
    Received(SegmentView),
}

impl View for Event<'_> {
    type V = EventView;

    open spec fn view(&self) -> EventView {
        match *self {
            Event::Ready => EventView::Ready,
            Event::TimedOut => EventView::TimedOut,
            Event::Received(raw_buf) => EventView::Received(parsed(raw_buf@)->0),
        }
    }
}

/// A socket after a turn of its handshake, the turns taken so far, and what is to be done.
pub struct Turn {
    pub socket: Socket,
    pub turns: nat,
    pub action: ActionView,
}

/// Whether an event can come to a handshake in this state: only one that waits can be kept waiting
/// or be sent something, and what it is sent is a TCP segment.
pub open spec fn can_happen(event: Event, state: State) -> bool {
    match event {
        Event::Ready => true,
        Event::TimedOut => !(state is Idle),
        Event::Received(raw_buf) => !(state is Idle) && parsed(raw_buf@) is Some,
    }
}

impl Socket {
    /// The socket in another state.
    pub open spec fn with_state(self, state: State) -> Socket {
        Socket { state, ..self }
    }

    /// One more turn: an idle socket sends its opening segment with `flags` and goes on to
    /// `waiting`, another one waits.
    pub open spec fn next_turn(self, turns: nat, flags: u8, waiting: State) -> Turn {
        if turns >= RETRIES {
            Turn { socket: self, turns, action: ActionView::Exhausted }
        } else if self.state is Idle {
            Turn {
                socket: self.acked().with_state(waiting),
                turns: turns + 1,
                action: ActionView::Transmit(self.packet(flags, Seq::empty())),
            }
        } else {
            Turn { socket: self, turns: turns + 1, action: ActionView::Await }
        }
    }

    /// The client once the server has answered its opening segment.
    pub open spec fn connected(self, segment: SegmentView) -> Socket {
        Socket {
            seq: seq_add(self.seq, 1),
            ack: seq_add(segment.sequence, 1),
            last_ack: seq_add(segment.sequence, 1),
            state: State::Established,
            ..self
        }
    }

    /// The server once the client has acknowledged its answer.
    pub open spec fn accepted(self) -> Socket {
        Socket { seq: seq_add(self.seq, 1), state: State::Established, ..self }
    }

    /// The client's handshake. It repeats its `SYN` after each wait in vain, takes a `RST` for a
    /// refusal, and completes the handshake when its `SYN` is acknowledged by a `SYN + ACK`.
    pub open spec fn connect_turn(self, turns: nat, event: EventView) -> Turn {
        match event {
            EventView::Ready => self.next_turn(turns, SYN, State::SynSent),
            EventView::TimedOut => self.with_state(State::Idle).next_turn(
                turns,
                SYN,
                State::SynSent,
            ),
            EventView::Received(segment) => {
                if segment.flags & RST != 0 {
                    Turn { socket: self, turns, action: ActionView::Refused }
                } else if segment.flags == SYN_ACK && segment.acknowledgement == seq_add(
                    self.seq,
                    1,
                ) {
                    Turn {
                        socket: self.connected(segment),
                        turns,
                        action: ActionView::Established(
                            Some(self.connected(segment).packet(ACK, Seq::empty())),
                        ),
                    }
                } else {
                    self.next_turn(turns, SYN, State::SynSent)
                }
            },
        }
    }

    /// The server's handshake. It repeats its `SYN + ACK` after each wait in vain, takes a `RST`
    /// for a refusal, and ends when its `SYN + ACK` is acknowledged.
    pub open spec fn accept_turn(self, turns: nat, event: EventView) -> Turn {
        match event {
            EventView::Ready => self.next_turn(turns, SYN_ACK, State::SynReceived),
            EventView::TimedOut => self.with_state(State::Idle).next_turn(
                turns,
                SYN_ACK,
                State::SynReceived,
            ),
            EventView::Received(segment) => {
                if segment.flags & RST != 0 {
                    Turn { socket: self, turns, action: ActionView::Refused }
                } else if segment.flags == ACK && segment.acknowledgement == seq_add(self.seq, 1) {
                    Turn {
                        socket: self.accepted(),
                        turns,
                        action: ActionView::Established(None),
                    }
                } else {
                    self.next_turn(turns, SYN_ACK, State::SynReceived)
                }
            },
        }
    }

    /// One more turn, as far as turns are left.
    fn take_turn(&mut self, turns: &mut usize, flags: u8, waiting: State) -> (action: Action)
        requires
            old(self).wf(),
        ensures
            final(self).wf(),
            ({
                let turn = old(self).next_turn(*old(turns) as nat, flags, waiting);
                *final(self) == turn.socket && *final(turns) == turn.turns && action@
                    == turn.action
            }),
    {
        if *turns >= RETRIES {
            return Action::Exhausted;
        }
        *turns = *turns + 1;
        match self.state {
            State::Idle => {
                let packet = self.build_tcp_packet(flags, None);
                self.state = waiting;
                Action::Transmit(packet)
            },
            _ => Action::Await,
        }
    }

    /// Takes the next turn of the client's handshake. `turns` counts from zero.
    pub fn connect(&mut self, turns: &mut usize, event: Event) -> (action: Action)
        requires
            old(self).wf(),
            old(self).state is Idle || old(self).state is SynSent,
            can_happen(event, old(self).state),
        ensures
            final(self).wf(),
            ({
                let turn = old(self).connect_turn(*old(turns) as nat, event@);
                *final(self) == turn.socket && *final(turns) == turn.turns && action@
                    == turn.action
            }),
    {
        match event {
            Event::Ready => {},
            Event::TimedOut => {
                self.state = State::Idle;
            },
            Event::Received(raw_buf) => {
                let segment = parse_ip_packet(raw_buf).unwrap();
                if segment.flags & RST != 0 {
                    return Action::Refused;
                }
                if segment.flags == SYN_ACK && segment.acknowledgement == advance(self.seq, 1) {
                    self.seq = advance(self.seq, 1);
                    self.ack = advance(segment.sequence, 1);
                    let packet = self.build_tcp_packet(ACK, None);
                    self.state = State::Established;
                    return Action::Established(Some(packet));
                }
            },
        }
        self.take_turn(turns, SYN, State::SynSent)
    }

    /// Takes the next turn of the server's handshake. `turns` counts from zero.
    pub fn accept(&mut self, turns: &mut usize, event: Event) -> (action: Action)
        requires
            old(self).wf(),
            old(self).state is Idle || old(self).state is SynReceived,
            can_happen(event, old(self).state),
        ensures
            final(self).wf(),
            ({
                let turn = old(self).accept_turn(*old(turns) as nat, event@);
                *final(self) == turn.socket && *final(turns) == turn.turns && action@
                    == turn.action
            }),
    {
        match event {
            Event::Ready => {},
            Event::TimedOut => {
                self.state = State::Idle;
            },
            Event::Received(raw_buf) => {
                let segment = parse_ip_packet(raw_buf).unwrap();
                if segment.flags & RST != 0 {
                    return Action::Refused;
                }
                if segment.flags == ACK && segment.acknowledgement == advance(self.seq, 1) {
                    self.seq = advance(self.seq, 1);
                    self.state = State::Established;
                    return Action::Established(None);
                }
            },
        }
        self.take_turn(turns, SYN_ACK, State::SynReceived)
    }
}

/// Every packet that a client transmits before its connection stands is its opening segment: it goes
/// from its own to the other endpoint with `SYN`, the numbers that the client has, and no payload.
/// The client then waits for an answer, and its numbers are what they were.
pub proof fn law_client_opens(sock: Socket, turns: nat, event: EventView)
    requires
        sock.local_addr.ip is V4 <==> sock.remote_addr.ip is V4,
        sock.state is Idle || sock.state is SynSent,
    ensures
        sock.connect_turn(turns, event).action matches ActionView::Transmit(packet) ==> {
            &&& says(
                packet,
                sock.local_addr,
                sock.remote_addr,
                sock.seq,
                sock.ack,
                SYN,
                Seq::empty(),
            )
            &&& sock.connect_turn(turns, event).socket == (Socket {
                last_ack: sock.ack,
                state: State::SynSent,
                ..sock
            })
            &&& sock.connect_turn(turns, event).turns == turns + 1
        },
{
    law_flags();
    law_room_for_payload(sock.local_addr.ip, SYN, 0);
    law_parse_inverts_build(
        sock.local_addr,
        sock.remote_addr,
        sock.seq,
        sock.ack,
        SYN,
        Seq::empty(),
    );
}

/// A client that has not heard anything has six turns. It transmits whenever it begins or has waited
/// in vain, waits whenever it has transmitted, and gives up when the turns are used up.
pub proof fn law_client_persists(sock: Socket, turns: nat)
    requires
        sock.state is Idle || sock.state is SynSent,
    ensures
        ({
            let ready = sock.connect_turn(turns, EventView::Ready);
            let timed_out = sock.connect_turn(turns, EventView::TimedOut);
            if turns >= 6 {
                &&& ready.action is Exhausted && timed_out.action is Exhausted
                &&& ready.socket == sock
                &&& timed_out.socket == Socket { state: State::Idle, ..sock }
                &&& ready.turns == turns && timed_out.turns == turns
            } else {
                &&& timed_out.action is Transmit
                &&& sock.state is Idle ==> ready.action is Transmit
                &&& sock.state is SynSent ==> ready.action is Await && ready.socket == sock
                &&& ready.turns == turns + 1 && timed_out.turns == turns + 1
            }
        }),
{
}

/// Losing a packet changes nothing: what a client transmits after any wait in vain is what it
/// transmitted first, byte for byte, and leaves it as it was after that.
pub proof fn law_client_repeats_itself(sock: Socket, first: nat, later: nat)
    requires
        sock.state is Idle,
        first < 6,
        later < 6,
    ensures
        ({
            let opened = sock.connect_turn(first, EventView::Ready);
            let repeated = opened.socket.connect_turn(later, EventView::TimedOut);
            &&& opened.action is Transmit
            &&& repeated.action is Transmit
            &&& repeated.action->Transmit_0 == opened.action->Transmit_0
            &&& repeated.socket == opened.socket
        }),
{
}

/// What a client makes of a segment. A reset is a refusal. A `SYN + ACK` that acknowledges its `SYN`
/// establishes the connection, and is acknowledged in turn, by a packet with the numbers that both
/// ends continue with. Anything else is passed over.
pub proof fn law_client_hears(sock: Socket, turns: nat, segment: SegmentView)
    requires
        sock.local_addr.ip is V4 <==> sock.remote_addr.ip is V4,
        sock.state is SynSent,
    ensures
        ({
            let turn = sock.connect_turn(turns, EventView::Received(segment));
            let answered = segment.flags == SYN_ACK && seq_sub(segment.acknowledgement, sock.seq)
                == 1;
            &&& turn.action is Refused <==> segment.flags & RST != 0
            &&& turn.action is Refused ==> turn.socket == sock && turn.turns == turns
            &&& turn.action is Established <==> answered
            &&& answered ==> {
                &&& turn.turns == turns
                &&& turn.action->Established_0 is Some
                &&& says(
                    turn.action->Established_0->0,
                    sock.local_addr,
                    sock.remote_addr,
                    segment.acknowledgement,
                    seq_add(segment.sequence, 1),
                    ACK,
                    Seq::empty(),
                )
                &&& turn.socket.local_addr == sock.local_addr
                &&& turn.socket.remote_addr == sock.remote_addr
                &&& turn.socket.seq == segment.acknowledgement
                &&& turn.socket.ack == seq_add(segment.sequence, 1)
                &&& turn.socket.last_ack == turn.socket.ack
                &&& turn.socket.state is Established
            }
            &&& !answered && segment.flags & RST == 0 ==> turn == sock.connect_turn(
                turns,
                EventView::Ready,
            )
        }),
{
    law_flags();
    law_numbers_go_round(segment.acknowledgement, sock.seq, 0, 0);
    law_numbers_go_round(sock.seq, 0, 0, 1);
    law_room_for_payload(sock.local_addr.ip, ACK, 0);
    law_parse_inverts_build(
        sock.local_addr,
        sock.remote_addr,
        seq_add(sock.seq, 1),
        seq_add(segment.sequence, 1),
        ACK,
        Seq::empty(),
    );
}

/// Every packet that a server transmits before its connection stands is its opening segment: it goes
/// from its own to the other endpoint with `SYN + ACK`, the numbers that the server has, and no payload.
/// The server then waits for an answer, and its numbers are what they were.
pub proof fn law_server_opens(sock: Socket, turns: nat, event: EventView)
    requires
        sock.local_addr.ip is V4 <==> sock.remote_addr.ip is V4,
        sock.state is Idle || sock.state is SynReceived,
    ensures
        sock.accept_turn(turns, event).action matches ActionView::Transmit(packet) ==> {
            &&& says(
                packet,
                sock.local_addr,
                sock.remote_addr,
                sock.seq,
                sock.ack,
                SYN_ACK,
                Seq::empty(),
            )
            &&& sock.accept_turn(turns, event).socket == (Socket {
                last_ack: sock.ack,
                state: State::SynReceived,
                ..sock
            })
            &&& sock.accept_turn(turns, event).turns == turns + 1
        },
{
    law_flags();
    law_room_for_payload(sock.local_addr.ip, SYN_ACK, 0);
    law_parse_inverts_build(
        sock.local_addr,
        sock.remote_addr,
        sock.seq,
        sock.ack,
        SYN_ACK,
        Seq::empty(),
    );
}

/// A server that has not heard anything has six turns. It transmits whenever it begins or has waited
/// in vain, waits whenever it has transmitted, and gives up when the turns are used up.
pub proof fn law_server_persists(sock: Socket, turns: nat)
    requires
        sock.state is Idle || sock.state is SynReceived,
    ensures
        ({
            let ready = sock.accept_turn(turns, EventView::Ready);
            let timed_out = sock.accept_turn(turns, EventView::TimedOut);
            if turns >= 6 {
                &&& ready.action is Exhausted && timed_out.action is Exhausted
                &&& ready.socket == sock
                &&& timed_out.socket == Socket { state: State::Idle, ..sock }
                &&& ready.turns == turns && timed_out.turns == turns
            } else {
                &&& timed_out.action is Transmit
                &&& sock.state is Idle ==> ready.action is Transmit
                &&& sock.state is SynReceived ==> ready.action is Await && ready.socket == sock
                &&& ready.turns == turns + 1 && timed_out.turns == turns + 1
            }
        }),
{
}

/// Losing a packet changes nothing: what a server transmits after any wait in vain is what it
/// transmitted first, byte for byte, and leaves it as it was after that.
pub proof fn law_server_repeats_itself(sock: Socket, first: nat, later: nat)
    requires
        sock.state is Idle,
        first < 6,
        later < 6,
    ensures
        ({
            let opened = sock.accept_turn(first, EventView::Ready);
            let repeated = opened.socket.accept_turn(later, EventView::TimedOut);
            &&& opened.action is Transmit
            &&& repeated.action is Transmit
            &&& repeated.action->Transmit_0 == opened.action->Transmit_0
            &&& repeated.socket == opened.socket
        }),
{
}

/// What a server makes of a segment. A reset is a refusal. A bare `ACK` of its `SYN + ACK`
/// establishes the connection, and nothing is sent for it. Anything else is passed over.
pub proof fn law_server_hears(sock: Socket, turns: nat, segment: SegmentView)
    requires
        sock.state is SynReceived,
    ensures
        ({
            let turn = sock.accept_turn(turns, EventView::Received(segment));
            let answered = segment.flags == ACK && seq_sub(segment.acknowledgement, sock.seq) == 1;
            &&& turn.action is Refused <==> segment.flags & RST != 0
            &&& turn.action is Refused ==> turn.socket == sock && turn.turns == turns
            &&& turn.action is Established <==> answered
            &&& answered ==> {
                &&& turn.turns == turns
                &&& turn.action->Established_0 is None
                &&& turn.socket == Socket {
                    seq: segment.acknowledgement,
                    state: State::Established,
                    ..sock
                }
            }
            &&& !answered && segment.flags & RST == 0 ==> turn == sock.accept_turn(
                turns,
                EventView::Ready,
            )
        }),
{
    law_flags();
    law_numbers_go_round(segment.acknowledgement, sock.seq, 0, 0);
    law_numbers_go_round(sock.seq, 0, 0, 1);
}

/// A handshake takes every event that can come to it: it may always be told to go on, and a timeout
/// or a segment comes to one that has opened.
pub proof fn law_events(event: Event, state: State)
    ensures
        can_happen(event, state) <==> match event {
            Event::Ready => true,
            Event::TimedOut => state != State::Idle,
            Event::Received(raw_buf) => state != State::Idle && parsed(raw_buf@) is Some,
        },
        match event {
            Event::Ready => event@ is Ready,
            Event::TimedOut => event@ is TimedOut,
            Event::Received(raw_buf) => event@ is Received && event@->Received_0 == parsed(
                raw_buf@,
            )->0,
        },
{
}

/// An action says what is to be done, with whole packets.
pub proof fn law_actions_tell_all(action: Action)
    ensures
        match action {
            Action::Transmit(packet) => action@ is Transmit && action@->Transmit_0 == packet@,
            Action::Await => action@ is Await,
            Action::Established(packet) => {
                &&& action@ is Established
                &&& action@->Established_0 is Some <==> packet is Some
                &&& packet is Some ==> action@->Established_0->0 == packet->0@
            },
            Action::Refused => action@ is Refused,
            Action::Exhausted => action@ is Exhausted,
        },
{
}

} // verus!
