//! Handing packets from a Tun interface to the connections that they belong to.

use std::sync::Arc;
use vstd::prelude::*;

use crate::addr::AddrTuple;
use crate::packet::{
    build_tcp_packet, law_flags, law_parse_inverts_build, law_room_for_payload, parse_ip_packet,
    parsed, says, tcp_packet, SegmentView, RST, RST_ACK, SYN,
};
use crate::socket::{advance, seq_add, Socket, State};
use crate::stack::{share, Stack};
use crate::table::ConnTable;

verus! {

/// One reader of a Tun interface, with the connections that it has already looked up.
pub struct Reader<C> {
    pub cache: ConnTable<C>,
}

/// What is to be done with a packet.
pub enum Dispatch<C> {
    /// Nothing.
    Ignore,
    /// Note that something came for this connection, and queue the packet for it.
    Deliver(Arc<C>),
    /// A client asks for a connection. Register this socket and begin its handshake.
    Open(Socket),
    /// Send this packet back on the queue for resets, see [`Stack::reset_queue`].
    Reset(Vec<u8>),
}

/// What a `Dispatch` says.
#[verifier::ext_equal]
#[verifier::reject_recursive_types(C)]
pub enum DispatchView<C> {
    Ignore,
    Deliver(Arc<C>),
    Open(Socket),
    Reset(Seq<u8>),
}

impl<C> View for Dispatch<C> {
    type V = DispatchView<C>;

    open spec fn view(&self) -> DispatchView<C> {
        match *self {
            Dispatch::Ignore => DispatchView::Ignore,
            Dispatch::Deliver(conn) => DispatchView::Deliver(conn),
            Dispatch::Open(sock) => DispatchView::Open(sock),
            Dispatch::Reset(packet) => DispatchView::Reset(packet@),
        }
    }
}

/// The connection that a segment belongs to, as its receiver sees it.
pub open spec fn tuple_of(segment: SegmentView) -> AddrTuple {
    AddrTuple { local_addr: segment.destination, remote_addr: segment.source }
}

/// The answer `RST + ACK` to a segment.
pub open spec fn reset_answer(segment: SegmentView, seq: u32, ack: u32) -> Seq<u8> {
    tcp_packet(segment.destination, segment.source, seq, ack, RST_ACK, Seq::empty())
}

/// What is to be done with a segment that belongs to no connection.
///
/// An opening segment for a port that is listened on opens a connection if it starts from number
/// zero, and is reset otherwise. Any other segment is reset, unless it is itself a reset.
pub open spec fn stray<C>(listening: Set<u16>, segment: SegmentView) -> DispatchView<C> {
    let len = segment.payload.len();
    if segment.flags == SYN && listening.contains(segment.destination.port) {
        if segment.sequence == 0 {
            DispatchView::Open(
                Socket::fresh(segment.destination, segment.source, 1, State::Idle),
            )
        } else {
            DispatchView::Reset(reset_answer(segment, 0, seq_add(segment.sequence, len + 1)))
        }
    } else if segment.flags & RST == 0 {
        DispatchView::Reset(
            reset_answer(segment, segment.acknowledgement, seq_add(segment.sequence, len)),
        )
    } else {
        DispatchView::Ignore
    }
}

/// What is to be done with a packet, given what a reader has cached, the connections and the ports
/// that are listened on.
pub open spec fn dispatched<C>(
    cache: Map<AddrTuple, Arc<C>>,
    tuples: Map<AddrTuple, Arc<C>>,
    listening: Set<u16>,
    buf: Seq<u8>,
) -> DispatchView<C> {
    match parsed(buf) {
        None => DispatchView::Ignore,
        Some(segment) => {
            let tuple = tuple_of(segment);
            if cache.contains_key(tuple) {
                DispatchView::Deliver(cache[tuple])
            } else if tuples.contains_key(tuple) {
                DispatchView::Deliver(tuples[tuple])
            } else {
                stray(listening, segment)
            }
        },
    }
}

/// What a reader has cached after it has dealt with a packet: what it had, and the connection that
/// it looked up.
pub open spec fn cached<C>(
    cache: Map<AddrTuple, Arc<C>>,
    tuples: Map<AddrTuple, Arc<C>>,
    buf: Seq<u8>,
) -> Map<AddrTuple, Arc<C>> {
    match parsed(buf) {
        None => cache,
        Some(segment) => {
            let tuple = tuple_of(segment);
            if !cache.contains_key(tuple) && tuples.contains_key(tuple) {
                cache.insert(tuple, tuples[tuple])
            } else {
                cache
            }
        },
    }
}

impl<C> Reader<C> {
    /// The cache is well-formed.
    pub open spec fn wf(&self) -> bool {
        self.cache.wf()
    }

    /// A reader that has not looked up anything yet.
    pub fn new() -> (reader: Reader<C>)
        ensures
            reader.wf(),
            reader.cache@ == Map::<AddrTuple, Arc<C>>::empty(),
    {
        Reader { cache: ConnTable::new() }
    }

    /// Decides what is to be done with a packet that came in.
    pub fn on_packet<T>(&mut self, stack: &Stack<T, C>, buf: &[u8]) -> (dispatch: Dispatch<C>)
        requires
            old(self).wf(),
            stack.wf(),
        ensures
            final(self).wf(),
            dispatch@ == dispatched(old(self).cache@, stack.tuples@, stack.listening@, buf@),
            final(self).cache@ == cached(old(self).cache@, stack.tuples@, buf@),
            dispatch is Deliver ==> parsed(buf@) is Some,
            dispatch matches Dispatch::Open(sock) ==> sock.wf(),
    {
        let segment = match parse_ip_packet(buf) {
            Some(segment) => segment,
            None => return Dispatch::Ignore,
        };
        let local_addr = segment.destination;
        let remote_addr = segment.source;
        let tuple = AddrTuple::new(local_addr, remote_addr);
        if let Some(conn) = self.cache.get(&tuple) {
            return Dispatch::Deliver(share(conn));
        }
        if let Some(conn) = stack.tuples.get(&tuple) {
            self.cache.insert(tuple, share(conn));
            return Dispatch::Deliver(share(conn));
        }
        let len: usize = segment.payload.len();
        if segment.flags == SYN && stack.is_listening(local_addr.port) {
            if segment.sequence == 0 {
                let ack: u32 = segment.sequence + 1;
                Dispatch::Open(Socket::new(local_addr, remote_addr, Some(ack), State::Idle))
            } else {
                let ack: u32 = advance(advance(segment.sequence, len), 1);
                Dispatch::Reset(build_tcp_packet(local_addr, remote_addr, 0, ack, RST_ACK, None))
            }
        } else if segment.flags & RST == 0 {
            let ack: u32 = advance(segment.sequence, len);
            Dispatch::Reset(
                build_tcp_packet(
                    local_addr,
                    remote_addr,
                    segment.acknowledgement,
                    ack,
                    RST_ACK,
                    None,
                ),
            )
        } else {
            Dispatch::Ignore
        }
    }

    /// Forgets a connection that has left the table.
    pub fn on_purge(&mut self, tuple: &AddrTuple)
        requires
            old(self).wf(),
        ensures
            final(self).wf(),
            final(self).cache@ == old(self).cache@.remove(*tuple),
    {
        self.cache.remove(tuple);
    }
}

/// The connection of a segment is found from the side of its receiver.
pub proof fn law_receiver_is_local(segment: SegmentView)
    ensures
        tuple_of(segment).local_addr == segment.destination,
        tuple_of(segment).remote_addr == segment.source,
{
}

/// A bare `SYN` that starts from number zero, for a port that is listened on, opens a connection:
/// its socket stands at the endpoints of the segment, has sent nothing and expects number one.
/// Nothing else opens one.
pub proof fn law_what_opens<C>(listening: Set<u16>, segment: SegmentView)
    ensures
        ({
            let dispatch = stray::<C>(listening, segment);
            let sock = dispatch->Open_0;
            &&& dispatch is Open <==> {
                &&& segment.flags == SYN
                &&& segment.sequence == 0
                &&& listening.contains(segment.destination.port)
            }
            &&& dispatch is Open ==> {
                &&& sock.local_addr == segment.destination
                &&& sock.remote_addr == segment.source
                &&& sock.seq == 0
                &&& sock.ack == 1 && sock.last_ack == 1
                &&& sock.state is Idle
            }
        }),
{
}

/// A segment of no connection that neither opens one nor is a reset is answered, whatever its flags
/// and whether or not its port is listened on. The answer goes back between the swapped endpoints
/// with `RST + ACK` and no payload. It acknowledges all of the segment and takes its number from the
/// acknowledgement of the segment, but for an opening segment on a port that is listened on: there
/// it starts from zero, and the `SYN` counts as one more.
pub proof fn law_what_is_reset<C>(listening: Set<u16>, segment: SegmentView)
    requires
        segment.source.ip is V4 <==> segment.destination.ip is V4,
    ensures
        ({
            let dispatch = stray::<C>(listening, segment);
            let len = segment.payload.len();
            let opening = segment.flags == SYN && listening.contains(segment.destination.port);
            &&& dispatch is Reset <==> segment.flags & RST == 0 && !(dispatch is Open)
            &&& dispatch is Reset && opening ==> says(
                dispatch->Reset_0,
                segment.destination,
                segment.source,
                0,
                seq_add(segment.sequence, len + 1),
                RST_ACK,
                Seq::empty(),
            )
            &&& dispatch is Reset && !opening ==> says(
                dispatch->Reset_0,
                segment.destination,
                segment.source,
                segment.acknowledgement,
                seq_add(segment.sequence, len),
                RST_ACK,
                Seq::empty(),
            )
            &&& dispatch is Ignore <==> segment.flags & RST != 0
        }),
{
    let len = segment.payload.len();
    law_flags();
    law_room_for_payload(segment.destination.ip, RST_ACK, 0);
    law_parse_inverts_build(
        segment.destination,
        segment.source,
        0,
        seq_add(segment.sequence, len + 1),
        RST_ACK,
        Seq::empty(),
    );
    law_parse_inverts_build(
        segment.destination,
        segment.source,
        segment.acknowledgement,
        seq_add(segment.sequence, len),
        RST_ACK,
        Seq::empty(),
    );
}

/// A packet is delivered exactly if it is a TCP segment whose destination and source are the local
/// and the remote end of a connection that the reader or the table knows. The reader's own
/// knowledge goes first. What is no TCP segment is ignored, and any other packet is stray.
pub proof fn law_what_is_delivered<C>(
    cache: Map<AddrTuple, Arc<C>>,
    tuples: Map<AddrTuple, Arc<C>>,
    listening: Set<u16>,
    buf: Seq<u8>,
    tuple: AddrTuple,
)
    requires
        parsed(buf) matches Some(segment) ==> tuple.local_addr == segment.destination
            && tuple.remote_addr == segment.source,
    ensures
        ({
            let dispatch = dispatched(cache, tuples, listening, buf);
            let known = cache.contains_key(tuple) || tuples.contains_key(tuple);
            &&& parsed(buf) is None ==> dispatch is Ignore
            &&& dispatch is Deliver <==> parsed(buf) is Some && known
            &&& dispatch is Deliver && cache.contains_key(tuple) ==> dispatch->Deliver_0
                == cache[tuple]
            &&& dispatch is Deliver && !cache.contains_key(tuple) ==> dispatch->Deliver_0
                == tuples[tuple]
            &&& parsed(buf) is Some && !known ==> dispatch == stray::<C>(
                listening,
                parsed(buf)->0,
            )
        }),
{
}

/// A reader remembers to whom it delivered, and nothing else changes in what it remembers. Until it
/// is told to forget, the next packet with the same endpoints goes to the same connection, whatever
/// becomes of the table.
pub proof fn law_reader_remembers<C>(
    cache: Map<AddrTuple, Arc<C>>,
    tuples: Map<AddrTuple, Arc<C>>,
    later_tuples: Map<AddrTuple, Arc<C>>,
    listening: Set<u16>,
    later_listening: Set<u16>,
    buf: Seq<u8>,
    later_buf: Seq<u8>,
    other: AddrTuple,
)
    requires
        parsed(buf) is Some,
        parsed(later_buf) is Some,
        parsed(later_buf)->0.source == parsed(buf)->0.source,
        parsed(later_buf)->0.destination == parsed(buf)->0.destination,
    ensures
        ({
            let first = dispatched(cache, tuples, listening, buf);
            let after = cached(cache, tuples, buf);
            let second = dispatched(after, later_tuples, later_listening, later_buf);
            let local = parsed(buf)->0.destination;
            let remote = parsed(buf)->0.source;
            &&& first is Deliver ==> second is Deliver && second->Deliver_0 == first->Deliver_0
            &&& !(first is Deliver) ==> after == cache
            &&& other.local_addr != local || other.remote_addr != remote ==> {
                &&& after.contains_key(other) <==> cache.contains_key(other)
                &&& cache.contains_key(other) ==> after[other] == cache[other]
            }
            &&& forall|t: AddrTuple| #[trigger] cache.contains_key(t) ==> after.contains_key(t)
                && after[t] == cache[t]
        }),
{
}

/// A packet that is not TCP leaves the reader as it was.
pub proof fn law_noise_is_not_remembered<C>(
    cache: Map<AddrTuple, Arc<C>>,
    tuples: Map<AddrTuple, Arc<C>>,
    buf: Seq<u8>,
)
    requires
        parsed(buf) is None,
    ensures
        cached(cache, tuples, buf) == cache,
{
}

/// A dispatch says what is to be done, with the connection, the socket or the whole packet.
pub proof fn law_dispatches_tell_all<C>(dispatch: Dispatch<C>)
    ensures
        match dispatch {
            Dispatch::Ignore => dispatch@ is Ignore,
            Dispatch::Deliver(conn) => dispatch@ is Deliver && dispatch@->Deliver_0 == conn,
            Dispatch::Open(sock) => dispatch@ is Open && dispatch@->Open_0 == sock,
            Dispatch::Reset(packet) => dispatch@ is Reset && dispatch@->Reset_0 == packet@,
        },
{
}

} // verus!
