//! The stack: its connections, its listening ports, and its choice of ports for new connections.

use rand::rngs::SmallRng;
use rand::seq::IndexedRandom;
use rand::Rng;
use std::collections::HashSet;
use std::sync::Arc;
use vstd::prelude::*;

use crate::addr::{AddrTuple, IpAddr, Ipv4Addr, Ipv6Addr, SocketAddr};
use crate::keepalive::KeepaliveConfig;
use crate::packet::{
    build_tcp_packet, law_flags, law_parse_inverts_build, law_room_for_payload, says, tcp_packet,
    RST,
};
use crate::socket::{answer_bytes, Socket, SocketHealth, State};
use crate::table::ConnTable;

verus! {

broadcast use vstd::std_specs::hash::group_hash_axioms;

/// How many accepted connections may wait to be taken over.
pub const MPSC_BUFFER_LEN: usize = 128;

/// The first port that may be given to a connection from this end.
pub const FIRST_EPHEMERAL_PORT: u16 = 32768;

/// The last port that may be given to a connection from this end.
pub const LAST_EPHEMERAL_PORT: u16 = 60999;

/// The random number generator of the `rand` crate that spreads connections over ports and
/// queues.
#[verifier::external_type_specification]
#[verifier::external_body]
pub struct ExSmallRng(SmallRng);

/// `Rng::random_range` of the `rand` crate on an inclusive range: some number in it. The range must
/// not be empty, or the call panics. Nothing is said of which number comes.
#[verifier::external_body]
fn random_range(rng: &mut SmallRng, low: u16, high: u16) -> (number: u16)
    requires
        low <= high,
    ensures
        low <= number <= high,
{
    rng.random_range(low..=high)
}

/// `IndexedRandom::choose` of the `rand` crate: some element of the slice, unless it is empty.
/// Nothing is said of which element comes.
#[verifier::external_body]
fn random_element<'a, A>(rng: &mut SmallRng, items: &'a [A]) -> (item: Option<&'a A>)
    ensures
        match item {
            Some(item) => items@.contains(*item),
            None => items@.len() == 0,
        },
{
    items.choose(rng)
}

/// `Arc::clone` of std: another handle on the same value.
#[verifier::external_body]
pub(crate) fn share<A>(handle: &Arc<A>) -> (other: Arc<A>)
    ensures
        other == *handle,
{
    Arc::clone(handle)
}

/// A virtual TCP stack. `T` is a queue of a Tun interface, and `C` the handle through which a
/// connection is fed.
pub struct Stack<T, C> {
    pub tuples: ConnTable<C>,
    pub listening: HashSet<u16>,
    pub tun: Vec<Arc<T>>,
    pub keepalive: KeepaliveConfig,
    pub local_ip: Ipv4Addr,
    pub local_ip6: Option<Ipv6Addr>,
}

impl<T, C> Stack<T, C> {
    /// The table of connections is well-formed.
    pub open spec fn wf(&self) -> bool {
        self.tuples.wf()
    }

    /// The address of this host in the family of `addr`.
    pub open spec fn local_ip_for(&self, addr: SocketAddr) -> IpAddr {
        match addr.ip {
            IpAddr::V4(_) => IpAddr::V4(self.local_ip),
            IpAddr::V6(_) => IpAddr::V6(self.local_ip6->0),
        }
    }

    /// Whether this host has an address in the family of `addr`.
    pub open spec fn reaches(&self, addr: SocketAddr) -> bool {
        addr.ip is V4 || self.local_ip6 is Some
    }

    /// The endpoints of a connection to `addr` from `port`.
    pub open spec fn tuple_from(&self, port: u16, addr: SocketAddr) -> AddrTuple {
        AddrTuple {
            local_addr: SocketAddr::plain(self.local_ip_for(addr), port),
            remote_addr: addr,
        }
    }

    /// Whether `port` already serves a connection to `addr`.
    pub open spec fn in_use(&self, port: u16, addr: SocketAddr) -> bool {
        self.tuples@.contains_key(self.tuple_from(port, addr))
    }

    /// Whether this is the stack `before` but for its connections.
    pub open spec fn same_but_tuples(&self, before: &Stack<T, C>) -> bool {
        &&& self.listening@ == before.listening@
        &&& self.tun@ == before.tun@
        &&& self.keepalive == before.keepalive
        &&& self.local_ip == before.local_ip
        &&& self.local_ip6 == before.local_ip6
    }

    /// Creates a new stack on the queues in `tun`, with the default keepalive.
    pub fn new(tun: Vec<T>, local_ip: Ipv4Addr, local_ip6: Option<Ipv6Addr>) -> (stack: Stack<T, C>)
        ensures
            stack.wf(),
            stack.tuples@ == Map::<AddrTuple, Arc<C>>::empty(),
            stack.listening@ == Set::<u16>::empty(),
            stack.tun@.len() == tun@.len(),
            forall|i: int| 0 <= i < tun@.len() ==> *(#[trigger] stack.tun@[i]) == tun@[i],
            stack.keepalive.interval.secs == 15,
            stack.keepalive.interval.nanos == 0,
            stack.keepalive.max_missed == 3,
            stack.local_ip == local_ip,
            stack.local_ip6 == local_ip6,
    {
        Stack::new_with_keepalive(tun, local_ip, local_ip6, KeepaliveConfig::default())
    }

    /// Creates a new stack on the queues in `tun`.
    pub fn new_with_keepalive(
        tun: Vec<T>,
        local_ip: Ipv4Addr,
        local_ip6: Option<Ipv6Addr>,
        keepalive: KeepaliveConfig,
    ) -> (stack: Stack<T, C>)
        ensures
            stack.wf(),
            stack.tuples@ == Map::<AddrTuple, Arc<C>>::empty(),
            stack.listening@ == Set::<u16>::empty(),
            stack.tun@.len() == tun@.len(),
            forall|i: int| 0 <= i < tun@.len() ==> *(#[trigger] stack.tun@[i]) == tun@[i],
            stack.keepalive == keepalive,
            stack.local_ip == local_ip,
            stack.local_ip6 == local_ip6,
    {
        let mut queues: Vec<Arc<T>> = Vec::new();
        for t in it: tun
            invariant
                queues@.len() == it.index(),
                forall|i: int| 0 <= i < queues@.len() ==> *(#[trigger] queues@[i]) == it.seq()[i],
        {
            queues.push(Arc::new(t));
        }
        Stack {
            tuples: ConnTable::new(),
            listening: HashSet::new(),
            tun: queues,
            keepalive,
            local_ip,
            local_ip6,
        }
    }

    /// Whether incoming connections are accepted on `port`.
    pub fn is_listening(&self, port: u16) -> (yes: bool)
        ensures
            yes == self.listening@.contains(port),
    {
        self.listening.contains(&port)
    }

    /// Listens for incoming connections on `port`, which must not be listened on already.
    pub fn listen(&mut self, port: u16)
        requires
            !old(self).listening@.contains(port),
        ensures
            final(self).listening@ == old(self).listening@.insert(port),
            final(self).tuples == old(self).tuples,
            final(self).tun == old(self).tun,
            final(self).keepalive == old(self).keepalive,
            final(self).local_ip == old(self).local_ip,
            final(self).local_ip6 == old(self).local_ip6,
    {
        self.listening.insert(port);
    }

    /// Enters a connection between endpoints that have none.
    pub fn register(&mut self, tuple: AddrTuple, incoming: Arc<C>)
        requires
            old(self).wf(),
            !old(self).tuples@.contains_key(tuple),
        ensures
            final(self).wf(),
            final(self).tuples@ == old(self).tuples@.insert(tuple, incoming),
            final(self).same_but_tuples(old(self)),
    {
        self.tuples.insert(tuple, incoming);
    }

    /// Forgets the connection between these endpoints, and tells whether there was one. Every
    /// reader is to be told of the endpoints, whatever the answer.
    pub fn remove_tuple(&mut self, tuple: &AddrTuple) -> (removed: bool)
        requires
            old(self).wf(),
        ensures
            final(self).wf(),
            final(self).tuples@ == old(self).tuples@.remove(*tuple),
            final(self).same_but_tuples(old(self)),
            removed == old(self).tuples@.contains_key(*tuple),
    {
        self.tuples.remove(tuple).is_some()
    }

    /// The queue on which every reset that answers a stray segment goes out, whichever queue the
    /// segment came in on: the first. `None` means that the stack has no queue.
    pub fn reset_queue(&self) -> (queue: Option<Arc<T>>)
        ensures
            match queue {
                Some(queue) => self.tun@.len() > 0 && queue == self.tun@[0],
                None => self.tun@.len() == 0,
            },
    {
        if self.tun.len() == 0 {
            None
        } else {
            Some(share(&self.tun[0]))
        }
    }

    /// The address of this host in the family of `addr`.
    fn local_address(&self, addr: SocketAddr) -> (ip: IpAddr)
        requires
            self.reaches(addr),
        ensures
            ip == self.local_ip_for(addr),
    {
        match addr.ip {
            IpAddr::V4(_) => IpAddr::V4(self.local_ip),
            IpAddr::V6(_) => IpAddr::V6(self.local_ip6.unwrap()),
        }
    }

    /// Registers a connection to `addr` on the first port from `start` on that serves no
    /// connection to `addr` yet. `None` means that there is no such port.
    pub fn connect_from(&mut self, addr: SocketAddr, start: u16, incoming: Arc<C>) -> (sock: Option<
        Socket,
    >)
        requires
            old(self).wf(),
            old(self).reaches(addr),
        ensures
            final(self).wf(),
            final(self).same_but_tuples(old(self)),
            match sock {
                Some(sock) => {
                    let port = sock.local_addr.port;
                    &&& start <= port <= LAST_EPHEMERAL_PORT
                    &&& !old(self).in_use(port, addr)
                    &&& forall|p: u16| start <= p < port ==> #[trigger] old(self).in_use(p, addr)
                    &&& sock == Socket::fresh(
                        SocketAddr::plain(old(self).local_ip_for(addr), port),
                        addr,
                        0,
                        State::Idle,
                    )
                    &&& sock.wf()
                    &&& final(self).tuples@ == old(self).tuples@.insert(
                        old(self).tuple_from(port, addr),
                        incoming,
                    )
                },
                None => {
                    &&& forall|p: u16|
                        start <= p <= LAST_EPHEMERAL_PORT ==> #[trigger] old(self).in_use(p, addr)
                    &&& final(self).tuples@ == old(self).tuples@
                },
            },
    {
        let local_ip = self.local_address(addr);
        let mut port: u16 = start;
        while port <= LAST_EPHEMERAL_PORT
            invariant
                start <= port,
                self.wf(),
                *self == *old(self),
                local_ip == self.local_ip_for(addr),
                forall|p: u16| start <= p < port ==> #[trigger] self.in_use(p, addr),
            decreases LAST_EPHEMERAL_PORT + 1 - port,
        {
            let local_addr = SocketAddr::new(local_ip, port);
            let tuple = AddrTuple::new(local_addr, addr);
            if !self.tuples.contains_key(&tuple) {
                let sock = Socket::new(local_addr, addr, None, State::Idle);
                self.register(tuple, incoming);
                return Some(sock);
            }
            assert(self.in_use(port, addr));
            port = port + 1;
        }
        None
    }

    /// Whether some port that may be given to a connection serves none to `addr` yet.
    pub fn has_free_port(&self, addr: SocketAddr) -> (yes: bool)
        requires
            self.wf(),
            self.reaches(addr),
        ensures
            yes == exists|p: u16|
                FIRST_EPHEMERAL_PORT <= p <= LAST_EPHEMERAL_PORT && !(#[trigger] self.in_use(
                    p,
                    addr,
                )),
    {
        let mut port: u16 = FIRST_EPHEMERAL_PORT;
        while port <= LAST_EPHEMERAL_PORT
            invariant
                FIRST_EPHEMERAL_PORT <= port,
                self.wf(),
                self.reaches(addr),
                forall|p: u16| FIRST_EPHEMERAL_PORT <= p < port ==> #[trigger] self.in_use(p, addr),
            decreases LAST_EPHEMERAL_PORT + 1 - port,
        {
            let local_addr = SocketAddr::new(self.local_address(addr), port);
            if !self.tuples.contains_key(&AddrTuple::new(local_addr, addr)) {
                assert(!self.in_use(port, addr));
                return true;
            }
            assert(self.in_use(port, addr));
            port = port + 1;
        }
        false
    }

    /// Connects to the remote end: registers a connection to `addr` on a port of this host, with
    /// the search for a free port begun at random, and picks the queue to send on. The handshake
    /// is still to come. `None` means that no free port was found.
    pub fn connect(&mut self, rng: &mut SmallRng, addr: SocketAddr, incoming: Arc<C>) -> (sock:
        Option<(Socket, Arc<T>)>)
        requires
            old(self).wf(),
            old(self).reaches(addr),
            old(self).tun@.len() > 0 || forall|p: u16|
                FIRST_EPHEMERAL_PORT <= p <= LAST_EPHEMERAL_PORT ==> #[trigger] old(self).in_use(
                    p,
                    addr,
                ),
        ensures
            final(self).wf(),
            final(self).same_but_tuples(old(self)),
            match sock {
                Some((sock, tun)) => {
                    let port = sock.local_addr.port;
                    &&& FIRST_EPHEMERAL_PORT <= port <= LAST_EPHEMERAL_PORT
                    &&& !old(self).in_use(port, addr)
                    &&& sock == Socket::fresh(
                        SocketAddr::plain(old(self).local_ip_for(addr), port),
                        addr,
                        0,
                        State::Idle,
                    )
                    &&& sock.wf()
                    &&& old(self).tun@.contains(tun)
                    &&& final(self).tuples@ == old(self).tuples@.insert(
                        old(self).tuple_from(port, addr),
                        incoming,
                    )
                },
                None => {
                    &&& old(self).in_use(LAST_EPHEMERAL_PORT, addr)
                    &&& final(self).tuples@ == old(self).tuples@
                },
            },
    {
        let start: u16 = random_range(rng, FIRST_EPHEMERAL_PORT, LAST_EPHEMERAL_PORT);
        match self.connect_from(addr, start, incoming) {
            Some(sock) => {
                assert(!old(self).in_use(sock.local_addr.port, addr));
                let tun = random_element(rng, self.tun.as_slice()).unwrap();
                Some((sock, share(tun)))
            },
            None => None,
        }
    }
}

impl Socket {
    /// The packet with which a socket takes its leave.
    pub open spec fn farewell(self) -> Seq<u8> {
        tcp_packet(self.local_addr, self.remote_addr, self.seq, 0, RST, Seq::empty())
    }

    /// What a socket sends when it goes away: a farewell, if its connection was neither closed nor
    /// forgotten before.
    pub open spec fn leaves(self, health: SocketHealth, registered: bool) -> Option<Seq<u8>> {
        if !health.closed && registered {
            Some(self.farewell())
        } else {
            None
        }
    }

    /// Closes the connection when the other end has reset it or is no longer heard: the connection
    /// is over, and it leaves the table. Every reader is to be told of the endpoints that are
    /// returned.
    pub fn close<T, C>(
        &self,
        health: &mut SocketHealth,
        stack: &mut Stack<T, C>,
    ) -> (tuple: AddrTuple)
        requires
            old(stack).wf(),
        ensures
            final(stack).wf(),
            final(stack).tuples@ == old(stack).tuples@.remove(self.endpoints()),
            final(stack).same_but_tuples(old(stack)),
            *final(health) == (SocketHealth { closed: true, ..*old(health) }),
            tuple == self.endpoints(),
    {
        let tuple = self.mark_closed(health);
        stack.remove_tuple(&tuple);
        tuple
    }

    /// Gives up the connection when its socket goes away. It leaves the table, and if it was
    /// neither closed nor forgotten before, the packet that resets the other end is returned. Every
    /// reader is to be told of the endpoints, whatever the answer.
    pub fn release<T, C>(
        &self,
        health: &mut SocketHealth,
        stack: &mut Stack<T, C>,
    ) -> (packet: Option<Vec<u8>>)
        requires
            self.wf(),
            old(stack).wf(),
        ensures
            final(stack).wf(),
            final(stack).tuples@ == old(stack).tuples@.remove(self.endpoints()),
            final(stack).same_but_tuples(old(stack)),
            *final(health) == (SocketHealth { closed: true, ..*old(health) }),
            answer_bytes(packet) == self.leaves(
                *old(health),
                old(stack).tuples@.contains_key(self.endpoints()),
            ),
    {
        let removed: bool = stack.remove_tuple(&self.tuple());
        let closed: bool = health.closed;
        health.closed = true;
        if !closed && removed {
            Some(build_tcp_packet(self.local_addr, self.remote_addr, self.seq, 0, RST, None))
        } else {
            None
        }
    }
}

/// A socket that goes away says farewell exactly if its connection was registered and not closed,
/// whatever its numbers. The farewell is a bare `RST` to the other end with the number that the
/// socket would have sent next.
pub proof fn law_farewell_is_due(sock: Socket, health: SocketHealth, registered: bool)
    requires
        sock.local_addr.ip is V4 <==> sock.remote_addr.ip is V4,
    ensures
        sock.leaves(health, registered) is Some <==> registered && !health.closed,
        sock.leaves(health, registered) matches Some(packet) ==> says(
            packet,
            sock.local_addr,
            sock.remote_addr,
            sock.seq,
            0,
            RST,
            Seq::empty(),
        ),
{
    law_flags();
    law_room_for_payload(sock.local_addr.ip, RST, 0);
    law_parse_inverts_build(
        sock.local_addr,
        sock.remote_addr,
        sock.seq,
        0,
        RST,
        Seq::empty(),
    );
}

/// A connection to `addr` runs from the address that this host has in the family of `addr`, and
/// from the given port. The port is in use exactly if the table has that connection. Any IPv4
/// address can be reached, and IPv6 addresses where this host has one itself.
pub proof fn law_ends_of_a_connection<T, C>(stack: Stack<T, C>, port: u16, addr: SocketAddr)
    ensures
        ({
            let tuple = stack.tuple_from(port, addr);
            &&& tuple.remote_addr == addr
            &&& tuple.local_addr.port == port
            &&& tuple.local_addr.flowinfo == 0 && tuple.local_addr.scope_id == 0
            &&& addr.ip is V4 ==> tuple.local_addr.ip == IpAddr::V4(stack.local_ip)
            &&& addr.ip is V6 && stack.local_ip6 is Some ==> tuple.local_addr.ip == IpAddr::V6(
                stack.local_ip6->0,
            )
            &&& tuple.local_addr.ip == stack.local_ip_for(addr)
            &&& stack.in_use(port, addr) <==> stack.tuples@.contains_key(tuple)
            &&& stack.reaches(addr) <==> addr.ip is V4 || stack.local_ip6 is Some
        }),
{
}

/// The ports that are given to connections are 32768 to 60999.
pub proof fn law_ephemeral_ports()
    ensures
        FIRST_EPHEMERAL_PORT == 32768,
        LAST_EPHEMERAL_PORT == 60999,
{
}

/// What changes the connections of a stack changes nothing else of it.
pub proof fn law_only_tuples_change<T, C>(before: Stack<T, C>, after: Stack<T, C>)
    requires
        after.same_but_tuples(&before),
    ensures
        after.listening@ == before.listening@,
        after.tun@ == before.tun@,
        after.keepalive == before.keepalive,
        after.local_ip == before.local_ip,
        after.local_ip6 == before.local_ip6,
{
}

} // verus!
