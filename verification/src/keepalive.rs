//! Watching over a connection on which nothing is heard.

use vstd::prelude::*;

use crate::addr::AddrTuple;
use crate::packet::{parsed, says, ACK};
use crate::socket::{law_probe_repeats_last_number, seq_add, Socket, SocketHealth};
use crate::time::Duration;

verus! {

/// How often a connection is looked after by default, in seconds.
pub const DEFAULT_KEEPALIVE_INTERVAL_SECS: u64 = 15;

/// How many probes in a row may go unanswered by default.
pub const DEFAULT_KEEPALIVE_MISSES: usize = 3;

/// How connections are watched over.
#[derive(Clone, Copy, Debug, PartialEq, Eq, Structural)]
pub struct KeepaliveConfig {
    /// The time between two looks at a connection.
    pub interval: Duration,
    /// How many probes in a row may go unanswered.
    pub max_missed: usize,
}

impl KeepaliveConfig {
    /// Whether connections are watched over at all.
    pub open spec fn enabled(self) -> bool {
        !(self.interval.secs == 0 && self.interval.nanos == 0) && self.max_missed > 0
    }

    /// Connections are left alone.
    pub fn disabled() -> (config: KeepaliveConfig)
        ensures
            config.interval == (Duration { secs: 0, nanos: 0 }),
            config.max_missed == 0,
            !config.enabled(),
    {
        KeepaliveConfig { interval: Duration::zero(), max_missed: 0 }
    }

    /// Whether connections are watched over at all.
    pub fn is_enabled(self) -> (yes: bool)
        ensures
            yes == self.enabled(),
    {
        !self.interval.is_zero() && self.max_missed > 0
    }
}

impl Default for KeepaliveConfig {
    fn default() -> (config: KeepaliveConfig)
        ensures
            config.interval == (Duration { secs: 15, nanos: 0 }),
            config.max_missed == 3,
    {
        KeepaliveConfig {
            interval: Duration::from_secs(DEFAULT_KEEPALIVE_INTERVAL_SECS),
            max_missed: DEFAULT_KEEPALIVE_MISSES,
        }
    }
}

/// The watch over one connection.
#[derive(Debug, PartialEq, Eq, Structural)]
pub struct Keepalive {
    /// When something had been received at the last look.
    pub last_seen: u64,
    /// The probes sent since.
    pub missed: usize,
}

/// What a look at a connection calls for.
#[derive(Debug)]
pub enum Watch {
    /// The connection is over: stop watching.
    Stop,
    /// The other end was heard: look again after the interval.
    Alive,
    /// Send this probe and look again after the interval. If it cannot be sent, see
    /// [`Keepalive::probe_refused`].
    Probe(Vec<u8>),
    /// Too many probes went unanswered, or one could not be sent. The connection is closed, these
    /// endpoints are to leave the table, see [`Socket::close`], and the watch ends.
    Dead(AddrTuple),
}

/// What a `Watch` says.
#[verifier::ext_equal]
pub enum WatchView {
    Stop,
    Alive,
    Probe(Seq<u8>),
    Dead(AddrTuple),
}

impl View for Watch {
    type V = WatchView;

    open spec fn view(&self) -> WatchView {
        match *self {
            Watch::Stop => WatchView::Stop,
            Watch::Alive => WatchView::Alive,
            Watch::Probe(packet) => WatchView::Probe(packet@),
            Watch::Dead(tuple) => WatchView::Dead(tuple),
        }
    }
}

impl Socket {
    /// Starts the watch over the connection, where connections are watched over.
    pub fn start_keepalive(&self, config: KeepaliveConfig, health: &SocketHealth) -> (watch: Option<
        Keepalive,
    >)
        ensures
            watch == if config.enabled() {
                Some(Keepalive { last_seen: health.last_rx_ms, missed: 0 })
            } else {
                None
            },
    {
        if !config.is_enabled() {
            return None;
        }
        Some(Keepalive { last_seen: health.last_rx_ms, missed: 0 })
    }
}

impl Keepalive {
    /// What a look at the connection finds, and the watch after it.
    pub open spec fn look(
        self,
        max_missed: usize,
        health: SocketHealth,
        sock: Socket,
    ) -> (Keepalive, WatchView) {
        if health.closed {
            (self, WatchView::Stop)
        } else if health.last_rx_ms != self.last_seen {
            (Keepalive { last_seen: health.last_rx_ms, missed: 0 }, WatchView::Alive)
        } else if self.missed >= max_missed {
            (self, WatchView::Dead(sock.endpoints()))
        } else {
            (
                Keepalive { missed: (self.missed + 1) as usize, ..self },
                WatchView::Probe(sock.probe()),
            )
        }
    }

    /// Looks after the connection, once per interval.
    pub fn tick(
        &mut self,
        config: KeepaliveConfig,
        health: &mut SocketHealth,
        sock: &Socket,
    ) -> (watch: Watch)
        requires
            sock.wf(),
        ensures
            (*final(self), watch@) == old(self).look(config.max_missed, *old(health), *sock),
            *final(health) == if watch is Dead {
                SocketHealth { closed: true, ..*old(health) }
            } else {
                *old(health)
            },
    {
        if health.closed {
            return Watch::Stop;
        }
        if health.last_rx_ms != self.last_seen {
            self.last_seen = health.last_rx_ms;
            self.missed = 0;
            return Watch::Alive;
        }
        if self.missed >= config.max_missed {
            return Watch::Dead(sock.mark_closed(health));
        }
        self.missed = self.missed + 1;
        Watch::Probe(sock.send_keepalive_probe())
    }

    /// Gives the connection up at once when a probe could not be sent.
    pub fn probe_refused(&self, health: &mut SocketHealth, sock: &Socket) -> (watch: Watch)
        ensures
            watch@ == WatchView::Dead(sock.endpoints()),
            *final(health) == (SocketHealth { closed: true, ..*old(health) }),
    {
        Watch::Dead(sock.mark_closed(health))
    }

    /// The watch after `n` looks at an open connection on which nothing is heard.
    pub open spec fn after_silence(
        self,
        max_missed: usize,
        health: SocketHealth,
        sock: Socket,
        n: nat,
    ) -> Keepalive
        decreases n,
    {
        if n == 0 {
            self
        } else {
            self.after_silence(max_missed, health, sock, (n - 1) as nat).look(
                max_missed,
                health,
                sock,
            ).0
        }
    }
}

/// A watch that starts now on a connection on which nothing more is heard sends a probe at each of
/// the first `max_missed` looks and declares the connection dead at the next one, not before.
pub proof fn law_silence_is_probed_then_fatal(
    max_missed: usize,
    health: SocketHealth,
    sock: Socket,
    n: nat,
)
    requires
        !health.closed,
        n <= max_missed,
    ensures
        ({
            let start = Keepalive { last_seen: health.last_rx_ms, missed: 0 };
            let watch = start.after_silence(max_missed, health, sock, n);
            &&& watch.missed == n
            &&& watch.look(max_missed, health, sock).1 == if n < max_missed {
                WatchView::Probe(sock.probe())
            } else {
                WatchView::Dead(sock.endpoints())
            }
        }),
{
    let start = Keepalive { last_seen: health.last_rx_ms, missed: 0 };
    lemma_after_silence(start, max_missed, health, sock, n);
}

proof fn lemma_after_silence(
    start: Keepalive,
    max_missed: usize,
    health: SocketHealth,
    sock: Socket,
    n: nat,
)
    requires
        !health.closed,
        start == (Keepalive { last_seen: health.last_rx_ms, missed: 0 }),
        n <= max_missed,
    ensures
        start.after_silence(max_missed, health, sock, n) == (Keepalive {
            last_seen: health.last_rx_ms,
            missed: n as usize,
        }),
    decreases n,
{
    if n > 0 {
        lemma_after_silence(start, max_missed, health, sock, (n - 1) as nat);
    }
}

/// Whatever was missed before, a look that finds that something was received starts the count
/// anew.
pub proof fn law_traffic_forgives(
    watch: Keepalive,
    max_missed: usize,
    health: SocketHealth,
    sock: Socket,
)
    requires
        !health.closed,
        health.last_rx_ms != watch.last_seen,
    ensures
        watch.look(max_missed, health, sock) == (
            Keepalive { last_seen: health.last_rx_ms, missed: 0 },
            WatchView::Alive,
        ),
{
}

/// Connections are watched over exactly if there is time between two looks and a probe may go
/// unanswered.
pub proof fn law_what_enables(config: KeepaliveConfig)
    ensures
        config.enabled() <==> (config.interval.secs > 0 || config.interval.nanos > 0)
            && config.max_missed > 0,
{
}

/// What a look finds, whatever happened before it. A closed connection is watched no longer. If
/// something was received since the last look, the count of probes starts anew. If not, a probe is
/// sent and counted as long as fewer than `max_missed` went unanswered, and the connection between
/// the endpoints of the socket is dead when that many did.
pub proof fn law_look(watch: Keepalive, max_missed: usize, health: SocketHealth, sock: Socket)
    requires
        sock.local_addr.ip is V4 <==> sock.remote_addr.ip is V4,
    ensures
        ({
            let (next, verdict) = watch.look(max_missed, health, sock);
            let silent = !health.closed && health.last_rx_ms == watch.last_seen;
            &&& verdict is Stop <==> health.closed
            &&& verdict is Alive <==> !health.closed && health.last_rx_ms != watch.last_seen
            &&& verdict is Probe <==> silent && watch.missed < max_missed
            &&& verdict is Dead <==> silent && watch.missed >= max_missed
            &&& verdict is Stop || verdict is Dead ==> next == watch
            &&& verdict is Alive ==> next.missed == 0 && next.last_seen == health.last_rx_ms
            &&& verdict is Probe ==> next.missed == watch.missed + 1 && next.last_seen
                == watch.last_seen
            &&& verdict matches WatchView::Dead(tuple) ==> tuple.local_addr == sock.local_addr
                && tuple.remote_addr == sock.remote_addr
            &&& verdict matches WatchView::Probe(packet) ==> {
                let segment = parsed(packet)->0;
                &&& says(
                    packet,
                    sock.local_addr,
                    sock.remote_addr,
                    segment.sequence,
                    sock.ack,
                    ACK,
                    Seq::empty(),
                )
                &&& seq_add(segment.sequence, 1) == sock.seq
            }
        }),
{
    law_probe_repeats_last_number(sock);
}

/// A watch says what is to be done, with the whole probe or the endpoints.
pub proof fn law_watches_tell_all(watch: Watch)
    ensures
        match watch {
            Watch::Stop => watch@ is Stop,
            Watch::Alive => watch@ is Alive,
            Watch::Probe(packet) => watch@ is Probe && watch@->Probe_0 == packet@,
            Watch::Dead(tuple) => watch@ is Dead && watch@->Dead_0 == tuple,
        },
{
}

} // verus!
