//! Endpoints of a connection.

use vstd::prelude::*;

verus! {

/// An IPv4 address as the integer that its four octets spell.
#[derive(Clone, Copy, Debug, PartialEq, Eq, Hash, Structural)]
pub struct Ipv4Addr {
    pub bits: u32,
}

/// An IPv6 address as the integer that its sixteen octets spell.
#[derive(Clone, Copy, Debug, PartialEq, Eq, Hash, Structural)]
pub struct Ipv6Addr {
    pub bits: u128,
}

/// An address of either family.
#[derive(Clone, Copy, Debug, PartialEq, Eq, Hash, Structural)]
pub enum IpAddr {
    V4(Ipv4Addr),
    V6(Ipv6Addr),
}

/// An address and a port on it. An IPv6 endpoint may also have flow information and a scope, which
/// tell endpoints apart on this host and are not part of a packet; for IPv4 both are zero.
#[derive(Clone, Copy, Debug, PartialEq, Eq, Hash, Structural)]
pub struct SocketAddr {
    pub ip: IpAddr,
    pub port: u16,
    pub flowinfo: u32,
    pub scope_id: u32,
}

/// What identifies a connection: the endpoint on this host and the one on the other.
#[derive(Clone, Copy, Debug, PartialEq, Eq, Hash, Structural)]
pub struct AddrTuple {
    pub local_addr: SocketAddr,
    pub remote_addr: SocketAddr,
}

/// Whether two addresses can stand in the header of one packet.
pub open spec fn same_family(a: IpAddr, b: IpAddr) -> bool {
    (a is V4) == (b is V4)
}

impl Ipv4Addr {
    /// The address written `a.b.c.d`.
    pub fn new(a: u8, b: u8, c: u8, d: u8) -> (ip: Ipv4Addr)
        ensures
            ip.bits == a * 0x100_0000 + b * 0x1_0000 + c * 0x100 + d,
    {
        Ipv4Addr { bits: a as u32 * 0x100_0000 + b as u32 * 0x1_0000 + c as u32 * 0x100 + d as u32 }
    }
}

impl SocketAddr {
    /// An address and a port, and nothing else.
    pub open spec fn plain(ip: IpAddr, port: u16) -> SocketAddr {
        SocketAddr { ip, port, flowinfo: 0, scope_id: 0 }
    }

    /// What a packet says of the endpoint.
    pub open spec fn on_wire(self) -> SocketAddr {
        SocketAddr::plain(self.ip, self.port)
    }

    /// Whether a packet says all there is to say of the endpoint.
    pub open spec fn is_plain(self) -> bool {
        self.flowinfo == 0 && self.scope_id == 0
    }

    pub fn new(ip: IpAddr, port: u16) -> (addr: SocketAddr)
        ensures
            addr == SocketAddr::plain(ip, port),
    {
        SocketAddr { ip, port, flowinfo: 0, scope_id: 0 }
    }

    pub fn is_ipv4(&self) -> (yes: bool)
        ensures
            yes == (self.ip is V4),
    {
        match self.ip {
            IpAddr::V4(_) => true,
            IpAddr::V6(_) => false,
        }
    }
}

impl AddrTuple {
    pub fn new(local_addr: SocketAddr, remote_addr: SocketAddr) -> (tuple: AddrTuple)
        ensures
            tuple == (AddrTuple { local_addr, remote_addr }),
    {
        AddrTuple { local_addr, remote_addr }
    }
}

/// A packet tells the address and the port of an endpoint and nothing else, and two addresses can
/// stand in one packet exactly if both are of IPv4 or both of IPv6.
pub proof fn law_wire_endpoints(addr: SocketAddr, other: SocketAddr)
    ensures
        addr.on_wire().ip == addr.ip,
        addr.on_wire().port == addr.port,
        addr.on_wire().flowinfo == 0,
        addr.on_wire().scope_id == 0,
        SocketAddr::plain(addr.ip, addr.port) == addr.on_wire(),
        addr.is_plain() <==> addr.on_wire() == addr,
        same_family(addr.ip, other.ip) <==> (addr.ip is V4 && other.ip is V4) || (addr.ip is V6
            && other.ip is V6),
{
}

} // verus!
