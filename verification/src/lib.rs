//! A minimal TCP stack in user space that carries datagrams.
//!
//! Programs send datagrams as if they were part of a TCP connection: in any order, without
//! congestion control and without flow control. The stack works at layer 3, on whole IP packets.
//!
//! The library decides; it does no input or output itself. A [`Stack`] knows the connections and
//! the ports that are listened on, a [`Reader`] decides what becomes of each packet that comes in,
//! a [`Socket`] is one connection, and a [`Keepalive`] watches over it. Each takes what happened
//! as plain values and says what is to be sent, delivered or forgotten.

pub mod addr;
pub mod checksum;
pub mod handshake;
pub mod keepalive;
pub mod laws;
pub mod octets;
pub mod operations;
pub mod packet;
pub mod reader;
pub mod socket;
pub mod stack;
pub mod table;
pub mod time;

pub use addr::{AddrTuple, IpAddr, Ipv4Addr, Ipv6Addr, SocketAddr};
pub use handshake::{Action, Event};
pub use keepalive::{Keepalive, KeepaliveConfig, Watch};
pub use reader::{Dispatch, Reader};
pub use socket::{Received, Socket, SocketHealth, State};
pub use stack::Stack;
pub use time::{now_ms, Duration};
