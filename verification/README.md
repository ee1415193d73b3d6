# fake-tcp

A minimal TCP stack in user space that carries datagrams. To the network its packets are those of
a TCP connection, with a handshake, sequence numbers and resets; to the program it is a way to send
and receive datagrams, in any order and without congestion or flow control.

- `src/` is the library. It decides what is to be sent, delivered, acknowledged, reset or
  forgotten, on plain values, and is verified with Verus. `src/laws.rs` states what holds between
  the two ends of a connection.
- `app/` runs the library on Tun interfaces with tokio.
- `tests/` exercises the library.
