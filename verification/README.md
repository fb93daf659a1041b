# netlab

The verified core of a set of small networking experiments: a Redis-like
key-value server speaking the Redis protocol, a hand-written async runtime, a
binary record exchanged between a client and a server, and tower middleware
served by hyper.

- `src/` is the library, verified with Verus:
  - `data.rs`: the binary record (`Data`), its native-endian encoding, a read
    cursor, and the round-trip laws.
  - `resp.rs`: Redis protocol frames and the bytes written for each, with the
    laws of the decimal encoding.
  - `frame_path.rs`: the headers the frame checker of mini-redis reads on its way
    through a buffer, to tell where it would overflow.
  - `connection.rs`: the receive buffer of a frame connection, parsing frames off
    its front with the parser of mini-redis.
  - `kv.rs`: the key-value store and how it answers `GET`, `SET` and other
    commands decoded by mini-redis.
  - `tasks.rs`: the poll decisions of the runtime's futures.
  - `middleware.rs`: logging and timeout middleware and their poll decisions.
  - `client.rs`: decoding the server's reply.
- `app/` holds the programs: sockets, tokio and hyper plumbing, the tower
  `Service` and `Future` impls that call into the library.
- `tests/` exercises the library on concrete values.
