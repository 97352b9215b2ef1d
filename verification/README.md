# btc

A Bitcoin peer-to-peer node, written in Verus: the wire codec of the network
protocol and the decisions of the node's actors carry contracts that Verus
proves.

## Layout

- `src/codec`: the messages of the protocol. Each type has a decoder from
  bytes and an encoder to bytes, both specified by spec functions; the laws
  say which values read back as themselves (`lemma_*_round_trip`), which
  inputs are refused and why. `msgs` and `lines` frame messages and admin
  command lines on a connection whose bytes the caller reads and writes.
- `src/actor`: the decisions of the node's actors. The handshake of a peer
  is a step function from state and event to state and actions; the router,
  the scheduler and a worker's queue are tables whose operations state what
  they do to the table and what the caller must deliver; a peer and an admin
  connection number their requests and turn what they read into requests.
- `src/exercises`: small programs that came with the node. Each has the
  computation of its exercise and a `program` from the input's bytes to the
  output's bytes, reading lines, fields and numbers with `text`.
- `app`: the node's program. It reads the command line, sets up logging,
  listens for peers and admins, and runs the router, the scheduler, the
  workers and one thread per connection, each passing what it reads to the
  library and performing what the library decides.
- `tests`: tests of the library on concrete values.

## Outside crates

`byteorder` reads and writes the fixed-width integers, `rust-crypto` computes
the SHA-256 of the payload checksum, `hex` decodes hexadecimal text, `chrono`
gives the time and `rand` the nonce of a `version` message, and `bytes`
holds the framing buffers of a peer connection. Each call stands behind a
small function whose contract says what the crate does. `structopt`, `fern`
and `log` serve the program in `app`.
