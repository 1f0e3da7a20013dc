# fips

The decision logic of a mesh daemon for constrained radio links, as a library of
verified Rust: what every function returns or changes is stated in its contract and
proved with Verus.

The proofs rest on the contracts of what is called from outside, each of which says
in its doc comment what it claims: `hex_encode` and `hex_decode` (`text.rs`, beside
`String::push`), `sha256_digest`, `is_valid_xonly`, `xonly_of_secret` and
`public_key_of_secret` (`identity.rs`), `parse_uuid` (`transport/ble/bluest.rs`),
`text_of_utf8` (`transport.rs`), the socket address of the Bluetooth stack
(`transport/ble/addr.rs`), and the clocks (`clock.rs`, `benchmark/types.rs`), of whose
readings nothing but a bound is claimed.

## Layout

- `src/` holds the library.
  - `benchmark/` echo and throughput tests between peers
  - `control/` commands of the control socket
  - `dump.rs` reports on captured frames
  - `identity.rs` keys, node addresses and mesh addresses
  - `instr/` what the capture writer writes
  - `mmp/` estimators of the metrics protocol
  - `native/` what calls on sequenced packet sockets mean
  - `node/` handshakes, lookups, rate limits and the tables behind them
  - `noise/` key log lines
  - `peer_policy.rs` frame limit of a peer
  - `run_loop.rs` the main thread's loop
  - `transport/` BLE and RFCOMM: addresses, framing, dialling, peering, backoff
  - `upper/` configuration, TCP clamping and the TCP proxy
  - `arith.rs`, `clock.rs`, `recency.rs`, `text.rs`, `wide.rs`, `wire.rs` shared helpers
- `tests/` runs the library on concrete values.
- `app/` is the daemon around it: sockets, files, the runtime and everything that is
  floating point.

Time enters as plain readings of a clock. Functions that end in `_at` take the
reading; those without read the clock and call them.
