# nex

A library for the NEX game-server protocols (PRUDP over UDP, HPP over TCP,
RMC calls), written in Verus: the wire formats, signatures, ciphers,
windows and queues carry contracts that Verus proves.

## Layout

- `src/` — the verified library.
  - `byte_stream*`, `rmc_message`, `hpp/`, `hpp_packet`, `prudp/packet`,
    `prudp_packet_v1`: wire formats, each with its encoding and decoding as
    spec functions and a proof that decoding gives back what was encoded.
  - `prudp/fragmentation`, `prudp/packet_dispatch_queue`, `prudp/sliding`,
    `sliding_window`: fragmentation and reassembly, in-order dispatch, send
    windows and NAKs on the 16-bit sequence circle.
  - `prudp/connection`, `prudp_connection`, `rv`: connection and session
    state; the caller does the socket work and reports back.
  - `auth/`, `crypto/`, `prudp/crypto`, `kerberos`, `prudp_v1_settings`:
    RC4, xor streams, key derivation and packet signatures. MD5, HMAC-MD5
    and hex decoding come from the `md-5`, `hmac` and `hex` crates through
    small trusted wrappers; zlib comes from `flate2`.
- `tests/` — scenarios and checks of the library on concrete values.
- `app/` — the network side: Tokio servers and clients, the tasks that
  drive the connection state, and serde/thiserror/bitflags copies of the
  library's types.
