# bice_server

Synchronisation server for a password manager, written as a Verus-verified
library (`src/`) and a thin HTTP program around it (`app/`).

- `src/status.rs` – HTTP statuses the server answers with.
- `src/wire.rs` – the postcard layout of the cached handshake record and of
  the sealed replies (varints, zig-zag integers, length-prefixed bytes),
  written and read by verified code, with read-back proofs; the tests hold
  it byte for byte against the postcard crate.
- `src/text.rs` – decimal and UUID text, cache keys and storage paths, with
  proofs that distinct versions and sessions never share a path or key.
- `src/crypto.rs` – trusted wrappers over SHAKE256, X25519, Kyber1024,
  XChaCha20-Poly1305, UUIDs and the OS random source.
- `src/registration.rs`, `src/sessions.rs` – account and session decisions;
  registration and login as step functions.
- `src/trust_channel.rs` – the hybrid handshake and the encrypted sync
  protocol as step functions.
- `src/api.rs` – the plain endpoints' decisions.

Each flow is a step function from a state and the caller's report to the
next state and the action to perform; `app/` performs the actions (database,
Redis, files, JSON) and feeds the results back.
