# xbee_rust_modem_library

A secure link over XBee radios, verified with Verus: an API-mode (AP=2)
frame codec and streaming parser, an in-order replay window, AES-256-GCM
sealed packets, a signed X25519 + Ed25519 + HKDF handshake, key-file
decoding, destination and role parsing, and the choice of serial ports.

Layout:

- `src/` — the verified library. Calls into the cryptographic crates and
  `heapless` go through small trusted wrappers in `src/crypto.rs` and
  `src/buffers.rs`, whose contracts name what the crates compute.
- `tests/` — tests of the library on concrete values.
- `app/` — the program around it: serial ports, files, the process
  environment, postcard/COBS serialization and the sender/receiver demos.

The replay window (`replay::InOrder`) is not a strict in-order gate: a frame
ahead of the expected sequence number is accepted and the number of skipped
frames is reported (`InOrderDecision::AcceptWithGap`), and `expected()` gives
the next expected number as a `u64`. A session commits a newer sequence
number only after the frame authenticates.
