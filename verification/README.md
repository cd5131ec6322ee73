# arkhe

Verified core of the Arkhe device-identity stack, written in Verus.

- `src/gdid.rs`, `convert.rs`, `ffi.rs`, `interop.rs`: 32-byte global device
  identifiers (GDID) — derivation from a fingerprint, hex, Base58 and DID text
  forms with their round trips, UUID conversion, and the byte-level logic of
  the C interface.
- `src/protocol.rs`: the GDID wire messages and MQTT topics.
- `src/octonion.rs`, `octonion_buf.rs`: octonions with exact `i64`
  arithmetic (Cayley–Dickson product, conjugate, squared norm) and the flat
  eight-per-octonion layout.
- `src/governance/`: commit governance — findings, the threshold policy,
  provenance checks, and a hash-chained evidence log with a canonical
  encoding.
- `src/timechain/`: post-quantum identities (Dilithium5 and Kyber1024 keys
  with a SHA3-256 fingerprint) and the handshake messages.
- `src/primitives.rs`: the hash and encoding functions taken from outside
  crates, each behind one trusted item.

`app/` holds what the verifier does not see: C and WebAssembly entry points,
floating-point octonion arithmetic, ndarray views, the JSON DID document and
the timechain's field simulation and networking stubs.
