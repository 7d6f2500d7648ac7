# alloy-reth

Types, wire format and request shapes for the `reth_` Ethereum JSON-RPC namespace,
verified with Verus.

- `src/types.rs` — the payload, parameter, status and notification types, their
  constructors and builders.
- `src/json.rs` — a JSON document model and the readings of JSON values the wire
  format uses (integers, byte strings, 32-byte hashes, object members).
- `src/hex.rs` — `0x`-prefixed hex text of byte strings, through the hex codec of
  `alloy-primitives`.
- `src/codec.rs` — the untagged wire format of `reth_newPayload` inputs, big-block
  data and parameters, with the proof that reading back a written input gives it back.
- `src/status.rs` — the timing members of the extended payload status.
- `src/provider.rs` — the method name and positional parameters of each `reth_` call.
- `app/` — the serde forms of the types and the async `RethApi` provider extension,
  which converts between `serde_json` values and the library's JSON model and sends
  the calls the library builds.
