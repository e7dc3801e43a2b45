# plato_wire

A cursor-based buffer for a compact binary protocol (all multi-byte values
little-endian, byte and string fields length-prefixed), the 13-byte message
header, and the tagged protocol messages, verified with Verus.

- `src/le.rs`: little-endian encoding of integers (`le_bytes`, `le_value`) and
  the lemmas that the two are inverse.
- `src/buffer.rs`: `WireBuffer`, the spec of every read and write over its view
  (bytes and cursor), and the laws that a value read where it was written is the
  value written.
- `src/header.rs`: `MessageHeader` and the proof that its encoding is a bijection
  with 13-byte arrays.
- `src/message.rs`: `WireMessage` (floating-point fields held as their bit
  patterns), its encoding, a field-by-field decoding spec, and the proof that
  decoding an encoded message gives it back.
- `app/lib.rs`: the `f64` side (reading and writing floats, the message type with
  `f64` fields) and `Display` for the error type.
