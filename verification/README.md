# kacrab-protocol

Encoders and decoders for the messages of the Kafka wire protocol, with their
behaviour specified and proved in Verus.

Every message is a plain Rust struct with a `Default`, `with_*` builders,
`read` (decode from a `bytes::Bytes`), `write` (append to a `bytes::BytesMut`)
and, where it has one, `encoded_len`. Each of them is specified against a
mathematical view of the message (`...View`) and two spec functions,
`spec_read` and `spec_write`, which describe the wire format of every version
field by field. `lemma_round_trip` on each message proves that reading back
what `write` appended gives the message again, for every message that the
version can carry.

Layout of `src/`:

- `buffer.rs`: the `bytes` buffers as the specification sees them (trusted
  wrappers of the few `bytes` operations used).
- `wire.rs`: the vocabulary of read and write outcomes.
- `ints.rs`, `varint.rs`, `strings.rs`, `tagged.rs`, `codec.rs`: the
  primitive encodings (big-endian integers, unsigned varints, strings, byte
  strings, arrays, tagged fields) with their round-trip lemmas.
- `types.rs`: protocol strings, UUIDs and raw tagged fields.
- `error.rs`, `error_code.rs`: decoding errors and the protocol's error codes.
- `messages/`: one module per message.
