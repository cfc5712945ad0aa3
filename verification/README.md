# tls_codec

Encoding and decoding of the TLS presentation language, verified with Verus.

- `src/codec.rs`: the codec traits and the model their contracts speak of
  (`WireEncoding`, `WireDecoding`).
- `src/be.rs`: unsigned integers in network byte order.
- `src/uint.rs`, `src/u24.rs`: `u8`, `u16`, `U24`, `u32`, `u64`.
- `src/option.rs`, `src/tuple.rs`, `src/unit.rs`, `src/boxed.rs`: optional
  values, pairs and triples, `()` and `PhantomData`, boxes.
- `src/detached.rs`: encoding into a fresh vector, decoding all of an input.
- `src/laws.rs`: what holds of every wire format: decoding undoes encoding,
  and a decodable input is the one encoding of its value.
- `app/`: adapters to `std::io` writers and readers.
