# byten

A binary codec library for encoding and decoding Rust values to and from
byte slices, written in Verus: every codec states what it does over
mathematical values, and the laws that tie encoding, decoding and measuring
together are proved.

## Layout

- `src/lib.rs`: the codec traits. `SpecCodec` gives a codec's meaning
  (the bytes a value serializes to, what encoding and decoding do to a buffer
  and an offset) and the proofs of its laws; `Encoder`, `Decoder`,
  `Measurer` and `FixedMeasurer` are held to that meaning; `DefaultCodec`
  names the codec of a type.
- `src/bytes.rs`, `src/model.rs`: the vocabulary of the contracts (splicing
  bytes into a buffer, the outcomes of encoding and decoding, the
  mathematical model of a Rust value).
- `src/asis.rs`, `src/endian.rs`, `src/var.rs`, `src/str.rs`, `src/util.rs`,
  `src/tuple.rs`, `src/array.rs`, `src/collection.rs`: the codecs.
- `src/selfcoded.rs`, `src/prelude.rs`: types that code themselves, default
  codecs, and encoding into fresh vectors.
- `src/laws.rs`: the laws that hold of every codec and of the attribute
  language.
- `src/attr.rs`, `src/schema.rs`, `src/derive.rs`: the `#[byten(...)]`
  attribute language and the code that the derive macros generate, as
  source text.
- `app/`: the error types with their messages, and the front end of the
  derive macros, which reads Rust syntax with `syn`.
- `tests/`: tests of the codecs, the defaults, the self-coded types, the
  laws and the generated code.
