//! Codecs for primitive types and fixed-size byte arrays.
use vstd::prelude::*;

use crate::bytes::{
    decode_in_bounds, encode_agrees, encode_matches, splice, write_bytes, DecodeOutcome,
    EncodeOutcome,
};
use crate::error::{DecodeError, EncodeError};
use crate::model::{lemma_models_bytes, Model};
use vstd::slice::slice_subrange;
use crate::{Decoder, DefaultCodec, Encoder, FixedMeasurer, Measurer, SpecCodec};

verus! {

/// A codec for the `u8` type.
pub struct U8Codec;

impl U8Codec {
    pub fn new() -> (c: Self)
        ensures
            c == U8Codec,
    {
        U8Codec
    }
}

impl SpecCodec for U8Codec {
    type Value = u8;

    open spec fn spec_serialize(&self, v: u8) -> Result<Seq<u8>, EncodeError> {
        Ok(seq![v])
    }

    open spec fn spec_encode(&self, v: u8, buf: Seq<u8>, off: int) -> EncodeOutcome {
        write_bytes(buf, off, seq![v])
    }

    open spec fn spec_decode(&self, buf: Seq<u8>, off: int) -> DecodeOutcome<u8> {
        if 0 <= off && off + 1 <= buf.len() {
            (off + 1, Ok(buf[off]))
        } else {
            (off, Err(DecodeError::EOF))
        }
    }

    open spec fn decode_requires(&self, buf: Seq<u8>, off: int) -> bool {
        true
    }

    open spec fn measure_fits(&self, v: u8) -> bool {
        true
    }

    open spec fn prefix_secure(&self) -> bool {
        true
    }

    open spec fn spec_wf(&self, v: u8) -> bool {
        true
    }

    proof fn lemma_encode(&self, v: u8, buf: Seq<u8>, off: int) {
    }

    proof fn lemma_decode(&self, buf: Seq<u8>, off: int) {
    }

    proof fn lemma_measure_fits(&self, v: u8) {
    }

    proof fn lemma_roundtrip(&self, v: u8, pre: Seq<u8>, post: Seq<u8>) {
        assert((pre + seq![v] + post)[pre.len() as int] == v);
    }
}

impl Encoder for U8Codec {
    type Decoded = u8;

    fn encode(&self, decoded: &u8, encoded: &mut [u8], offset: &mut usize) -> (r: Result<
        (),
        EncodeError,
    >) {
        if *offset >= encoded.len() {
            return Err(EncodeError::BufferTooSmall);
        }
        encoded[*offset] = *decoded;
        *offset = *offset + 1;
        proof {
            assert(encoded@ =~= splice(old(encoded)@, *old(offset) as int, seq![*decoded]));
        }
        Ok(())
    }
}

impl<'encoded, 'decoded> Decoder<'encoded, 'decoded> for U8Codec {
    type Decoded = u8;

    fn decode(&self, encoded: &'encoded [u8], offset: &mut usize) -> (r: Result<u8, DecodeError>) {
        if *offset >= encoded.len() {
            return Err(DecodeError::EOF);
        }
        let byte = encoded[*offset];
        *offset = *offset + 1;
        Ok(byte)
    }
}

impl Measurer for U8Codec {
    type Decoded = u8;

    fn measure(&self, decoded: &u8) -> (r: Result<usize, EncodeError>) {
        Ok(self.measure_fixed())
    }
}

impl FixedMeasurer for U8Codec {
    open spec fn spec_fixed_size(&self) -> nat {
        1
    }

    fn measure_fixed(&self) -> (r: usize) {
        1
    }

    proof fn lemma_fixed_size(&self, v: u8) {
    }
}


/// A codec for the `i8` type, as its two's complement byte.
pub struct I8Codec;

impl I8Codec {
    pub fn new() -> (c: Self)
        ensures
            c == I8Codec,
    {
        I8Codec
    }
}

impl SpecCodec for I8Codec {
    type Value = i8;

    open spec fn spec_serialize(&self, v: i8) -> Result<Seq<u8>, EncodeError> {
        Ok(seq![v as u8])
    }

    open spec fn spec_encode(&self, v: i8, buf: Seq<u8>, off: int) -> EncodeOutcome {
        write_bytes(buf, off, seq![v as u8])
    }

    open spec fn spec_decode(&self, buf: Seq<u8>, off: int) -> DecodeOutcome<i8> {
        if 0 <= off && off + 1 <= buf.len() {
            (off + 1, Ok(buf[off] as i8))
        } else {
            (off, Err(DecodeError::EOF))
        }
    }

    open spec fn decode_requires(&self, buf: Seq<u8>, off: int) -> bool {
        true
    }

    open spec fn measure_fits(&self, v: i8) -> bool {
        true
    }

    open spec fn prefix_secure(&self) -> bool {
        true
    }

    open spec fn spec_wf(&self, v: i8) -> bool {
        true
    }

    proof fn lemma_encode(&self, v: i8, buf: Seq<u8>, off: int) {
    }

    proof fn lemma_decode(&self, buf: Seq<u8>, off: int) {
    }

    proof fn lemma_measure_fits(&self, v: i8) {
    }

    proof fn lemma_roundtrip(&self, v: i8, pre: Seq<u8>, post: Seq<u8>) {
        assert((pre + seq![v as u8] + post)[pre.len() as int] == v as u8);
        assert((v as u8) as i8 == v) by (bit_vector);
    }
}

impl Encoder for I8Codec {
    type Decoded = i8;

    fn encode(&self, decoded: &i8, encoded: &mut [u8], offset: &mut usize) -> (r: Result<
        (),
        EncodeError,
    >) {
        if *offset >= encoded.len() {
            return Err(EncodeError::BufferTooSmall);
        }
        encoded[*offset] = *decoded as u8;
        *offset = *offset + 1;
        proof {
            assert(encoded@ =~= splice(old(encoded)@, *old(offset) as int, seq![*decoded as u8]));
        }
        Ok(())
    }
}

impl<'encoded, 'decoded> Decoder<'encoded, 'decoded> for I8Codec {
    type Decoded = i8;

    fn decode(&self, encoded: &'encoded [u8], offset: &mut usize) -> (r: Result<i8, DecodeError>) {
        if *offset >= encoded.len() {
            return Err(DecodeError::EOF);
        }
        let byte = encoded[*offset] as i8;
        *offset = *offset + 1;
        Ok(byte)
    }
}

impl Measurer for I8Codec {
    type Decoded = i8;

    fn measure(&self, decoded: &i8) -> (r: Result<usize, EncodeError>) {
        Ok(self.measure_fixed())
    }
}

impl FixedMeasurer for I8Codec {
    open spec fn spec_fixed_size(&self) -> nat {
        1
    }

    fn measure_fixed(&self) -> (r: usize) {
        1
    }

    proof fn lemma_fixed_size(&self, v: i8) {
    }
}

/// The `N` bytes at `off`, or `EOF` when fewer remain.
pub open spec fn spec_decode_fixed_bytes(buf: Seq<u8>, off: int, n: int) -> DecodeOutcome<Seq<u8>> {
    if 0 <= off && off + n <= buf.len() {
        (off + n, Ok(buf.subrange(off, off + n)))
    } else {
        (off, Err(DecodeError::EOF))
    }
}

/// Views the `N` bytes of a slice of length `N` as an array (the std
/// conversion `<&[u8; N]>::try_from`, which succeeds exactly when the length
/// is `N`).
#[verifier::external_body]
fn slice_as_array<'a, const N: usize>(s: &'a [u8]) -> (r: &'a [u8; N])
    requires
        s@.len() == N,
    ensures
        r@ == s@,
{
    s.try_into().unwrap()
}

/// Copies `src` into `dst` at `off`.
pub(crate) fn copy_into(dst: &mut [u8], off: usize, src: &[u8])
    requires
        off + src@.len() <= old(dst)@.len(),
    ensures
        final(dst)@ == splice(old(dst)@, off as int, src@),
{
    let n = src.len();
    let mut i: usize = 0;
    while i < n
        invariant
            n == src@.len(),
            i <= n,
            dst@.len() == old(dst)@.len(),
            off + n <= dst.len(),
            dst@ =~= splice(old(dst)@, off as int, src@.subrange(0, i as int)),
        decreases n - i,
    {
        dst[off + i] = src[i];
        i = i + 1;
        assert(dst@ =~= splice(old(dst)@, off as int, src@.subrange(0, i as int)));
    }
    assert(src@.subrange(0, n as int) =~= src@);
}

/// Writes `src` at `*offset` when it fits, as one piece.
pub(crate) fn write_slice(src: &[u8], encoded: &mut [u8], offset: &mut usize) -> (r: Result<(), EncodeError>)
    ensures
        encode_matches(write_bytes(old(encoded)@, *old(offset) as int, src@), final(encoded)@, *final(offset), r),
{
    if *offset > encoded.len() || encoded.len() - *offset < src.len() {
        return Err(EncodeError::BufferTooSmall);
    }
    copy_into(encoded, *offset, src);
    *offset = *offset + src.len();
    Ok(())
}

/// A codec for fixed-size arrays of `u8`, written as they are.
pub struct U8ArrayCodec<const N: usize>;

impl<const N: usize> U8ArrayCodec<N> {
    pub fn new() -> (c: Self)
        ensures
            c == U8ArrayCodec::<N>,
    {
        U8ArrayCodec
    }
}

/// A codec for references to fixed-size arrays of `u8`, decoded in place.
pub struct U8ArrayRefCodec<const N: usize>;

impl<const N: usize> U8ArrayRefCodec<N> {
    pub fn new() -> (c: Self)
        ensures
            c == U8ArrayRefCodec::<N>,
    {
        U8ArrayRefCodec
    }
}

impl<const N: usize> SpecCodec for U8ArrayRefCodec<N> {
    type Value = Seq<u8>;

    open spec fn spec_serialize(&self, v: Seq<u8>) -> Result<Seq<u8>, EncodeError> {
        Ok(v)
    }

    open spec fn spec_encode(&self, v: Seq<u8>, buf: Seq<u8>, off: int) -> EncodeOutcome {
        write_bytes(buf, off, v)
    }

    open spec fn spec_decode(&self, buf: Seq<u8>, off: int) -> DecodeOutcome<Seq<u8>> {
        spec_decode_fixed_bytes(buf, off, N as int)
    }

    open spec fn decode_requires(&self, buf: Seq<u8>, off: int) -> bool {
        true
    }

    open spec fn measure_fits(&self, v: Seq<u8>) -> bool {
        v.len() == N
    }

    open spec fn prefix_secure(&self) -> bool {
        true
    }

    open spec fn spec_wf(&self, v: Seq<u8>) -> bool {
        v.len() == N
    }

    proof fn lemma_encode(&self, v: Seq<u8>, buf: Seq<u8>, off: int) {
    }

    proof fn lemma_decode(&self, buf: Seq<u8>, off: int) {
    }

    proof fn lemma_measure_fits(&self, v: Seq<u8>) {
    }

    proof fn lemma_roundtrip(&self, v: Seq<u8>, pre: Seq<u8>, post: Seq<u8>) {
        let b = pre + v + post;
        assert(b.subrange(pre.len() as int, pre.len() + N) =~= v);
    }
}

impl<const N: usize> Encoder for U8ArrayRefCodec<N> {
    type Decoded = [u8; N];

    fn encode(&self, decoded: &[u8; N], encoded: &mut [u8], offset: &mut usize) -> (r: Result<
        (),
        EncodeError,
    >) {
        proof {
            lemma_models_bytes(decoded@);
        }
        write_slice(decoded.as_slice(), encoded, offset)
    }
}

impl<'encoded: 'decoded, 'decoded, const N: usize> Decoder<'encoded, 'decoded> for U8ArrayRefCodec<
    N,
> {
    type Decoded = &'decoded [u8; N];

    fn decode(&self, encoded: &'encoded [u8], offset: &mut usize) -> (r: Result<
        &'decoded [u8; N],
        DecodeError,
    >) {
        if *offset > encoded.len() || encoded.len() - *offset < N {
            return Err(DecodeError::EOF);
        }
        let bytes = slice_subrange(encoded, *offset, *offset + N);
        let array: &[u8; N] = slice_as_array(bytes);
        *offset = *offset + N;
        proof {
            lemma_models_bytes(array@);
            assert(array.model() == bytes@);
        }
        Ok(array)
    }
}

impl<const N: usize> Measurer for U8ArrayRefCodec<N> {
    type Decoded = [u8; N];

    fn measure(&self, decoded: &[u8; N]) -> (r: Result<usize, EncodeError>) {
        Ok(self.measure_fixed())
    }
}

impl<const N: usize> FixedMeasurer for U8ArrayRefCodec<N> {
    open spec fn spec_fixed_size(&self) -> nat {
        N as nat
    }

    fn measure_fixed(&self) -> (r: usize) {
        N
    }

    proof fn lemma_fixed_size(&self, v: Seq<u8>) {
    }
}

impl<const N: usize> SpecCodec for U8ArrayCodec<N> {
    type Value = Seq<u8>;

    open spec fn spec_serialize(&self, v: Seq<u8>) -> Result<Seq<u8>, EncodeError> {
        U8ArrayRefCodec::<N>.spec_serialize(v)
    }

    open spec fn spec_encode(&self, v: Seq<u8>, buf: Seq<u8>, off: int) -> EncodeOutcome {
        U8ArrayRefCodec::<N>.spec_encode(v, buf, off)
    }

    open spec fn spec_decode(&self, buf: Seq<u8>, off: int) -> DecodeOutcome<Seq<u8>> {
        U8ArrayRefCodec::<N>.spec_decode(buf, off)
    }

    open spec fn decode_requires(&self, buf: Seq<u8>, off: int) -> bool {
        true
    }

    open spec fn measure_fits(&self, v: Seq<u8>) -> bool {
        v.len() == N
    }

    open spec fn prefix_secure(&self) -> bool {
        true
    }

    open spec fn spec_wf(&self, v: Seq<u8>) -> bool {
        v.len() == N
    }

    proof fn lemma_encode(&self, v: Seq<u8>, buf: Seq<u8>, off: int) {
    }

    proof fn lemma_decode(&self, buf: Seq<u8>, off: int) {
    }

    proof fn lemma_measure_fits(&self, v: Seq<u8>) {
    }

    proof fn lemma_roundtrip(&self, v: Seq<u8>, pre: Seq<u8>, post: Seq<u8>) {
        U8ArrayRefCodec::<N>.lemma_roundtrip(v, pre, post);
    }
}

impl<const N: usize> Encoder for U8ArrayCodec<N> {
    type Decoded = [u8; N];

    fn encode(&self, decoded: &[u8; N], encoded: &mut [u8], offset: &mut usize) -> (r: Result<
        (),
        EncodeError,
    >) {
        U8ArrayRefCodec::<N>.encode(decoded, encoded, offset)
    }
}

impl<'encoded, 'decoded, const N: usize> Decoder<'encoded, 'decoded> for U8ArrayCodec<N> {
    type Decoded = [u8; N];

    fn decode(&self, encoded: &'encoded [u8], offset: &mut usize) -> (r: Result<
        [u8; N],
        DecodeError,
    >) {
        if *offset > encoded.len() || encoded.len() - *offset < N {
            return Err(DecodeError::EOF);
        }
        let bytes = slice_subrange(encoded, *offset, *offset + N);
        let array: [u8; N] = *slice_as_array(bytes);
        *offset = *offset + N;
        proof {
            lemma_models_bytes(array@);
            assert(array.model() == bytes@);
        }
        Ok(array)
    }
}

impl<const N: usize> Measurer for U8ArrayCodec<N> {
    type Decoded = [u8; N];

    fn measure(&self, decoded: &[u8; N]) -> (r: Result<usize, EncodeError>) {
        Ok(self.measure_fixed())
    }
}

impl<const N: usize> FixedMeasurer for U8ArrayCodec<N> {
    open spec fn spec_fixed_size(&self) -> nat {
        N as nat
    }

    fn measure_fixed(&self) -> (r: usize) {
        N
    }

    proof fn lemma_fixed_size(&self, v: Seq<u8>) {
    }
}

/// A codec for the `bool` type: `false` as the byte 0, `true` as the byte 1.
pub struct BoolCodec;

impl BoolCodec {
    pub fn new() -> (c: Self)
        ensures
            c == BoolCodec,
    {
        BoolCodec
    }
}

/// The byte that stands for a boolean.
pub open spec fn bool_byte(b: bool) -> u8 {
    if b {
        1
    } else {
        0
    }
}

impl SpecCodec for BoolCodec {
    type Value = bool;

    open spec fn spec_serialize(&self, v: bool) -> Result<Seq<u8>, EncodeError> {
        Ok(seq![bool_byte(v)])
    }

    open spec fn spec_encode(&self, v: bool, buf: Seq<u8>, off: int) -> EncodeOutcome {
        write_bytes(buf, off, seq![bool_byte(v)])
    }

    /// A byte is read first; anything but 0 or 1 is invalid.
    open spec fn spec_decode(&self, buf: Seq<u8>, off: int) -> DecodeOutcome<bool> {
        if 0 <= off && off + 1 <= buf.len() {
            if buf[off] == 0 {
                (off + 1, Ok(false))
            } else if buf[off] == 1 {
                (off + 1, Ok(true))
            } else {
                (off + 1, Err(DecodeError::InvalidData))
            }
        } else {
            (off, Err(DecodeError::EOF))
        }
    }

    open spec fn decode_requires(&self, buf: Seq<u8>, off: int) -> bool {
        true
    }

    open spec fn measure_fits(&self, v: bool) -> bool {
        true
    }

    open spec fn prefix_secure(&self) -> bool {
        true
    }

    open spec fn spec_wf(&self, v: bool) -> bool {
        true
    }

    proof fn lemma_encode(&self, v: bool, buf: Seq<u8>, off: int) {
    }

    proof fn lemma_decode(&self, buf: Seq<u8>, off: int) {
    }

    proof fn lemma_measure_fits(&self, v: bool) {
    }

    proof fn lemma_roundtrip(&self, v: bool, pre: Seq<u8>, post: Seq<u8>) {
        assert((pre + seq![bool_byte(v)] + post)[pre.len() as int] == bool_byte(v));
    }
}

impl Encoder for BoolCodec {
    type Decoded = bool;

    fn encode(&self, decoded: &bool, encoded: &mut [u8], offset: &mut usize) -> (r: Result<
        (),
        EncodeError,
    >) {
        let byte: u8 = match decoded {
            false => 0u8,
            true => 1u8,
        };
        U8Codec.encode(&byte, encoded, offset)
    }
}

impl<'encoded, 'decoded> Decoder<'encoded, 'decoded> for BoolCodec {
    type Decoded = bool;

    fn decode(&self, encoded: &'encoded [u8], offset: &mut usize) -> (r: Result<bool, DecodeError>) {
        let byte = match U8Codec.decode(encoded, offset) {
            Ok(byte) => byte,
            Err(e) => return Err(e),
        };
        match byte {
            0 => Ok(false),
            1 => Ok(true),
            _ => Err(DecodeError::InvalidData),
        }
    }
}

impl Measurer for BoolCodec {
    type Decoded = bool;

    fn measure(&self, decoded: &bool) -> (r: Result<usize, EncodeError>) {
        Ok(self.measure_fixed())
    }
}

impl FixedMeasurer for BoolCodec {
    open spec fn spec_fixed_size(&self) -> nat {
        1
    }

    fn measure_fixed(&self) -> (r: usize) {
        1
    }

    proof fn lemma_fixed_size(&self, v: bool) {
    }
}

/// A codec that boxes the decoded value of another codec.
pub struct BoxCodec<Codec>(pub Codec);

impl<Codec> BoxCodec<Codec> {
    pub fn new(codec: Codec) -> (c: Self)
        ensures
            c == BoxCodec(codec),
    {
        BoxCodec(codec)
    }
}

impl<Codec: SpecCodec> SpecCodec for BoxCodec<Codec> {
    type Value = Codec::Value;

    open spec fn spec_serialize(&self, v: Codec::Value) -> Result<Seq<u8>, EncodeError> {
        self.0.spec_serialize(v)
    }

    open spec fn spec_encode(&self, v: Codec::Value, buf: Seq<u8>, off: int) -> EncodeOutcome {
        self.0.spec_encode(v, buf, off)
    }

    open spec fn spec_decode(&self, buf: Seq<u8>, off: int) -> DecodeOutcome<Codec::Value> {
        self.0.spec_decode(buf, off)
    }

    open spec fn decode_requires(&self, buf: Seq<u8>, off: int) -> bool {
        self.0.decode_requires(buf, off)
    }

    open spec fn measure_fits(&self, v: Codec::Value) -> bool {
        self.0.measure_fits(v)
    }

    open spec fn prefix_secure(&self) -> bool {
        self.0.prefix_secure()
    }

    open spec fn spec_wf(&self, v: Codec::Value) -> bool {
        self.0.spec_wf(v)
    }

    proof fn lemma_encode(&self, v: Codec::Value, buf: Seq<u8>, off: int) {
        self.0.lemma_encode(v, buf, off);
    }

    proof fn lemma_decode(&self, buf: Seq<u8>, off: int) {
        self.0.lemma_decode(buf, off);
    }

    proof fn lemma_measure_fits(&self, v: Codec::Value) {
        self.0.lemma_measure_fits(v);
    }

    proof fn lemma_roundtrip(&self, v: Codec::Value, pre: Seq<u8>, post: Seq<u8>) {
        self.0.lemma_roundtrip(v, pre, post);
    }
}

impl<Codec: Encoder> Encoder for BoxCodec<Codec> {
    type Decoded = Box<<Codec as Encoder>::Decoded>;

    fn encode(
        &self,
        decoded: &Box<<Codec as Encoder>::Decoded>,
        encoded: &mut [u8],
        offset: &mut usize,
    ) -> (r: Result<(), EncodeError>) {
        self.0.encode(&**decoded, encoded, offset)
    }
}

impl<'encoded, 'decoded, Codec: Decoder<'encoded, 'decoded>> Decoder<'encoded, 'decoded> for BoxCodec<
    Codec,
> {
    type Decoded = Box<<Codec as Decoder<'encoded, 'decoded>>::Decoded>;

    fn decode(&self, encoded: &'encoded [u8], offset: &mut usize) -> (r: Result<
        Box<<Codec as Decoder<'encoded, 'decoded>>::Decoded>,
        DecodeError,
    >) {
        match self.0.decode(encoded, offset) {
            Ok(decoded) => Ok(Box::new(decoded)),
            Err(e) => Err(e),
        }
    }
}

impl<Codec: Measurer> Measurer for BoxCodec<Codec> {
    type Decoded = Box<<Codec as Measurer>::Decoded>;

    fn measure(&self, decoded: &Box<<Codec as Measurer>::Decoded>) -> (r: Result<
        usize,
        EncodeError,
    >) {
        self.0.measure(&**decoded)
    }
}

impl<Codec: FixedMeasurer> FixedMeasurer for BoxCodec<Codec> {
    open spec fn spec_fixed_size(&self) -> nat {
        self.0.spec_fixed_size()
    }

    fn measure_fixed(&self) -> (r: usize) {
        self.0.measure_fixed()
    }

    proof fn lemma_fixed_size(&self, v: Codec::Value) {
        self.0.lemma_fixed_size(v);
    }
}

} // verus!
