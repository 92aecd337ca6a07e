//! Conveniences on top of the codec traits: coding a value with its type's
//! default codec, and encoding into a fresh buffer of exactly the right size.
use vstd::prelude::*;

use crate::bytes::{decode_matches, encode_matches, splice, DecodeOutcome, EncodeOutcome};
use crate::error::{DecodeError, EncodeError};
use crate::model::Model;
use crate::{Decoder, DefaultCodec, Encoder, Measurer, SpecCodec};

verus! {

/// A vector holds the serialization, or the error is the serialization's.
pub open spec fn vec_matches(ser: Result<Seq<u8>, EncodeError>, r: Result<Vec<u8>, EncodeError>) -> bool {
    match ser {
        Ok(s) => r is Ok && r->Ok_0@ == s,
        Err(e) => r == Err::<Vec<u8>, EncodeError>(e),
    }
}

/// A vector of capacity `N` is made exactly when the serialization exists
/// and fits in it, and then holds the serialization; too long a
/// serialization is `BufferTooSmall`, and a failed one keeps its error.
pub open spec fn bounded_matches<const N: usize>(
    ser: Result<Seq<u8>, EncodeError>,
    r: Result<HeaplessBytes<N>, EncodeError>,
) -> bool {
    match ser {
        Ok(s) => if s.len() <= N {
            r is Ok && r->Ok_0@ == s
        } else {
            r == Err::<HeaplessBytes<N>, EncodeError>(EncodeError::BufferTooSmall)
        },
        Err(e) => r == Err::<HeaplessBytes<N>, EncodeError>(e),
    }
}

/// Measures `decoded`, then encodes it into a zeroed buffer of exactly that
/// size.
fn encode_fresh<C: Encoder<Decoded = D> + Measurer<Decoded = D>, D: ?Sized + Model<
    M = <C as SpecCodec>::Value,
>>(codec: &C, decoded: &D) -> (r: Result<Vec<u8>, EncodeError>)
    requires
        codec.measure_fits(decoded.model()),
    ensures
        vec_matches(codec.spec_serialize(decoded.model()), r),
{
    let size = match codec.measure(decoded) {
        Ok(size) => size,
        Err(e) => return Err(e),
    };
    let mut vec: Vec<u8> = vec![0u8; size];
    let mut offset: usize = 0;
    proof {
        codec.lemma_measure_fits(decoded.model());
        codec.lemma_encode(decoded.model(), vec@, 0);
    }
    let ghost zeros = vec@;
    match codec.encode(decoded, vec.as_mut_slice(), &mut offset) {
        Ok(()) => {},
        Err(e) => return Err(e),
    }
    proof {
        let s = codec.spec_serialize(decoded.model())->Ok_0;
        assert(splice(zeros, 0, s) =~= s);
    }
    Ok(vec)
}

/// The fixed-capacity vector of the `heapless` crate, carried through as it
/// is.
#[verifier::external_type_specification]
#[verifier::external_body]
#[verifier::reject_recursive_types(T)]
pub struct ExHeaplessVec<T, const N: usize>(heapless::Vec<T, N>);

/// Bytes held in a fixed-capacity vector of the `heapless` crate, with the
/// bytes it holds as its view. Only [`heapless_from_slice`] makes one.
pub struct HeaplessBytes<const N: usize> {
    vec: heapless::Vec<u8, N>,
    bytes: Ghost<Seq<u8>>,
}

impl<const N: usize> View for HeaplessBytes<N> {
    type V = Seq<u8>;

    closed spec fn view(&self) -> Seq<u8> {
        self.bytes@
    }
}

/// `heapless::Vec::from_slice`: a vector of capacity `N` holding copies of
/// the bytes, in order; it fails exactly when there are more than `N` of
/// them.
#[verifier::external_body]
fn heapless_from_slice<const N: usize>(bytes: &[u8]) -> (r: Result<HeaplessBytes<N>, ()>)
    ensures
        r is Ok <==> bytes@.len() <= N,
        r matches Ok(h) ==> h@ == bytes@,
{
    match heapless::Vec::from_slice(bytes) {
        Ok(vec) => Ok(HeaplessBytes { vec, bytes: Ghost(bytes@) }),
        Err(()) => Err(()),
    }
}

/// `heapless::Vec::as_slice`: the bytes that the vector holds.
#[verifier::external_body]
fn heapless_as_slice<const N: usize>(h: &HeaplessBytes<N>) -> (r: &[u8])
    ensures
        r@ == h@,
{
    h.vec.as_slice()
}

impl<const N: usize> HeaplessBytes<N> {
    /// The bytes held.
    pub fn as_slice(&self) -> (r: &[u8])
        ensures
            r@ == self@,
    {
        heapless_as_slice(self)
    }

    /// The number of bytes held.
    pub fn len(&self) -> (r: usize)
        ensures
            r == self@.len(),
    {
        heapless_as_slice(self).len()
    }

    /// The `heapless` vector itself.
    pub fn into_inner(self) -> heapless::Vec<u8, N> {
        self.vec
    }
}

/// Encodes into a fresh vector of capacity `N`, refusing with
/// `BufferTooSmall` an encoding longer than that.
fn encode_fresh_bounded<
    C: Encoder<Decoded = D> + Measurer<Decoded = D>,
    D: ?Sized + Model<M = <C as SpecCodec>::Value>,
    const N: usize,
>(codec: &C, decoded: &D) -> (r: Result<HeaplessBytes<N>, EncodeError>)
    requires
        codec.measure_fits(decoded.model()),
    ensures
        bounded_matches::<N>(codec.spec_serialize(decoded.model()), r),
{
    let size = match codec.measure(decoded) {
        Ok(size) => size,
        Err(e) => return Err(e),
    };
    if size > N {
        return Err(EncodeError::BufferTooSmall);
    }
    let bytes = match encode_fresh(codec, decoded) {
        Ok(bytes) => bytes,
        Err(e) => return Err(e),
    };
    match heapless_from_slice::<N>(bytes.as_slice()) {
        Ok(vec) => Ok(vec),
        Err(()) => Err(EncodeError::BufferTooSmall),
    }
}

/// A type that decodes itself with its default codec.
pub trait DecodeDefault<'encoded>: Sized + Model {
    /// The inputs on which decoding with the default codec is defined.
    spec fn default_decode_requires(buf: Seq<u8>, off: int) -> bool;

    /// What decoding with the default codec does.
    spec fn spec_default_decode(buf: Seq<u8>, off: int) -> DecodeOutcome<<Self as Model>::M>;

    fn decode(encoded: &'encoded [u8], offset: &mut usize) -> (r: Result<Self, DecodeError>)
        requires
            Self::default_decode_requires(encoded@, *old(offset) as int),
        ensures
            decode_matches(Self::spec_default_decode(encoded@, *old(offset) as int), *final(offset), r),
    ;
}

impl<
    'encoded,
    'decoded,
    T: DefaultCodec<Codec = C> + Model<M = V> + 'decoded,
    C: Decoder<'encoded, 'decoded, Decoded = T> + SpecCodec<Value = V>,
    V,
> DecodeDefault<'encoded> for T {
    open spec fn default_decode_requires(buf: Seq<u8>, off: int) -> bool {
        T::spec_default_codec().decode_requires(buf, off)
    }

    open spec fn spec_default_decode(buf: Seq<u8>, off: int) -> DecodeOutcome<V> {
        T::spec_default_codec().spec_decode(buf, off)
    }

    fn decode(encoded: &'encoded [u8], offset: &mut usize) -> (r: Result<T, DecodeError>) {
        let codec = T::default_codec();
        let mut local_offset = *offset;
        let r = codec.decode(encoded, &mut local_offset);
        *offset = local_offset;
        r
    }
}

/// A type that encodes itself with its default codec.
pub trait EncodeDefault: Model {
    /// What encoding with the default codec does.
    spec fn spec_default_encode(v: <Self as Model>::M, buf: Seq<u8>, off: int) -> EncodeOutcome;

    fn encode(&self, encoded: &mut [u8], offset: &mut usize) -> (r: Result<(), EncodeError>)
        ensures
            encode_matches(
                Self::spec_default_encode(self.model(), old(encoded)@, *old(offset) as int),
                final(encoded)@,
                *final(offset),
                r,
            ),
    ;
}

impl<
    T: ?Sized + DefaultCodec<Codec = C> + Model<M = V>,
    C: Encoder<Decoded = T> + SpecCodec<Value = V>,
    V,
> EncodeDefault for T {
    open spec fn spec_default_encode(v: V, buf: Seq<u8>, off: int) -> EncodeOutcome {
        T::spec_default_codec().spec_encode(v, buf, off)
    }

    fn encode(&self, encoded: &mut [u8], offset: &mut usize) -> (r: Result<(), EncodeError>) {
        let codec = T::default_codec();
        codec.encode(self, encoded, offset)
    }
}

/// A type that encodes itself, with its default codec, into a fresh vector
/// of exactly the right size.
pub trait EncodeToVec: Model {
    /// The bytes the default codec serializes a value to.
    spec fn spec_default_serialize(v: <Self as Model>::M) -> Result<Seq<u8>, EncodeError>;

    /// Measuring a value with the default codec fits in `usize`.
    spec fn default_measure_fits(v: <Self as Model>::M) -> bool;

    fn encode_to_vec(&self) -> (r: Result<Vec<u8>, EncodeError>)
        requires
            Self::default_measure_fits(self.model()),
        ensures
            vec_matches(Self::spec_default_serialize(self.model()), r),
    ;
}

impl<
    T: ?Sized + DefaultCodec<Codec = C> + Model<M = V>,
    C: Encoder<Decoded = T> + Measurer<Decoded = T> + SpecCodec<Value = V>,
    V,
> EncodeToVec for T {
    open spec fn spec_default_serialize(v: V) -> Result<Seq<u8>, EncodeError> {
        T::spec_default_codec().spec_serialize(v)
    }

    open spec fn default_measure_fits(v: V) -> bool {
        T::spec_default_codec().measure_fits(v)
    }

    fn encode_to_vec(&self) -> (r: Result<Vec<u8>, EncodeError>) {
        let codec = T::default_codec();
        encode_fresh(&codec, self)
    }
}

/// A type that encodes itself, with its default codec, into a fresh vector
/// of capacity `N`.
pub trait EncodeToHeaplessVec: Model {
    /// The bytes the default codec serializes a value to.
    spec fn spec_default_serialize(v: <Self as Model>::M) -> Result<Seq<u8>, EncodeError>;

    /// Measuring a value with the default codec fits in `usize`.
    spec fn default_measure_fits(v: <Self as Model>::M) -> bool;

    fn encode_to_heapless_vec<const N: usize>(&self) -> (r: Result<
        HeaplessBytes<N>,
        EncodeError,
    >)
        requires
            Self::default_measure_fits(self.model()),
        ensures
            bounded_matches::<N>(Self::spec_default_serialize(self.model()), r),
    ;
}

impl<
    T: ?Sized + DefaultCodec<Codec = C> + Model<M = V>,
    C: Encoder<Decoded = T> + Measurer<Decoded = T> + SpecCodec<Value = V>,
    V,
> EncodeToHeaplessVec for T {
    open spec fn spec_default_serialize(v: V) -> Result<Seq<u8>, EncodeError> {
        T::spec_default_codec().spec_serialize(v)
    }

    open spec fn default_measure_fits(v: V) -> bool {
        T::spec_default_codec().measure_fits(v)
    }

    fn encode_to_heapless_vec<const N: usize>(&self) -> (r: Result<
        HeaplessBytes<N>,
        EncodeError,
    >) {
        let codec = T::default_codec();
        encode_fresh_bounded::<C, T, N>(&codec, self)
    }
}

/// A codec that encodes a value into a fresh vector of exactly the right
/// size.
pub trait EncoderToVec: SpecCodec {
    type Decoded: ?Sized + Model<M = <Self as SpecCodec>::Value>;

    fn encode_to_vec(&self, decoded: &Self::Decoded) -> (r: Result<Vec<u8>, EncodeError>)
        requires
            self.measure_fits(decoded.model()),
        ensures
            vec_matches(self.spec_serialize(decoded.model()), r),
    ;
}

impl<
    C: Encoder<Decoded = D> + Measurer<Decoded = D>,
    D: ?Sized + Model<M = <C as SpecCodec>::Value>,
> EncoderToVec for C {
    type Decoded = D;

    fn encode_to_vec(&self, decoded: &D) -> (r: Result<Vec<u8>, EncodeError>) {
        encode_fresh(self, decoded)
    }
}

/// A codec that encodes a value into a fresh vector of capacity `N`.
pub trait EncoderToHeaplessVec: SpecCodec {
    type Decoded: ?Sized + Model<M = <Self as SpecCodec>::Value>;

    fn encode_to_heapless_vec<const N: usize>(&self, decoded: &Self::Decoded) -> (r: Result<
        HeaplessBytes<N>,
        EncodeError,
    >)
        requires
            self.measure_fits(decoded.model()),
        ensures
            bounded_matches::<N>(self.spec_serialize(decoded.model()), r),
    ;
}

impl<
    C: Encoder<Decoded = D> + Measurer<Decoded = D>,
    D: ?Sized + Model<M = <C as SpecCodec>::Value>,
> EncoderToHeaplessVec for C {
    type Decoded = D;

    fn encode_to_heapless_vec<const N: usize>(&self, decoded: &D) -> (r: Result<
        HeaplessBytes<N>,
        EncodeError,
    >) {
        encode_fresh_bounded::<C, D, N>(self, decoded)
    }
}

} // verus!
