//! Types that encode, decode and measure themselves, and the codec that
//! hands its work to them.
use vstd::prelude::*;

use core::marker::PhantomData;

use crate::bytes::{decode_matches, encode_matches, measure_matches, DecodeOutcome, EncodeOutcome};
use crate::error::{DecodeError, EncodeError};
use crate::model::Model;
use crate::{Decoder, Encoder, FixedMeasurer, Measurer, SpecCodec};

verus! {

/// The meaning of a type's own encoding: it behaves as the codec
/// `spec_codec()` does on the type's model.
pub trait SelfSpec: Model {
    type Codec: SpecCodec<Value = <Self as Model>::M>;

    spec fn spec_codec() -> Self::Codec;
}

/// A type that can decode itself from a byte slice; it behaves as a
/// decoder for itself would.
pub trait Decode<'encoded>: SelfSpec + Sized {
    fn decode(encoded: &'encoded [u8], offset: &mut usize) -> (r: Result<Self, DecodeError>)
        requires
            Self::spec_codec().decode_requires(encoded@, *old(offset) as int),
        ensures
            decode_matches(
                Self::spec_codec().spec_decode(encoded@, *old(offset) as int),
                *final(offset),
                r,
            ),
    ;
}

/// A type that can decode itself from byte slices of every lifetime,
/// returning an owned value.
pub trait DecodeOwned: for<'encoded> Decode<'encoded> + Sized {
    fn decode_owned(encoded: &[u8], offset: &mut usize) -> (r: Result<Self, DecodeError>)
        requires
            Self::spec_codec().decode_requires(encoded@, *old(offset) as int),
        ensures
            decode_matches(
                Self::spec_codec().spec_decode(encoded@, *old(offset) as int),
                *final(offset),
                r,
            ),
    {
        Self::decode(encoded, offset)
    }
}

/// A type that can encode itself into a byte slice; it behaves as an
/// encoder for itself would.
pub trait Encode: SelfSpec {
    fn encode(&self, encoded: &mut [u8], offset: &mut usize) -> (r: Result<(), EncodeError>)
        ensures
            encode_matches(
                Self::spec_codec().spec_encode(self.model(), old(encoded)@, *old(offset) as int),
                final(encoded)@,
                *final(offset),
                r,
            ),
    ;
}

/// A type that can measure the size of its own encoding.
pub trait Measure: SelfSpec {
    fn measure(&self) -> (r: Result<usize, EncodeError>)
        requires
            Self::spec_codec().measure_fits(self.model()),
        ensures
            measure_matches(Self::spec_codec().spec_serialize(self.model()), r),
    ;
}

/// A type whose encoding has the same size for every value; the size is
/// known without a value.
pub trait MeasureFixed: Measure {
    /// The size in bytes of every encoding.
    spec fn spec_fixed_size() -> usize;

    fn measure_fixed() -> (r: usize)
        ensures
            r == Self::spec_fixed_size(),
    ;

    /// Every well-formed value serializes to exactly the fixed size.
    proof fn lemma_fixed_size(v: <Self as Model>::M)
        requires
            Self::spec_codec().spec_wf(v),
        ensures
            Self::spec_codec().spec_serialize(v) is Ok ==> Self::spec_codec().spec_serialize(
                v,
            )->Ok_0.len() == Self::spec_fixed_size(),
    ;
}

/// A codec that hands its work to the `Decode`, `Encode`, `Measure` and
/// `MeasureFixed` implementations of the type it codes.
pub struct SelfCoded<T>(pub PhantomData<T>);

impl<T> SelfCoded<T> {
    pub fn new() -> (c: Self)
        ensures
            c == SelfCoded::<T>(PhantomData),
    {
        SelfCoded(PhantomData)
    }
}

impl<T: SelfSpec> SpecCodec for SelfCoded<T> {
    type Value = <T as Model>::M;

    open spec fn spec_serialize(&self, v: T::M) -> Result<Seq<u8>, EncodeError> {
        T::spec_codec().spec_serialize(v)
    }

    open spec fn spec_encode(&self, v: T::M, buf: Seq<u8>, off: int) -> EncodeOutcome {
        T::spec_codec().spec_encode(v, buf, off)
    }

    open spec fn spec_decode(&self, buf: Seq<u8>, off: int) -> DecodeOutcome<T::M> {
        T::spec_codec().spec_decode(buf, off)
    }

    open spec fn decode_requires(&self, buf: Seq<u8>, off: int) -> bool {
        T::spec_codec().decode_requires(buf, off)
    }

    open spec fn measure_fits(&self, v: T::M) -> bool {
        T::spec_codec().measure_fits(v)
    }

    open spec fn prefix_secure(&self) -> bool {
        T::spec_codec().prefix_secure()
    }

    open spec fn spec_wf(&self, v: T::M) -> bool {
        T::spec_codec().spec_wf(v)
    }

    proof fn lemma_encode(&self, v: T::M, buf: Seq<u8>, off: int) {
        T::spec_codec().lemma_encode(v, buf, off);
    }

    proof fn lemma_decode(&self, buf: Seq<u8>, off: int) {
        T::spec_codec().lemma_decode(buf, off);
    }

    proof fn lemma_measure_fits(&self, v: T::M) {
        T::spec_codec().lemma_measure_fits(v);
    }

    proof fn lemma_roundtrip(&self, v: T::M, pre: Seq<u8>, post: Seq<u8>) {
        T::spec_codec().lemma_roundtrip(v, pre, post);
    }
}

impl<'encoded, 'decoded, T: Decode<'encoded> + 'decoded> Decoder<'encoded, 'decoded> for SelfCoded<
    T,
> {
    type Decoded = T;

    fn decode(&self, encoded: &'encoded [u8], offset: &mut usize) -> (r: Result<T, DecodeError>) {
        T::decode(encoded, offset)
    }
}

impl<T: Encode> Encoder for SelfCoded<T> {
    type Decoded = T;

    fn encode(&self, decoded: &T, encoded: &mut [u8], offset: &mut usize) -> (r: Result<
        (),
        EncodeError,
    >) {
        decoded.encode(encoded, offset)
    }
}

impl<T: Measure> Measurer for SelfCoded<T> {
    type Decoded = T;

    fn measure(&self, decoded: &T) -> (r: Result<usize, EncodeError>) {
        decoded.measure()
    }
}

impl<T: MeasureFixed> FixedMeasurer for SelfCoded<T> {
    open spec fn spec_fixed_size(&self) -> nat {
        T::spec_fixed_size() as nat
    }

    fn measure_fixed(&self) -> (r: usize) {
        T::measure_fixed()
    }

    proof fn lemma_fixed_size(&self, v: T::M) {
        T::lemma_fixed_size(v);
    }
}

} // verus!
