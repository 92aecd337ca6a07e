//! A binary codec framework for encoding and decoding Rust values to and
//! from byte slices, with every codec's behaviour stated and proved.
//!
//! Each codec describes, at the level of mathematical values, the bytes a
//! value serializes to ([`SpecCodec::spec_serialize`]) and what encoding and
//! decoding do to a buffer and an offset ([`SpecCodec::spec_encode`],
//! [`SpecCodec::spec_decode`]). The executable traits [`Encoder`],
//! [`Decoder`], [`Measurer`] and [`FixedMeasurer`] are held to those
//! descriptions, and every codec proves the laws that tie them together:
//! encoding writes exactly the serialization when it fits, measuring gives
//! its length, and decoding an encoding gives the value back.
#![allow(unused_imports)]

mod array;
mod attr;
mod asis;
mod bytes;
mod collection;
mod derive;
mod endian;
mod error;
mod laws;
mod model;
mod prelude;
mod schema;
mod selfcoded;
mod str;
mod tuple;
mod util;
mod var;

pub use array::{
    items_decode, items_encode, items_measure_fits, items_serialize, items_wf,
    lemma_items_decode, lemma_items_decode_err, lemma_items_decode_len, lemma_items_encode,
    lemma_items_encode_prefix, lemma_items_fixed, lemma_items_measure_fits,
    lemma_items_measure_fits_prefix, lemma_items_roundtrip, lemma_items_serialize_prefix,
    ArrayCodec,
};
pub use attr::{
    spec_attr_message, apply_step, build_pipeline, codec_expr, lemma_pipeline_err, modifier_groups, operand_type,
    spec_codec_expr, spec_modifier, spec_modifier_groups, spec_pipeline, spec_step, step_wf,
    AttrError, Operand, Step,
};
pub use asis::{
    bool_byte, spec_decode_fixed_bytes, BoolCodec, BoxCodec, I8Codec, U8ArrayCodec, U8ArrayRefCodec,
    U8Codec,
};
pub use bytes::{
    decode_in_bounds, decode_matches, encode_agrees, encode_matches, encode_then,
    lemma_encode_then, lemma_splice_twice, measure_matches, ser_then, splice,
    write_bytes, DecodeOutcome, EncodeOutcome,
};
pub use collection::PrefixedCodec;
pub use derive::{
    derive_decode, derive_decode_owned, derive_default_codec, derive_encode, derive_measure,
    derive_measure_fixed, impl_header, spec_derive_decode, spec_derive_decode_owned,
    spec_derive_default_codec, spec_derive_encode, spec_derive_measure, spec_derive_measure_fixed,
};
pub use endian::{
    be_bytes, be_value, lemma_be_le_reverse, le_bytes, le_value, lemma_be_roundtrip, lemma_le_roundtrip,
    lemma_pow256_facts, lemma_pow256_mono, lemma_pow256_values, lemma_signed_roundtrip,
    lemma_uint_roundtrip, lemma_uint_value_bound, pow256, signed_value, twos_complement,
    uint_bytes, uint_value, EndianCodec, EndianCoded, Endianness, lemma_pow256_is_pow,
    lemma_uint_bytes_digits, lemma_uint_bytes_of_value, lemma_twos_complement_mod,
    lemma_signed_value_inverse,
};
pub use error::{DecodeError, EncodeError};
pub use laws::{
    law_attributes_chain, attr_steps, law_endian_other_order, law_endian_codec_other_order,
    law_encode_into_exact_buffer, items_size, law_items_size, law_array_encoded_size, other_order, law_decode_moves_forward, law_default_roundtrip, law_encode_keeps_rest, law_encode_then_decode,
    law_encode_writes_serialization, law_fixed_size, law_measure_is_encoded_size,
    law_pipeline_concat, law_serialize_then_decode, law_u16_byte_order, law_u32_byte_order,
    law_u64_byte_order, law_u128_byte_order, law_i16_byte_order, law_i32_byte_order,
    law_i64_byte_order, law_i128_byte_order, law_length_from_usize, law_length_to_usize,
    law_fixed_size_of_no_fields, law_fixed_size_unnamed_field, law_fixed_size_named_field,
    law_fixed_size_ignores_names, law_wildcard_pattern_shape, law_fields_decode_text,
    law_fields_measure_text, law_fields_encode_text, law_schema_decode_text,
    law_schema_encode_text, law_schema_measure_text, law_byte_formats, law_option_format,
    law_bytes_format, law_prefixed_format, law_cstr_format, law_modifiers,
    law_steps, law_raw_bytes_formats, law_repr,
};
pub use model::{lemma_models_bytes, models, Model};
pub use prelude::{
    bounded_matches, vec_matches, HeaplessBytes, DecodeDefault, EncodeDefault, EncodeToHeaplessVec, EncodeToVec,
    EncoderToHeaplessVec, EncoderToVec,
};
pub use schema::{
    apply_attribute, attrs_wf, build_codec_expr, build_codec_schema, concat_range, decimal,
    decimal_text, digit_text, discriminant_ref, index_var, join_range, lemma_attributes_err,
    named_bind_piece, named_decode_piece, named_encode_piece, named_fixed_piece,
    named_measure_piece, named_var, repr_type, spec_repr, first_error, lemma_first_error,
    spec_field, field_error, spec_fields_error, fields_input_wf, fields_built, interpret_fields,
    FieldInput, FieldsInput, VariantInput, DataInput, variant_error, variant_built, enum_built,
    spec_schema_message, struct_built, enum_outcome, variants_wf, enum_schema, interpret_derive_schema, spec_apply_attribute, spec_apply_attributes,
    spec_codec_decode, spec_codec_encode, spec_codec_measure, spec_codec_measure_fixed,
    spec_codec_schema, spec_fields_decode, spec_fields_encode, spec_fields_measure,
    spec_fields_measure_fixed, spec_schema_decode, spec_schema_encode, spec_schema_measure,
    spec_schema_measure_fixed, spec_wildcard_pattern, start_operand, unnamed_bind_piece,
    unnamed_decode_piece, unnamed_encode_piece, unnamed_fixed_piece, unnamed_measure_piece,
    variant_decode_piece, variant_encode_piece, variant_measure_piece, variant_path,
    AttrInput, CodecSchema, DecodeContext, DeriveSchema, EncodeContext,
    FieldsSchema, MeasureContext, NamedField, ReprInput, SchemaError, VariantSchema,
};
pub use selfcoded::{Decode, DecodeOwned, Encode, Measure, MeasureFixed, SelfCoded, SelfSpec};
pub use str::{is_c_string, nul_index, CStrCodec, UTF8Codec};
pub use tuple::UnitCodec;
pub use util::{ConstantCoder, Ownable, OwnedCodec, PhantomCodec, PhantomValue, ToOwnedData};
pub use var::{length_of, BytesCodec, LengthValue, OptionCodec, RemainingCodec};

use vstd::prelude::*;

verus! {

/// The meaning of a codec, over mathematical values.
///
/// Besides the descriptions of serialization, encoding and decoding, a codec
/// proves the laws that relate them; the executable traits are held to these
/// descriptions.
pub trait SpecCodec {
    /// The mathematical values this codec encodes.
    type Value;

    /// The bytes that `v` encodes to, or the error that `v` itself causes.
    spec fn spec_serialize(&self, v: Self::Value) -> Result<Seq<u8>, EncodeError>;

    /// Encoding `v` into `buf` at `off`: the buffer, the offset and the
    /// result afterwards.
    spec fn spec_encode(&self, v: Self::Value, buf: Seq<u8>, off: int) -> EncodeOutcome;

    /// Decoding from `buf` at `off`: the offset and the decoded value or error.
    spec fn spec_decode(&self, buf: Seq<u8>, off: int) -> DecodeOutcome<Self::Value>;

    /// The inputs on which decoding is defined.
    spec fn decode_requires(&self, buf: Seq<u8>, off: int) -> bool;

    /// Measuring `v` adds up sizes that all fit in `usize`.
    spec fn measure_fits(&self, v: Self::Value) -> bool;

    /// Bytes after an encoding never change what decoding it gives.
    spec fn prefix_secure(&self) -> bool;

    /// The values that decode back to themselves after encoding.
    spec fn spec_wf(&self, v: Self::Value) -> bool;

    /// Encoding writes exactly the serialization, when it fits.
    proof fn lemma_encode(&self, v: Self::Value, buf: Seq<u8>, off: int)
        requires
            0 <= off,
        ensures
            encode_agrees(self.spec_serialize(v), buf, off, self.spec_encode(v, buf, off)),
    ;

    /// Decoding moves forward within the buffer, and is defined on every
    /// offset inside it.
    proof fn lemma_decode(&self, buf: Seq<u8>, off: int)
        requires
            0 <= off,
        ensures
            decode_in_bounds(buf, off, self.spec_decode(buf, off)),
            off <= buf.len() ==> self.decode_requires(buf, off),
    ;

    /// When measuring fits, so does the length of the serialization.
    proof fn lemma_measure_fits(&self, v: Self::Value)
        requires
            self.measure_fits(v),
        ensures
            self.spec_serialize(v) is Ok ==> self.spec_serialize(v)->Ok_0.len() <= usize::MAX,
    ;

    /// Decoding the serialization of a well-formed value, wherever it stands,
    /// gives the value back and ends right after it.
    proof fn lemma_roundtrip(&self, v: Self::Value, pre: Seq<u8>, post: Seq<u8>)
        requires
            self.spec_wf(v),
            self.spec_serialize(v) is Ok,
            self.prefix_secure() || post.len() == 0,
        ensures
            self.spec_decode(pre + self.spec_serialize(v)->Ok_0 + post, pre.len() as int) == (
            (pre.len() + self.spec_serialize(v)->Ok_0.len()) as int,
            Ok::<Self::Value, DecodeError>(v),
            ),
    ;
}

/// A codec that can encode values of type `Decoded` into a byte slice.
/// It returns a result indicating success or failure but never panics.
///
/// The offset is updated to point to the next position after the encoded
/// data.
pub trait Encoder: SpecCodec {
    type Decoded: ?Sized + Model<M = <Self as SpecCodec>::Value>;

    fn encode(&self, decoded: &Self::Decoded, encoded: &mut [u8], offset: &mut usize) -> (r:
        Result<(), EncodeError>)
        ensures
            encode_matches(
                self.spec_encode(decoded.model(), old(encoded)@, *old(offset) as int),
                final(encoded)@,
                *final(offset),
                r,
            ),
    ;
}

/// A codec that can decode values of type `Decoded` from a byte slice.
///
/// The offset is updated to point to the next position after the decoded
/// data.
pub trait Decoder<'encoded, 'decoded>: SpecCodec {
    type Decoded: 'decoded + Model<M = <Self as SpecCodec>::Value>;

    fn decode(&self, encoded: &'encoded [u8], offset: &mut usize) -> (r: Result<
        Self::Decoded,
        DecodeError,
    >)
        requires
            self.decode_requires(encoded@, *old(offset) as int),
        ensures
            decode_matches(self.spec_decode(encoded@, *old(offset) as int), *final(offset), r),
    ;
}

/// A codec that can measure the size in bytes required to encode a value.
pub trait Measurer: SpecCodec {
    type Decoded: ?Sized + Model<M = <Self as SpecCodec>::Value>;

    fn measure(&self, decoded: &Self::Decoded) -> (r: Result<usize, EncodeError>)
        requires
            self.measure_fits(decoded.model()),
        ensures
            measure_matches(self.spec_serialize(decoded.model()), r),
    ;
}

/// A measurer whose size is the same for every value.
pub trait FixedMeasurer: Measurer {
    /// The size in bytes of every encoding.
    spec fn spec_fixed_size(&self) -> nat;

    fn measure_fixed(&self) -> (r: usize)
        requires
            self.spec_fixed_size() <= usize::MAX,
        ensures
            r == self.spec_fixed_size(),
    ;

    /// Every well-formed value serializes to exactly the fixed size.
    proof fn lemma_fixed_size(&self, v: <Self as SpecCodec>::Value)
        requires
            self.spec_wf(v),
        ensures
            self.spec_serialize(v) is Ok ==> self.spec_serialize(v)->Ok_0.len()
                == self.spec_fixed_size(),
    ;
}

/// A type with a codec associated with it.
pub trait DefaultCodec {
    type Codec;

    spec fn spec_default_codec() -> Self::Codec;

    fn default_codec() -> (c: Self::Codec)
        ensures
            c == Self::spec_default_codec(),
    ;
}

/// A reference to a codec codes as the codec does.
impl<C: SpecCodec> SpecCodec for &C {
    type Value = C::Value;

    open spec fn spec_serialize(&self, v: C::Value) -> Result<Seq<u8>, EncodeError> {
        (**self).spec_serialize(v)
    }

    open spec fn spec_encode(&self, v: C::Value, buf: Seq<u8>, off: int) -> EncodeOutcome {
        (**self).spec_encode(v, buf, off)
    }

    open spec fn spec_decode(&self, buf: Seq<u8>, off: int) -> DecodeOutcome<C::Value> {
        (**self).spec_decode(buf, off)
    }

    open spec fn decode_requires(&self, buf: Seq<u8>, off: int) -> bool {
        (**self).decode_requires(buf, off)
    }

    open spec fn measure_fits(&self, v: C::Value) -> bool {
        (**self).measure_fits(v)
    }

    open spec fn prefix_secure(&self) -> bool {
        (**self).prefix_secure()
    }

    open spec fn spec_wf(&self, v: C::Value) -> bool {
        (**self).spec_wf(v)
    }

    proof fn lemma_encode(&self, v: C::Value, buf: Seq<u8>, off: int) {
        (**self).lemma_encode(v, buf, off);
    }

    proof fn lemma_decode(&self, buf: Seq<u8>, off: int) {
        (**self).lemma_decode(buf, off);
    }

    proof fn lemma_measure_fits(&self, v: C::Value) {
        (**self).lemma_measure_fits(v);
    }

    proof fn lemma_roundtrip(&self, v: C::Value, pre: Seq<u8>, post: Seq<u8>) {
        (**self).lemma_roundtrip(v, pre, post);
    }
}

impl<C: Encoder> Encoder for &C {
    type Decoded = <C as Encoder>::Decoded;

    fn encode(&self, decoded: &Self::Decoded, encoded: &mut [u8], offset: &mut usize) -> (r:
        Result<(), EncodeError>) {
        (**self).encode(decoded, encoded, offset)
    }
}

impl<'encoded, 'decoded, C: Decoder<'encoded, 'decoded>> Decoder<'encoded, 'decoded> for &C {
    type Decoded = <C as Decoder<'encoded, 'decoded>>::Decoded;

    fn decode(&self, encoded: &'encoded [u8], offset: &mut usize) -> (r: Result<
        Self::Decoded,
        DecodeError,
    >) {
        (**self).decode(encoded, offset)
    }
}

impl<C: Measurer> Measurer for &C {
    type Decoded = <C as Measurer>::Decoded;

    fn measure(&self, decoded: &Self::Decoded) -> (r: Result<usize, EncodeError>) {
        (**self).measure(decoded)
    }
}

impl<C: FixedMeasurer> FixedMeasurer for &C {
    open spec fn spec_fixed_size(&self) -> nat {
        (**self).spec_fixed_size()
    }

    fn measure_fixed(&self) -> (r: usize) {
        (**self).measure_fixed()
    }

    proof fn lemma_fixed_size(&self, v: C::Value) {
        (**self).lemma_fixed_size(v);
    }
}

/// A boxed codec codes as the codec does.
impl<C: SpecCodec> SpecCodec for Box<C> {
    type Value = C::Value;

    open spec fn spec_serialize(&self, v: C::Value) -> Result<Seq<u8>, EncodeError> {
        (**self).spec_serialize(v)
    }

    open spec fn spec_encode(&self, v: C::Value, buf: Seq<u8>, off: int) -> EncodeOutcome {
        (**self).spec_encode(v, buf, off)
    }

    open spec fn spec_decode(&self, buf: Seq<u8>, off: int) -> DecodeOutcome<C::Value> {
        (**self).spec_decode(buf, off)
    }

    open spec fn decode_requires(&self, buf: Seq<u8>, off: int) -> bool {
        (**self).decode_requires(buf, off)
    }

    open spec fn measure_fits(&self, v: C::Value) -> bool {
        (**self).measure_fits(v)
    }

    open spec fn prefix_secure(&self) -> bool {
        (**self).prefix_secure()
    }

    open spec fn spec_wf(&self, v: C::Value) -> bool {
        (**self).spec_wf(v)
    }

    proof fn lemma_encode(&self, v: C::Value, buf: Seq<u8>, off: int) {
        (**self).lemma_encode(v, buf, off);
    }

    proof fn lemma_decode(&self, buf: Seq<u8>, off: int) {
        (**self).lemma_decode(buf, off);
    }

    proof fn lemma_measure_fits(&self, v: C::Value) {
        (**self).lemma_measure_fits(v);
    }

    proof fn lemma_roundtrip(&self, v: C::Value, pre: Seq<u8>, post: Seq<u8>) {
        (**self).lemma_roundtrip(v, pre, post);
    }
}

impl<C: Encoder> Encoder for Box<C> {
    type Decoded = <C as Encoder>::Decoded;

    fn encode(&self, decoded: &Self::Decoded, encoded: &mut [u8], offset: &mut usize) -> (r:
        Result<(), EncodeError>) {
        (**self).encode(decoded, encoded, offset)
    }
}

impl<'encoded, 'decoded, C: Decoder<'encoded, 'decoded>> Decoder<'encoded, 'decoded> for Box<C> {
    type Decoded = <C as Decoder<'encoded, 'decoded>>::Decoded;

    fn decode(&self, encoded: &'encoded [u8], offset: &mut usize) -> (r: Result<
        Self::Decoded,
        DecodeError,
    >) {
        (**self).decode(encoded, offset)
    }
}

impl<C: Measurer> Measurer for Box<C> {
    type Decoded = <C as Measurer>::Decoded;

    fn measure(&self, decoded: &Self::Decoded) -> (r: Result<usize, EncodeError>) {
        (**self).measure(decoded)
    }
}

impl<C: FixedMeasurer> FixedMeasurer for Box<C> {
    open spec fn spec_fixed_size(&self) -> nat {
        (**self).spec_fixed_size()
    }

    fn measure_fixed(&self) -> (r: usize) {
        (**self).measure_fixed()
    }

    proof fn lemma_fixed_size(&self, v: C::Value) {
        (**self).lemma_fixed_size(v);
    }
}

impl DefaultCodec for u8 {
    type Codec = U8Codec;

    open spec fn spec_default_codec() -> U8Codec {
        U8Codec
    }

    fn default_codec() -> (c: U8Codec) {
        U8Codec
    }
}

impl DefaultCodec for i8 {
    type Codec = I8Codec;

    open spec fn spec_default_codec() -> I8Codec {
        I8Codec
    }

    fn default_codec() -> (c: I8Codec) {
        I8Codec
    }
}

impl<const N: usize> DefaultCodec for [u8; N] {
    type Codec = U8ArrayCodec<N>;

    open spec fn spec_default_codec() -> U8ArrayCodec<N> {
        U8ArrayCodec::<N>
    }

    fn default_codec() -> (c: U8ArrayCodec<N>) {
        U8ArrayCodec::<N>
    }
}

impl<const N: usize> DefaultCodec for &[u8; N] {
    type Codec = U8ArrayRefCodec<N>;

    open spec fn spec_default_codec() -> U8ArrayRefCodec<N> {
        U8ArrayRefCodec::<N>
    }

    fn default_codec() -> (c: U8ArrayRefCodec<N>) {
        U8ArrayRefCodec::<N>
    }
}

impl DefaultCodec for bool {
    type Codec = BoolCodec;

    open spec fn spec_default_codec() -> BoolCodec {
        BoolCodec
    }

    fn default_codec() -> (c: BoolCodec) {
        BoolCodec
    }
}

impl<T: DefaultCodec + ?Sized> DefaultCodec for Box<T> {
    type Codec = BoxCodec<T::Codec>;

    open spec fn spec_default_codec() -> BoxCodec<T::Codec> {
        BoxCodec(T::spec_default_codec())
    }

    fn default_codec() -> (c: BoxCodec<T::Codec>) {
        BoxCodec(T::default_codec())
    }
}

impl<T: DefaultCodec> DefaultCodec for Option<T> {
    type Codec = OptionCodec<T::Codec>;

    open spec fn spec_default_codec() -> OptionCodec<T::Codec> {
        OptionCodec(T::spec_default_codec())
    }

    fn default_codec() -> (c: OptionCodec<T::Codec>) {
        OptionCodec::new(T::default_codec())
    }
}

} // verus!
