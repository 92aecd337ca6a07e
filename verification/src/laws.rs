//! The laws of the library. Those of every codec are stated over the
//! meaning that the executable traits are held to: `spec_encode` for
//! `Encoder::encode`, `spec_decode` for `Decoder::decode`, `spec_serialize`
//! for `Measurer::measure` and the vector encoders. Beside them stand the
//! byte layouts of the codecs, the conversions of lengths, what the
//! attribute language builds, and the code that the derive macros generate.
use vstd::prelude::*;

use vstd::arithmetic::power::pow;

use crate::array::{items_serialize, ArrayCodec};
use crate::asis::{BoolCodec, I8Codec, U8ArrayCodec, U8Codec};
use crate::attr::{
    spec_codec_expr, spec_modifier, spec_modifier_groups, spec_pipeline, spec_step, AttrError,
    Operand, Step,
};
use crate::bytes::{encode_agrees, splice};
use crate::collection::PrefixedCodec;
use crate::endian::{
    lemma_pow256_is_pow, lemma_pow256_values, lemma_signed_value_inverse, lemma_twos_complement_mod,
    lemma_uint_bytes_digits, lemma_uint_bytes_of_value, lemma_uint_value_bound, twos_complement,
    uint_value, EndianCodec, EndianCoded, Endianness,
};
use crate::error::{DecodeError, EncodeError};
use crate::model::Model;
use crate::prelude::{DecodeDefault, EncodeToVec};
use crate::schema::{
    concat_range, decimal, join_range, named_bind_piece, named_decode_piece, named_encode_piece,
    named_fixed_piece, named_measure_piece, spec_apply_attribute, spec_apply_attributes,
    spec_fields_decode, spec_fields_encode, spec_fields_measure, spec_fields_measure_fixed,
    spec_repr, spec_schema_decode, spec_schema_encode, spec_schema_measure,
    spec_schema_measure_fixed, spec_wildcard_pattern, unnamed_bind_piece, unnamed_decode_piece,
    unnamed_encode_piece, unnamed_fixed_piece, unnamed_measure_piece, variant_decode_piece,
    variant_encode_piece, variant_measure_piece, AttrInput, CodecSchema, DeriveSchema,
    FieldsSchema, NamedField, ReprInput, SchemaError, VariantSchema,
};
use crate::str::CStrCodec;
use crate::var::{BytesCodec, LengthValue, OptionCodec, RemainingCodec};
use crate::{Decoder, DefaultCodec, Encoder, FixedMeasurer, Measurer, SpecCodec};

verus! {

/// Decoding gives back what encoding wrote: after a successful encode of a
/// well-formed value at `off`, decoding the buffer at `off` yields the value
/// and ends where the encode ended. Bytes after the encoding do not matter
/// for a prefix-secure codec; for another one the encoding must reach the
/// end of the buffer.
pub proof fn law_encode_then_decode<C: SpecCodec>(c: C, v: C::Value, buf: Seq<u8>, off: int)
    requires
        0 <= off <= buf.len(),
        c.spec_wf(v),
        c.spec_encode(v, buf, off).2 is Ok,
        c.prefix_secure() || c.spec_encode(v, buf, off).1 == buf.len(),
    ensures
        c.spec_decode(c.spec_encode(v, buf, off).0, off) == (
            c.spec_encode(v, buf, off).1,
            Ok::<C::Value, DecodeError>(v),
        ),
{
    c.lemma_encode(v, buf, off);
    let out = c.spec_encode(v, buf, off);
    let s = c.spec_serialize(v)->Ok_0;
    let pre = buf.subrange(0, off);
    let post = buf.subrange(off + s.len(), buf.len() as int);
    assert(out.0 =~= pre + s + post);
    c.lemma_roundtrip(v, pre, post);
}

/// Decoding the serialization of a well-formed value, as a vector encoder
/// returns it, gives the value back and consumes all of it.
pub proof fn law_serialize_then_decode<C: SpecCodec>(c: C, v: C::Value)
    requires
        c.spec_wf(v),
        c.spec_serialize(v) is Ok,
    ensures
        c.spec_decode(c.spec_serialize(v)->Ok_0, 0) == (
            c.spec_serialize(v)->Ok_0.len() as int,
            Ok::<C::Value, DecodeError>(v),
        ),
{
    let s = c.spec_serialize(v)->Ok_0;
    let e = Seq::<u8>::empty();
    assert(e + s + e =~= s);
    c.lemma_roundtrip(v, e, e);
}

/// Measuring tells how much room encoding takes, at any offset: encoding
/// succeeds whenever the serialization exists and fits after `off`, a
/// successful encode moves the offset by the measured size, and one that
/// does not fit (only an empty serialization past the end of the buffer can
/// succeed so) writes nothing.
pub proof fn law_measure_is_encoded_size<C: SpecCodec>(c: C, v: C::Value, buf: Seq<u8>, off: int)
    requires
        0 <= off,
    ensures
        (c.spec_serialize(v) is Ok && off + c.spec_serialize(v)->Ok_0.len() <= buf.len()) ==> c.spec_encode(
            v,
            buf,
            off,
        ).2 is Ok,
        c.spec_encode(v, buf, off).2 is Ok ==> c.spec_serialize(v) is Ok && c.spec_encode(
            v,
            buf,
            off,
        ).1 == off + c.spec_serialize(v)->Ok_0.len(),
        (c.spec_encode(v, buf, off).2 is Ok && off + c.spec_serialize(v)->Ok_0.len() > buf.len())
            ==> c.spec_serialize(v)->Ok_0.len() == 0 && c.spec_encode(v, buf, off).0 == buf,
        off <= buf.len() ==> (c.spec_encode(v, buf, off).2 is Ok <==> (c.spec_serialize(v) is Ok
            && off + c.spec_serialize(v)->Ok_0.len() <= buf.len())),
{
    c.lemma_encode(v, buf, off);
}

/// A successful encode changes only the bytes it wrote: every byte before
/// `off` or after the new offset keeps its value, and the buffer keeps its
/// length.
pub proof fn law_encode_keeps_rest<C: SpecCodec>(
    c: C,
    v: C::Value,
    buf: Seq<u8>,
    off: int,
    i: int,
)
    requires
        0 <= off,
        c.spec_encode(v, buf, off).2 is Ok,
        0 <= i < buf.len(),
        i < off || c.spec_encode(v, buf, off).1 <= i,
    ensures
        c.spec_encode(v, buf, off).0.len() == buf.len(),
        c.spec_encode(v, buf, off).0[i] == buf[i],
{
    c.lemma_encode(v, buf, off);
}

/// A successful encode writes exactly the serialization: the bytes between
/// `off` and the new offset are the ones that measuring and the vector
/// encoders give, whatever the buffer held before.
pub proof fn law_encode_writes_serialization<C: SpecCodec>(
    c: C,
    v: C::Value,
    buf: Seq<u8>,
    off: int,
)
    requires
        0 <= off <= buf.len(),
        c.spec_encode(v, buf, off).2 is Ok,
    ensures
        c.spec_encode(v, buf, off).0.subrange(off, c.spec_encode(v, buf, off).1)
            == c.spec_serialize(v)->Ok_0,
{
    c.lemma_encode(v, buf, off);
    let s = c.spec_serialize(v)->Ok_0;
    assert(splice(buf, off, s).subrange(off, off + s.len()) =~= s);
}

/// Decoding never moves the offset backwards, and once it moves, it stays
/// within the buffer.
pub proof fn law_decode_moves_forward<C: SpecCodec>(c: C, buf: Seq<u8>, off: int)
    requires
        0 <= off,
    ensures
        off <= c.spec_decode(buf, off).0,
        c.spec_decode(buf, off).0 == off || c.spec_decode(buf, off).0 <= buf.len(),
{
    c.lemma_decode(buf, off);
}

/// A fixed-size codec measures every well-formed value at its fixed size,
/// and encoding one moves the offset by exactly that size.
pub proof fn law_fixed_size<C: FixedMeasurer>(c: C, v: C::Value, buf: Seq<u8>, off: int)
    requires
        c.spec_wf(v),
        0 <= off,
    ensures
        c.spec_serialize(v) is Ok ==> c.spec_serialize(v)->Ok_0.len() == c.spec_fixed_size(),
        c.spec_encode(v, buf, off).2 is Ok ==> c.spec_encode(v, buf, off).1 == off
            + c.spec_fixed_size(),
{
    c.lemma_fixed_size(v);
    c.lemma_encode(v, buf, off);
}

/// A pipeline can be read in two parts: running the steps `a` and then
/// the steps `b` from where `a` ended is running `a` followed by `b`.
pub proof fn law_pipeline_concat(start: Operand, a: Seq<Step>, b: Seq<Step>)
    ensures
        spec_pipeline(start, a + b) == match spec_pipeline(start, a) {
            Ok(op) => spec_pipeline(op, b),
            Err(e) => Err::<Operand, AttrError>(e),
        },
    decreases b.len(),
{
    if b.len() == 0 {
        assert(a + b =~= a);
    } else {
        assert((a + b).drop_last() =~= a + b.drop_last());
        assert((a + b).last() == b.last());
        law_pipeline_concat(start, a, b.drop_last());
    }
}

/// The steps of all the `#[byten(...)]` attributes, one attribute after the
/// other; other attributes add none.
pub open spec fn attr_steps(attrs: Seq<AttrInput>) -> Seq<Step>
    decreases attrs.len(),
{
    if attrs.len() == 0 {
        Seq::empty()
    } else {
        attr_steps(attrs.drop_last()) + match attrs.last() {
            AttrInput::List(steps) => steps@,
            _ => Seq::empty(),
        }
    }
}

/// The `#[byten(...)]` attributes of a field chain into one pipeline: as
/// long as none has another form, applying them one after the other builds
/// what the pipeline of all their steps, in order, builds; attributes other
/// than `byten` change nothing.
pub proof fn law_attributes_chain(start: Operand, attrs: Seq<AttrInput>)
    requires
        forall|i: int| 0 <= i < attrs.len() ==> !(#[trigger] attrs[i] is Invalid),
    ensures
        spec_apply_attributes(start, attrs) == match spec_pipeline(start, attr_steps(attrs)) {
            Ok(op) => Ok::<Operand, SchemaError>(op),
            Err(e) => Err::<Operand, SchemaError>(SchemaError::Attr(e)),
        },
    decreases attrs.len(),
{
    if attrs.len() > 0 {
        let dl = attrs.drop_last();
        assert forall|i: int| 0 <= i < dl.len() implies !(#[trigger] dl[i] is Invalid) by {
            assert(dl[i] == attrs[i]);
        }
        law_attributes_chain(start, dl);
        assert(!(attrs[attrs.len() - 1] is Invalid));
        match attrs.last() {
            AttrInput::List(steps) => {
                law_pipeline_concat(start, attr_steps(dl), steps@);
            },
            _ => {
                assert(attr_steps(attrs) =~= attr_steps(dl));
            },
        }
    }
}

/// A value encoded to a vector with its type's default codec decodes back,
/// with the same default codec, to itself, consuming the whole vector.
pub proof fn law_default_roundtrip<
    'encoded,
    'decoded,
    T: DefaultCodec<Codec = C> + Model<M = V> + 'decoded,
    C: Decoder<'encoded, 'decoded, Decoded = T> + Encoder<Decoded = T> + Measurer<Decoded = T>
        + SpecCodec<Value = V>,
    V,
>(v: V)
    requires
        T::spec_default_codec().spec_wf(v),
        <T as EncodeToVec>::spec_default_serialize(v) is Ok,
    ensures
        <T as DecodeDefault<'encoded>>::spec_default_decode(
            <T as EncodeToVec>::spec_default_serialize(v)->Ok_0,
            0,
        ) == (
            <T as EncodeToVec>::spec_default_serialize(v)->Ok_0.len() as int,
            Ok::<V, DecodeError>(v),
        ),
{
    law_serialize_then_decode(T::spec_default_codec(), v);
}

/// The other byte order.
pub open spec fn other_order(e: Endianness) -> Endianness {
    match e {
        Endianness::Big => Endianness::Little,
        Endianness::Little => Endianness::Big,
    }
}

/// Bytes written in one byte order and read in the other give the value
/// with its bytes swapped: the value whose bytes, in the first order, are
/// the written bytes reversed.
pub proof fn law_endian_other_order<T: EndianCoded>(v: T, e: Endianness)
    ensures
        T::spec_from_bytes(other_order(e), T::spec_to_bytes(v, e)) == T::spec_from_bytes(
            e,
            T::spec_to_bytes(v, e).reverse(),
        ),
{
    let s = T::spec_to_bytes(v, e);
    match e {
        Endianness::Big => {
            T::lemma_byte_order(s.reverse());
            assert(s.reverse().reverse() =~= s);
        },
        Endianness::Little => {
            T::lemma_byte_order(s);
        },
    }
}

/// Decoding, in the other byte order, what an endian codec encoded gives
/// the value with its bytes swapped, and ends where the encode ended.
pub proof fn law_endian_codec_other_order<T: EndianCoded>(
    v: T,
    e: Endianness,
    buf: Seq<u8>,
    off: int,
)
    requires
        0 <= off <= buf.len(),
        (EndianCodec::<T> { endianness: e, _marker: core::marker::PhantomData }).spec_encode(
            v,
            buf,
            off,
        ).2 is Ok,
    ensures
        ({
            let c = EndianCodec::<T> { endianness: e, _marker: core::marker::PhantomData };
            let other = EndianCodec::<T> {
                endianness: other_order(e),
                _marker: core::marker::PhantomData,
            };
            other.spec_decode(c.spec_encode(v, buf, off).0, off) == (
                c.spec_encode(v, buf, off).1,
                Ok::<T, DecodeError>(T::spec_from_bytes(e, T::spec_to_bytes(v, e).reverse())),
            )
        }),
{
    let c = EndianCodec::<T> { endianness: e, _marker: core::marker::PhantomData };
    let s = T::spec_to_bytes(v, e);
    T::lemma_endian_roundtrip(v, e);
    c.lemma_encode(v, buf, off);
    let out = c.spec_encode(v, buf, off);
    assert(out.0.subrange(off, off + s.len()) =~= s);
    law_endian_other_order(v, e);
}

/// A `u16` is written on 2 bytes: big-endian puts the most significant
/// byte first, little-endian the least significant first, and reading any
/// 2 bytes gives the value that is written as those bytes.
pub proof fn law_u16_byte_order(v: u16)
    ensures
        <u16 as EndianCoded>::spec_to_bytes(v, Endianness::Big).len() == 2,
        <u16 as EndianCoded>::spec_to_bytes(v, Endianness::Little).len() == 2,
        forall|i: int|
            0 <= i < 2 ==> #[trigger] <u16 as EndianCoded>::spec_to_bytes(v, Endianness::Big)[i]
                == (v as int / pow(256, (1 - i) as nat)) % 256,
        forall|i: int|
            0 <= i < 2 ==> #[trigger] <u16 as EndianCoded>::spec_to_bytes(v, Endianness::Little)[i]
                == (v as int / pow(256, i as nat)) % 256,
        forall|e: Endianness, s: Seq<u8>|
            s.len() == 2 ==> #[trigger] <u16 as EndianCoded>::spec_to_bytes(
                <u16 as EndianCoded>::spec_from_bytes(e, s),
                e,
            ) == s,
{
    lemma_pow256_values();
    lemma_uint_bytes_digits(v as nat, 2);
    assert forall|e: Endianness, s: Seq<u8>|
        s.len() == 2 implies #[trigger] <u16 as EndianCoded>::spec_to_bytes(
            <u16 as EndianCoded>::spec_from_bytes(e, s),
            e,
        ) == s by {
        lemma_uint_value_bound(e, s);
        lemma_uint_bytes_of_value(e, s);
    }
}

/// A `u32` is written on 4 bytes: big-endian puts the most significant
/// byte first, little-endian the least significant first, and reading any
/// 4 bytes gives the value that is written as those bytes.
pub proof fn law_u32_byte_order(v: u32)
    ensures
        <u32 as EndianCoded>::spec_to_bytes(v, Endianness::Big).len() == 4,
        <u32 as EndianCoded>::spec_to_bytes(v, Endianness::Little).len() == 4,
        forall|i: int|
            0 <= i < 4 ==> #[trigger] <u32 as EndianCoded>::spec_to_bytes(v, Endianness::Big)[i]
                == (v as int / pow(256, (3 - i) as nat)) % 256,
        forall|i: int|
            0 <= i < 4 ==> #[trigger] <u32 as EndianCoded>::spec_to_bytes(v, Endianness::Little)[i]
                == (v as int / pow(256, i as nat)) % 256,
        forall|e: Endianness, s: Seq<u8>|
            s.len() == 4 ==> #[trigger] <u32 as EndianCoded>::spec_to_bytes(
                <u32 as EndianCoded>::spec_from_bytes(e, s),
                e,
            ) == s,
{
    lemma_pow256_values();
    lemma_uint_bytes_digits(v as nat, 4);
    assert forall|e: Endianness, s: Seq<u8>|
        s.len() == 4 implies #[trigger] <u32 as EndianCoded>::spec_to_bytes(
            <u32 as EndianCoded>::spec_from_bytes(e, s),
            e,
        ) == s by {
        lemma_uint_value_bound(e, s);
        lemma_uint_bytes_of_value(e, s);
    }
}

/// A `u64` is written on 8 bytes: big-endian puts the most significant
/// byte first, little-endian the least significant first, and reading any
/// 8 bytes gives the value that is written as those bytes.
pub proof fn law_u64_byte_order(v: u64)
    ensures
        <u64 as EndianCoded>::spec_to_bytes(v, Endianness::Big).len() == 8,
        <u64 as EndianCoded>::spec_to_bytes(v, Endianness::Little).len() == 8,
        forall|i: int|
            0 <= i < 8 ==> #[trigger] <u64 as EndianCoded>::spec_to_bytes(v, Endianness::Big)[i]
                == (v as int / pow(256, (7 - i) as nat)) % 256,
        forall|i: int|
            0 <= i < 8 ==> #[trigger] <u64 as EndianCoded>::spec_to_bytes(v, Endianness::Little)[i]
                == (v as int / pow(256, i as nat)) % 256,
        forall|e: Endianness, s: Seq<u8>|
            s.len() == 8 ==> #[trigger] <u64 as EndianCoded>::spec_to_bytes(
                <u64 as EndianCoded>::spec_from_bytes(e, s),
                e,
            ) == s,
{
    lemma_pow256_values();
    lemma_uint_bytes_digits(v as nat, 8);
    assert forall|e: Endianness, s: Seq<u8>|
        s.len() == 8 implies #[trigger] <u64 as EndianCoded>::spec_to_bytes(
            <u64 as EndianCoded>::spec_from_bytes(e, s),
            e,
        ) == s by {
        lemma_uint_value_bound(e, s);
        lemma_uint_bytes_of_value(e, s);
    }
}

/// A `u128` is written on 16 bytes: big-endian puts the most significant
/// byte first, little-endian the least significant first, and reading any
/// 16 bytes gives the value that is written as those bytes.
pub proof fn law_u128_byte_order(v: u128)
    ensures
        <u128 as EndianCoded>::spec_to_bytes(v, Endianness::Big).len() == 16,
        <u128 as EndianCoded>::spec_to_bytes(v, Endianness::Little).len() == 16,
        forall|i: int|
            0 <= i < 16 ==> #[trigger] <u128 as EndianCoded>::spec_to_bytes(v, Endianness::Big)[i]
                == (v as int / pow(256, (15 - i) as nat)) % 256,
        forall|i: int|
            0 <= i < 16 ==> #[trigger] <u128 as EndianCoded>::spec_to_bytes(v, Endianness::Little)[i]
                == (v as int / pow(256, i as nat)) % 256,
        forall|e: Endianness, s: Seq<u8>|
            s.len() == 16 ==> #[trigger] <u128 as EndianCoded>::spec_to_bytes(
                <u128 as EndianCoded>::spec_from_bytes(e, s),
                e,
            ) == s,
{
    lemma_pow256_values();
    lemma_uint_bytes_digits(v as nat, 16);
    assert forall|e: Endianness, s: Seq<u8>|
        s.len() == 16 implies #[trigger] <u128 as EndianCoded>::spec_to_bytes(
            <u128 as EndianCoded>::spec_from_bytes(e, s),
            e,
        ) == s by {
        lemma_uint_value_bound(e, s);
        lemma_uint_bytes_of_value(e, s);
    }
}

/// An `i16` is written on 2 bytes in two's complement: big-endian puts the
/// most significant byte first, little-endian the least significant first,
/// and reading any 2 bytes gives the value that is written as those bytes.
pub proof fn law_i16_byte_order(v: i16)
    ensures
        <i16 as EndianCoded>::spec_to_bytes(v, Endianness::Big).len() == 2,
        <i16 as EndianCoded>::spec_to_bytes(v, Endianness::Little).len() == 2,
        forall|i: int|
            0 <= i < 2 ==> #[trigger] <i16 as EndianCoded>::spec_to_bytes(v, Endianness::Big)[i]
                == ((v as int % pow(256, 2)) / pow(256, (1 - i) as nat)) % 256,
        forall|i: int|
            0 <= i < 2 ==> #[trigger] <i16 as EndianCoded>::spec_to_bytes(v, Endianness::Little)[i]
                == ((v as int % pow(256, 2)) / pow(256, i as nat)) % 256,
        forall|e: Endianness, s: Seq<u8>|
            s.len() == 2 ==> #[trigger] <i16 as EndianCoded>::spec_to_bytes(
                <i16 as EndianCoded>::spec_from_bytes(e, s),
                e,
            ) == s,
{
    lemma_pow256_values();
    lemma_pow256_is_pow(2);
    lemma_twos_complement_mod(v as int, 2);
    lemma_uint_bytes_digits(twos_complement(v as int, 2), 2);
    assert forall|e: Endianness, s: Seq<u8>|
        s.len() == 2 implies #[trigger] <i16 as EndianCoded>::spec_to_bytes(
            <i16 as EndianCoded>::spec_from_bytes(e, s),
            e,
        ) == s by {
        lemma_uint_value_bound(e, s);
        lemma_signed_value_inverse(uint_value(e, s), 2);
        lemma_uint_bytes_of_value(e, s);
    }
}

/// An `i32` is written on 4 bytes in two's complement: big-endian puts the
/// most significant byte first, little-endian the least significant first,
/// and reading any 4 bytes gives the value that is written as those bytes.
pub proof fn law_i32_byte_order(v: i32)
    ensures
        <i32 as EndianCoded>::spec_to_bytes(v, Endianness::Big).len() == 4,
        <i32 as EndianCoded>::spec_to_bytes(v, Endianness::Little).len() == 4,
        forall|i: int|
            0 <= i < 4 ==> #[trigger] <i32 as EndianCoded>::spec_to_bytes(v, Endianness::Big)[i]
                == ((v as int % pow(256, 4)) / pow(256, (3 - i) as nat)) % 256,
        forall|i: int|
            0 <= i < 4 ==> #[trigger] <i32 as EndianCoded>::spec_to_bytes(v, Endianness::Little)[i]
                == ((v as int % pow(256, 4)) / pow(256, i as nat)) % 256,
        forall|e: Endianness, s: Seq<u8>|
            s.len() == 4 ==> #[trigger] <i32 as EndianCoded>::spec_to_bytes(
                <i32 as EndianCoded>::spec_from_bytes(e, s),
                e,
            ) == s,
{
    lemma_pow256_values();
    lemma_pow256_is_pow(4);
    lemma_twos_complement_mod(v as int, 4);
    lemma_uint_bytes_digits(twos_complement(v as int, 4), 4);
    assert forall|e: Endianness, s: Seq<u8>|
        s.len() == 4 implies #[trigger] <i32 as EndianCoded>::spec_to_bytes(
            <i32 as EndianCoded>::spec_from_bytes(e, s),
            e,
        ) == s by {
        lemma_uint_value_bound(e, s);
        lemma_signed_value_inverse(uint_value(e, s), 4);
        lemma_uint_bytes_of_value(e, s);
    }
}

/// An `i64` is written on 8 bytes in two's complement: big-endian puts the
/// most significant byte first, little-endian the least significant first,
/// and reading any 8 bytes gives the value that is written as those bytes.
pub proof fn law_i64_byte_order(v: i64)
    ensures
        <i64 as EndianCoded>::spec_to_bytes(v, Endianness::Big).len() == 8,
        <i64 as EndianCoded>::spec_to_bytes(v, Endianness::Little).len() == 8,
        forall|i: int|
            0 <= i < 8 ==> #[trigger] <i64 as EndianCoded>::spec_to_bytes(v, Endianness::Big)[i]
                == ((v as int % pow(256, 8)) / pow(256, (7 - i) as nat)) % 256,
        forall|i: int|
            0 <= i < 8 ==> #[trigger] <i64 as EndianCoded>::spec_to_bytes(v, Endianness::Little)[i]
                == ((v as int % pow(256, 8)) / pow(256, i as nat)) % 256,
        forall|e: Endianness, s: Seq<u8>|
            s.len() == 8 ==> #[trigger] <i64 as EndianCoded>::spec_to_bytes(
                <i64 as EndianCoded>::spec_from_bytes(e, s),
                e,
            ) == s,
{
    lemma_pow256_values();
    lemma_pow256_is_pow(8);
    lemma_twos_complement_mod(v as int, 8);
    lemma_uint_bytes_digits(twos_complement(v as int, 8), 8);
    assert forall|e: Endianness, s: Seq<u8>|
        s.len() == 8 implies #[trigger] <i64 as EndianCoded>::spec_to_bytes(
            <i64 as EndianCoded>::spec_from_bytes(e, s),
            e,
        ) == s by {
        lemma_uint_value_bound(e, s);
        lemma_signed_value_inverse(uint_value(e, s), 8);
        lemma_uint_bytes_of_value(e, s);
    }
}

/// An `i128` is written on 16 bytes in two's complement: big-endian puts the
/// most significant byte first, little-endian the least significant first,
/// and reading any 16 bytes gives the value that is written as those bytes.
pub proof fn law_i128_byte_order(v: i128)
    ensures
        <i128 as EndianCoded>::spec_to_bytes(v, Endianness::Big).len() == 16,
        <i128 as EndianCoded>::spec_to_bytes(v, Endianness::Little).len() == 16,
        forall|i: int|
            0 <= i < 16 ==> #[trigger] <i128 as EndianCoded>::spec_to_bytes(v, Endianness::Big)[i]
                == ((v as int % pow(256, 16)) / pow(256, (15 - i) as nat)) % 256,
        forall|i: int|
            0 <= i < 16 ==> #[trigger] <i128 as EndianCoded>::spec_to_bytes(v, Endianness::Little)[i]
                == ((v as int % pow(256, 16)) / pow(256, i as nat)) % 256,
        forall|e: Endianness, s: Seq<u8>|
            s.len() == 16 ==> #[trigger] <i128 as EndianCoded>::spec_to_bytes(
                <i128 as EndianCoded>::spec_from_bytes(e, s),
                e,
            ) == s,
{
    lemma_pow256_values();
    lemma_pow256_is_pow(16);
    lemma_twos_complement_mod(v as int, 16);
    lemma_uint_bytes_digits(twos_complement(v as int, 16), 16);
    assert forall|e: Endianness, s: Seq<u8>|
        s.len() == 16 implies #[trigger] <i128 as EndianCoded>::spec_to_bytes(
            <i128 as EndianCoded>::spec_from_bytes(e, s),
            e,
        ) == s by {
        lemma_uint_value_bound(e, s);
        lemma_signed_value_inverse(uint_value(e, s), 16);
        lemma_uint_bytes_of_value(e, s);
    }
}

/// A length converts to an integer type exactly when it fits the type, and
/// then keeps its value: a `u8` takes every length up to 255, a `u16` up to
/// 65535, a `u32` up to 4294967295, an `i8` up to 127, an `i16` up to 32767,
/// an `i32` up to 2147483647, an `i64` up to 9223372036854775807 and an
/// `isize` up to its maximum; the wider types take every length.
pub proof fn law_length_from_usize(n: usize)
    ensures
        <u8 as LengthValue>::spec_from_usize(n) == if n <= 0xff {
            Some(n as u8)
        } else {
            None
        },
        <u16 as LengthValue>::spec_from_usize(n) == if n <= 0xffff {
            Some(n as u16)
        } else {
            None
        },
        <u32 as LengthValue>::spec_from_usize(n) == if n <= 0xffff_ffff {
            Some(n as u32)
        } else {
            None
        },
        <u64 as LengthValue>::spec_from_usize(n) == Some(n as u64),
        <u128 as LengthValue>::spec_from_usize(n) == Some(n as u128),
        <usize as LengthValue>::spec_from_usize(n) == Some(n),
        <i8 as LengthValue>::spec_from_usize(n) == if n <= 0x7f {
            Some(n as i8)
        } else {
            None
        },
        <i16 as LengthValue>::spec_from_usize(n) == if n <= 0x7fff {
            Some(n as i16)
        } else {
            None
        },
        <i32 as LengthValue>::spec_from_usize(n) == if n <= 0x7fff_ffff {
            Some(n as i32)
        } else {
            None
        },
        <i64 as LengthValue>::spec_from_usize(n) == if n <= 0x7fff_ffff_ffff_ffff {
            Some(n as i64)
        } else {
            None
        },
        <i128 as LengthValue>::spec_from_usize(n) == Some(n as i128),
        <isize as LengthValue>::spec_from_usize(n) == if n <= isize::MAX {
            Some(n as isize)
        } else {
            None
        },
{
}

/// A stored length converts to a `usize` exactly when it is a number of
/// that type, neither negative nor above `usize::MAX`, and then keeps its
/// value.
pub proof fn law_length_to_usize(a: u8, b: u16, c: u32, d: u64, e: u128, f: usize, g: i8, h: i16, i: i32, j: i64, k: i128, l: isize)
    ensures
        <u8 as LengthValue>::spec_to_usize(a) == Some(a as usize),
        <u16 as LengthValue>::spec_to_usize(b) == Some(b as usize),
        <u32 as LengthValue>::spec_to_usize(c) == if c <= usize::MAX {
            Some(c as usize)
        } else {
            None
        },
        <u64 as LengthValue>::spec_to_usize(d) == if d <= usize::MAX {
            Some(d as usize)
        } else {
            None
        },
        <u128 as LengthValue>::spec_to_usize(e) == if e <= usize::MAX {
            Some(e as usize)
        } else {
            None
        },
        <usize as LengthValue>::spec_to_usize(f) == Some(f),
        <i8 as LengthValue>::spec_to_usize(g) == if 0 <= g {
            Some(g as usize)
        } else {
            None
        },
        <i16 as LengthValue>::spec_to_usize(h) == if 0 <= h {
            Some(h as usize)
        } else {
            None
        },
        <i32 as LengthValue>::spec_to_usize(i) == if 0 <= i {
            Some(i as usize)
        } else {
            None
        },
        <i64 as LengthValue>::spec_to_usize(j) == if 0 <= j && j <= usize::MAX {
            Some(j as usize)
        } else {
            None
        },
        <i128 as LengthValue>::spec_to_usize(k) == if 0 <= k && k <= usize::MAX {
            Some(k as usize)
        } else {
            None
        },
        <isize as LengthValue>::spec_to_usize(l) == if 0 <= l {
            Some(l as usize)
        } else {
            None
        },
{
}

/// Pieces that agree one by one make the same text.
proof fn lemma_concat_range_agree(n: nat, f: spec_fn(nat) -> Seq<char>, g: spec_fn(nat) -> Seq<char>)
    requires
        forall|k: nat| k < n ==> #[trigger] f(k) == g(k),
    ensures
        concat_range(n, f) == concat_range(n, g),
    decreases n,
{
    if n > 0 {
        lemma_concat_range_agree((n - 1) as nat, f, g);
    }
}

/// The derived fixed size of no fields at all is `0`, whether the struct or
/// variant is written with braces, with parentheses or with neither.
pub proof fn law_fixed_size_of_no_fields(fs: Vec<NamedField>, cs: Vec<CodecSchema>)
    requires
        fs@.len() == 0,
        cs@.len() == 0,
    ensures
        spec_fields_measure_fixed(FieldsSchema::Named(fs)) == seq!['0'],
        spec_fields_measure_fixed(FieldsSchema::Unnamed(cs)) == seq!['0'],
        spec_fields_measure_fixed(FieldsSchema::Unit) == seq!['0'],
{
    reveal_strlit("0");
    assert(concat_range(0, named_fixed_piece(fs@)) =~= Seq::<char>::empty());
    assert(concat_range(0, unnamed_fixed_piece(cs@)) =~= Seq::<char>::empty());
    assert(seq!['0'] + Seq::<char>::empty() =~= seq!['0']);
}

/// Each unnamed field adds the fixed size of its codec to the derived fixed
/// size, as one more term at the end of the sum.
pub proof fn law_fixed_size_unnamed_field(cs: Vec<CodecSchema>, more: Vec<CodecSchema>, c: CodecSchema)
    requires
        more@ == cs@.push(c),
    ensures
        spec_fields_measure_fixed(FieldsSchema::Unnamed(more)) == spec_fields_measure_fixed(
            FieldsSchema::Unnamed(cs),
        ) + " + ::byten::FixedMeasurer::measure_fixed(&"@ + c.expr@ + ")"@,
{
    let n = cs@.len();
    let f = unnamed_fixed_piece(cs@);
    let g = unnamed_fixed_piece(more@);
    assert forall|k: nat| k < n implies #[trigger] g(k) == f(k) by {
        assert(more@[k as int] == cs@[k as int]);
    }
    lemma_concat_range_agree(n, g, f);
    assert(more@[n as int] == c);
    reveal_strlit(" + ");
    reveal_strlit("::byten::FixedMeasurer::measure_fixed(&");
    reveal_strlit(" + ::byten::FixedMeasurer::measure_fixed(&");
    assert(" + "@ + "::byten::FixedMeasurer::measure_fixed(&"@ =~= " + ::byten::FixedMeasurer::measure_fixed(&"@);
    assert(spec_fields_measure_fixed(FieldsSchema::Unnamed(more)) =~= spec_fields_measure_fixed(
        FieldsSchema::Unnamed(cs),
    ) + " + ::byten::FixedMeasurer::measure_fixed(&"@ + c.expr@ + ")"@);
}

/// Each named field adds the fixed size of its codec to the derived fixed
/// size, as one more term at the end of the sum.
pub proof fn law_fixed_size_named_field(fs: Vec<NamedField>, more: Vec<NamedField>, f: NamedField)
    requires
        more@ == fs@.push(f),
    ensures
        spec_fields_measure_fixed(FieldsSchema::Named(more)) == spec_fields_measure_fixed(
            FieldsSchema::Named(fs),
        ) + " + ::byten::FixedMeasurer::measure_fixed(&"@ + f.codec.expr@ + ")"@,
{
    let n = fs@.len();
    let p = named_fixed_piece(fs@);
    let q = named_fixed_piece(more@);
    assert forall|k: nat| k < n implies #[trigger] q(k) == p(k) by {
        assert(more@[k as int] == fs@[k as int]);
    }
    lemma_concat_range_agree(n, q, p);
    assert(more@[n as int] == f);
    reveal_strlit(" + ");
    reveal_strlit("::byten::FixedMeasurer::measure_fixed(&");
    reveal_strlit(" + ::byten::FixedMeasurer::measure_fixed(&");
    assert(" + "@ + "::byten::FixedMeasurer::measure_fixed(&"@ =~= " + ::byten::FixedMeasurer::measure_fixed(&"@);
    assert(spec_fields_measure_fixed(FieldsSchema::Named(more)) =~= spec_fields_measure_fixed(
        FieldsSchema::Named(fs),
    ) + " + ::byten::FixedMeasurer::measure_fixed(&"@ + f.codec.expr@ + ")"@);
}

/// Named and unnamed fields with the same codecs, in the same order, have
/// the same derived fixed size: the names play no part in it.
pub proof fn law_fixed_size_ignores_names(fs: Vec<NamedField>, cs: Vec<CodecSchema>)
    requires
        fs@.len() == cs@.len(),
        forall|k: int| 0 <= k < cs@.len() ==> #[trigger] fs@[k].codec.expr@ == cs@[k].expr@,
    ensures
        spec_fields_measure_fixed(FieldsSchema::Named(fs)) == spec_fields_measure_fixed(
            FieldsSchema::Unnamed(cs),
        ),
{
    let p = named_fixed_piece(fs@);
    let q = unnamed_fixed_piece(cs@);
    assert forall|k: nat| k < cs@.len() implies #[trigger] p(k) == q(k) by {
        assert(fs@[k as int].codec.expr@ == cs@[k as int].expr@);
    }
    lemma_concat_range_agree(cs@.len(), p, q);
}

/// The pattern that matches a struct or variant whatever its fields hold
/// has the shape of its fields: `{ .. }` for named fields, `( .. )` for
/// unnamed ones and nothing for none, the same brackets that open and close
/// the expression that decodes those fields.
pub proof fn law_wildcard_pattern_shape(
    fs: Vec<NamedField>,
    cs: Vec<CodecSchema>,
    encoded: Seq<char>,
    offset: Seq<char>,
)
    ensures
        spec_wildcard_pattern(FieldsSchema::Named(fs)) == seq!['{', ' ', '.', '.', ' ', '}'],
        spec_wildcard_pattern(FieldsSchema::Unnamed(cs)) == seq!['(', ' ', '.', '.', ' ', ')'],
        spec_wildcard_pattern(FieldsSchema::Unit) == Seq::<char>::empty(),
        spec_fields_decode(FieldsSchema::Named(fs), encoded, offset).first() == '{',
        spec_fields_decode(FieldsSchema::Named(fs), encoded, offset).last() == '}',
        spec_fields_decode(FieldsSchema::Unnamed(cs), encoded, offset).first() == '(',
        spec_fields_decode(FieldsSchema::Unnamed(cs), encoded, offset).last() == ')',
{
    reveal_strlit("{ .. }");
    reveal_strlit("( .. )");
    reveal_strlit("{ ");
    reveal_strlit(" }");
    reveal_strlit("( ");
    reveal_strlit(" )");
    assert("{ .. }"@ =~= seq!['{', ' ', '.', '.', ' ', '}']);
    assert("( .. )"@ =~= seq!['(', ' ', '.', '.', ' ', ')']);
}

/// The derived decoding of fields decodes each field with its codec, in
/// order, from the same buffer and offset: `{ a: <decode A>, b: <decode B> }`
/// for named fields, `( <decode A>, <decode B> )` for unnamed ones and
/// nothing for none.
pub proof fn law_fields_decode_text(
    fs: Vec<NamedField>,
    cs: Vec<CodecSchema>,
    encoded: Seq<char>,
    offset: Seq<char>,
)
    ensures
        spec_fields_decode(FieldsSchema::Named(fs), encoded, offset) == "{ "@ + join_range(
            fs@.len(),
            ", "@,
            |k: nat|
                fs@[k as int].ident@ + ": "@ + "::byten::Decoder::decode(&"@
                    + fs@[k as int].codec.expr@ + ", "@ + encoded + ", "@ + offset + ")?"@,
        ) + " }"@,
        spec_fields_decode(FieldsSchema::Unnamed(cs), encoded, offset) == "( "@ + join_range(
            cs@.len(),
            ", "@,
            |k: nat|
                "::byten::Decoder::decode(&"@ + cs@[k as int].expr@ + ", "@ + encoded + ", "@
                    + offset + ")?"@,
        ) + " )"@,
        spec_fields_decode(FieldsSchema::Unit, encoded, offset) == Seq::<char>::empty(),
{
    let f = named_decode_piece(fs@, encoded, offset);
    let g = |k: nat|
        fs@[k as int].ident@ + ": "@ + "::byten::Decoder::decode(&"@ + fs@[k as int].codec.expr@
            + ", "@ + encoded + ", "@ + offset + ")?"@;
    assert forall|k: nat| #[trigger] f(k) == g(k) by {
        assert(f(k) =~= g(k));
    }
    assert(f =~= g);
    let h = unnamed_decode_piece(cs@, encoded, offset);
    let j = |k: nat|
        "::byten::Decoder::decode(&"@ + cs@[k as int].expr@ + ", "@ + encoded + ", "@ + offset
            + ")?"@;
    assert forall|k: nat| #[trigger] h(k) == j(k) by {
        assert(h(k) =~= j(k));
    }
    assert(h =~= j);
}

/// The derived measuring of fields takes the value apart by the path
/// `wrapper`, binding each field to a variable, and adds the measured size
/// of each field, in order, to `0`; with no fields it is `0`.
pub proof fn law_fields_measure_text(
    fs: Vec<NamedField>,
    cs: Vec<CodecSchema>,
    wrapper: Seq<char>,
    decoded: Seq<char>,
)
    ensures
        spec_fields_measure(FieldsSchema::Named(fs), wrapper, decoded) == "{ let "@ + wrapper
            + " { "@ + concat_range(
            fs@.len(),
            |k: nat| fs@[k as int].ident@ + ": "@ + ("variant_"@ + fs@[k as int].ident@) + ", "@,
        ) + "} = "@ + decoded + " else { unreachable!() }; 0"@ + concat_range(
            fs@.len(),
            |k: nat|
                " + "@ + ("::byten::Measurer::measure(&"@ + fs@[k as int].codec.expr@ + ", "@ + (
                "variant_"@ + fs@[k as int].ident@) + ")?"@),
        ) + " }"@,
        spec_fields_measure(FieldsSchema::Unnamed(cs), wrapper, decoded) == "{ let "@ + wrapper
            + " ( "@ + join_range(cs@.len(), ", "@, |k: nat| "variant_"@ + decimal(k)) + " ) = "@
            + decoded + " else { unreachable!() }; 0"@ + concat_range(
            cs@.len(),
            |k: nat|
                " + "@ + ("::byten::Measurer::measure(&"@ + cs@[k as int].expr@ + ", "@ + (
                "variant_"@ + decimal(k)) + ")?"@),
        ) + " }"@,
        spec_fields_measure(FieldsSchema::Unit, wrapper, decoded) == "0"@,
{
    let a = named_bind_piece(fs@);
    let a2 = |k: nat| fs@[k as int].ident@ + ": "@ + ("variant_"@ + fs@[k as int].ident@) + ", "@;
    assert(a =~= a2);
    let b = named_measure_piece(fs@);
    let b2 = |k: nat|
        " + "@ + ("::byten::Measurer::measure(&"@ + fs@[k as int].codec.expr@ + ", "@ + (
        "variant_"@ + fs@[k as int].ident@) + ")?"@);
    assert(b =~= b2);
    let c = unnamed_bind_piece();
    let c2 = |k: nat| "variant_"@ + decimal(k);
    assert(c =~= c2);
    let d = unnamed_measure_piece(cs@);
    let d2 = |k: nat|
        " + "@ + ("::byten::Measurer::measure(&"@ + cs@[k as int].expr@ + ", "@ + ("variant_"@
            + decimal(k)) + ")?"@);
    assert(d =~= d2);
}

/// The derived encoding of fields takes the value apart by the path
/// `wrapper`, binding each field to a variable, and then encodes each
/// field with its codec, in order, into the same buffer and offset; with
/// no fields it does nothing.
pub proof fn law_fields_encode_text(
    fs: Vec<NamedField>,
    cs: Vec<CodecSchema>,
    wrapper: Seq<char>,
    decoded: Seq<char>,
    encoded: Seq<char>,
    offset: Seq<char>,
)
    ensures
        spec_fields_encode(FieldsSchema::Named(fs), wrapper, decoded, encoded, offset) == "let "@
            + wrapper + " { "@ + concat_range(
            fs@.len(),
            |k: nat| fs@[k as int].ident@ + ": "@ + ("variant_"@ + fs@[k as int].ident@) + ", "@,
        ) + "} = "@ + decoded + " else { unreachable!() }; "@ + concat_range(
            fs@.len(),
            |k: nat|
                "::byten::Encoder::encode(&"@ + fs@[k as int].codec.expr@ + ", "@ + ("variant_"@
                    + fs@[k as int].ident@) + ", "@ + encoded + ", "@ + offset + ")?"@ + "; "@,
        ),
        spec_fields_encode(FieldsSchema::Unnamed(cs), wrapper, decoded, encoded, offset) == "let "@
            + wrapper + " ( "@ + join_range(cs@.len(), ", "@, |k: nat| "variant_"@ + decimal(k))
            + " ) = "@ + decoded + " else { unreachable!() }; "@ + concat_range(
            cs@.len(),
            |k: nat|
                "::byten::Encoder::encode(&"@ + cs@[k as int].expr@ + ", "@ + ("variant_"@
                    + decimal(k)) + ", "@ + encoded + ", "@ + offset + ")?"@ + "; "@,
        ),
        spec_fields_encode(FieldsSchema::Unit, wrapper, decoded, encoded, offset)
            == Seq::<char>::empty(),
{
    let a = named_bind_piece(fs@);
    let a2 = |k: nat| fs@[k as int].ident@ + ": "@ + ("variant_"@ + fs@[k as int].ident@) + ", "@;
    assert(a =~= a2);
    let b = named_encode_piece(fs@, encoded, offset);
    let b2 = |k: nat|
        "::byten::Encoder::encode(&"@ + fs@[k as int].codec.expr@ + ", "@ + ("variant_"@
            + fs@[k as int].ident@) + ", "@ + encoded + ", "@ + offset + ")?"@ + "; "@;
    assert(b =~= b2);
    let c = unnamed_bind_piece();
    let c2 = |k: nat| "variant_"@ + decimal(k);
    assert(c =~= c2);
    let d = unnamed_encode_piece(cs@, encoded, offset);
    let d2 = |k: nat|
        "::byten::Encoder::encode(&"@ + cs@[k as int].expr@ + ", "@ + ("variant_"@ + decimal(k))
            + ", "@ + encoded + ", "@ + offset + ")?"@ + "; "@;
    assert(d =~= d2);
}

/// The derived decoding of a struct builds the struct from its decoded
/// fields. That of an enum decodes the discriminant with the discriminant's
/// codec, then matches it against the discriminant of each variant, in
/// order, and builds that variant from its decoded fields; any other
/// discriminant is an `InvalidDiscriminant` error.
pub proof fn law_schema_decode_text(
    ident: String,
    fields: FieldsSchema,
    discriminator: CodecSchema,
    vs: Vec<VariantSchema>,
    encoded: Seq<char>,
    offset: Seq<char>,
)
    ensures
        spec_schema_decode(DeriveSchema::Struct { ident: ident, fields: fields }, encoded, offset)
            == ident@ + " "@ + spec_fields_decode(fields, encoded, offset),
        spec_schema_decode(
            DeriveSchema::Enum { ident: ident, discriminator: discriminator, variants: vs },
            encoded,
            offset,
        ) == "{ let discriminant = "@ + ("::byten::Decoder::decode(&"@ + discriminator.expr@
            + ", "@ + encoded + ", "@ + offset + ")?"@) + "; match discriminant { "@ + join_range(
            vs@.len(),
            ", "@,
            |k: nat|
                vs@[k as int].discriminant@ + " => { Ok("@ + (ident@ + "::"@ + vs@[k as int].ident@)
                    + " "@ + spec_fields_decode(vs@[k as int].fields, encoded, offset) + ") }"@,
        ) + ", _ => Err(::byten::DecodeError::InvalidDiscriminant), }? }"@,
{
    let f = variant_decode_piece(ident@, vs@, encoded, offset);
    let g = |k: nat|
        vs@[k as int].discriminant@ + " => { Ok("@ + (ident@ + "::"@ + vs@[k as int].ident@) + " "@
            + spec_fields_decode(vs@[k as int].fields, encoded, offset) + ") }"@;
    assert(f =~= g);
}

/// The derived encoding of a struct encodes its fields. That of an enum
/// matches the value against each variant, in order, by a pattern of the
/// variant's shape, encodes the variant's discriminant with the
/// discriminant's codec and then the variant's fields.
pub proof fn law_schema_encode_text(
    ident: String,
    fields: FieldsSchema,
    discriminator: CodecSchema,
    vs: Vec<VariantSchema>,
    wrapper: Seq<char>,
    decoded: Seq<char>,
    encoded: Seq<char>,
    offset: Seq<char>,
)
    ensures
        spec_schema_encode(
            DeriveSchema::Struct { ident: ident, fields: fields },
            wrapper,
            decoded,
            encoded,
            offset,
        ) == spec_fields_encode(fields, wrapper, decoded, encoded, offset),
        spec_schema_encode(
            DeriveSchema::Enum { ident: ident, discriminator: discriminator, variants: vs },
            wrapper,
            decoded,
            encoded,
            offset,
        ) == "match "@ + decoded + " { "@ + join_range(
            vs@.len(),
            ", "@,
            |k: nat|
                "variant @ "@ + (ident@ + "::"@ + vs@[k as int].ident@) + " "@
                    + spec_wildcard_pattern(vs@[k as int].fields) + " => { "@ + (
                "::byten::Encoder::encode(&"@ + discriminator.expr@ + ", "@ + ("(&"@
                    + vs@[k as int].discriminant@ + ")"@) + ", "@ + encoded + ", "@ + offset
                    + ")?"@) + "; "@ + spec_fields_encode(
                    vs@[k as int].fields,
                    ident@ + "::"@ + vs@[k as int].ident@,
                    "variant"@,
                    encoded,
                    offset,
                ) + " }"@,
        ) + " }"@,
{
    let f = variant_encode_piece(ident@, discriminator.expr@, vs@, encoded, offset);
    let g = |k: nat|
        "variant @ "@ + (ident@ + "::"@ + vs@[k as int].ident@) + " "@ + spec_wildcard_pattern(
            vs@[k as int].fields,
        ) + " => { "@ + ("::byten::Encoder::encode(&"@ + discriminator.expr@ + ", "@ + ("(&"@
            + vs@[k as int].discriminant@ + ")"@) + ", "@ + encoded + ", "@ + offset + ")?"@)
            + "; "@ + spec_fields_encode(
            vs@[k as int].fields,
            ident@ + "::"@ + vs@[k as int].ident@,
            "variant"@,
            encoded,
            offset,
        ) + " }"@;
    assert(f =~= g);
}

/// The derived measuring of a struct measures its fields. That of an enum
/// matches the value against each variant, in order, by a pattern of the
/// variant's shape, and adds the measured size of the variant's
/// discriminant to that of its fields. Only a struct has a fixed size.
pub proof fn law_schema_measure_text(
    ident: String,
    fields: FieldsSchema,
    discriminator: CodecSchema,
    vs: Vec<VariantSchema>,
    wrapper: Seq<char>,
    decoded: Seq<char>,
)
    ensures
        spec_schema_measure(DeriveSchema::Struct { ident: ident, fields: fields }, wrapper, decoded)
            == spec_fields_measure(fields, wrapper, decoded),
        spec_schema_measure(
            DeriveSchema::Enum { ident: ident, discriminator: discriminator, variants: vs },
            wrapper,
            decoded,
        ) == "match "@ + decoded + " { "@ + join_range(
            vs@.len(),
            ", "@,
            |k: nat|
                "variant @ "@ + (ident@ + "::"@ + vs@[k as int].ident@) + " "@
                    + spec_wildcard_pattern(vs@[k as int].fields) + " => { "@ + (
                "::byten::Measurer::measure(&"@ + discriminator.expr@ + ", "@ + ("(&"@
                    + vs@[k as int].discriminant@ + ")"@) + ")?"@) + " + "@ + spec_fields_measure(
                    vs@[k as int].fields,
                    ident@ + "::"@ + vs@[k as int].ident@,
                    "variant"@,
                ) + " }"@,
        ) + " }"@,
        spec_schema_measure_fixed(DeriveSchema::Struct { ident: ident, fields: fields }) == Ok::<
            Seq<char>,
            SchemaError,
        >(spec_fields_measure_fixed(fields)),
        spec_schema_measure_fixed(
            DeriveSchema::Enum { ident: ident, discriminator: discriminator, variants: vs },
        ) == Err::<Seq<char>, SchemaError>(SchemaError::FixedEnum),
{
    let f = variant_measure_piece(ident@, discriminator.expr@, vs@);
    let g = |k: nat|
        "variant @ "@ + (ident@ + "::"@ + vs@[k as int].ident@) + " "@ + spec_wildcard_pattern(
            vs@[k as int].fields,
        ) + " => { "@ + ("::byten::Measurer::measure(&"@ + discriminator.expr@ + ", "@ + ("(&"@
            + vs@[k as int].discriminant@ + ")"@) + ")?"@) + " + "@ + spec_fields_measure(
            vs@[k as int].fields,
            ident@ + "::"@ + vs@[k as int].ident@,
            "variant"@,
        ) + " }"@;
    assert(f =~= g);
}

/// One byte codecs: a `bool` is the byte 1 for `true` and 0 for `false`,
/// and reading any other byte is `InvalidData`; a `u8` is itself; an `i8`
/// is its two's complement byte.
pub proof fn law_byte_formats(b: bool, u: u8, i: i8, buf: Seq<u8>, off: int)
    ensures
        BoolCodec.spec_serialize(b) == Ok::<Seq<u8>, EncodeError>(seq![if b { 1u8 } else { 0u8 }]),
        U8Codec.spec_serialize(u) == Ok::<Seq<u8>, EncodeError>(seq![u]),
        I8Codec.spec_serialize(i) is Ok,
        I8Codec.spec_serialize(i)->Ok_0.len() == 1,
        I8Codec.spec_serialize(i)->Ok_0[0] as int == if i >= 0 {
            i as int
        } else {
            i as int + 256
        },
        0 <= off < buf.len() ==> BoolCodec.spec_decode(buf, off) == (
            off + 1,
            if buf[off] == 0 {
                Ok::<bool, DecodeError>(false)
            } else if buf[off] == 1 {
                Ok::<bool, DecodeError>(true)
            } else {
                Err::<bool, DecodeError>(DecodeError::InvalidData)
            },
        ),
{
    assert((i as u8) as int == if i >= 0 {
        i as int
    } else {
        i as int + 256
    }) by (bit_vector);
}

/// An optional value is the byte 1 for `None`; for `Some` it is the byte 0
/// followed by the value, and the value's encoding error is passed on.
pub proof fn law_option_format<Item: SpecCodec>(c: OptionCodec<Item>, x: Item::Value)
    ensures
        c.spec_serialize(None) == Ok::<Seq<u8>, EncodeError>(seq![1u8]),
        c.spec_serialize(Some(x)) == match c.0.spec_serialize(x) {
            Ok(s) => Ok::<Seq<u8>, EncodeError>(seq![0u8] + s),
            Err(e) => Err::<Seq<u8>, EncodeError>(e),
        },
{
}

/// A byte string is its length, written by the length codec, followed by
/// its bytes; a length that the length type cannot hold is a
/// `CodecFailure`.
pub proof fn law_bytes_format<Length: SpecCodec<Value = N>, N: LengthValue>(
    c: BytesCodec<Length>,
    v: Seq<u8>,
)
    requires
        v.len() <= usize::MAX,
    ensures
        c.spec_serialize(v) == match N::spec_from_usize(v.len() as usize) {
            None => Err::<Seq<u8>, EncodeError>(EncodeError::CodecFailure),
            Some(n) => match c.0.spec_serialize(n) {
                Ok(s) => Ok::<Seq<u8>, EncodeError>(s + v),
                Err(e) => Err::<Seq<u8>, EncodeError>(e),
            },
        },
{
}

/// A collection is its number of items, written by the length codec,
/// followed by the items one after the other; a number that the length type
/// cannot hold is a `CodecFailure`.
pub proof fn law_prefixed_format<C, Length: SpecCodec<Value = N>, N: LengthValue, Item: SpecCodec>(
    c: PrefixedCodec<C, Length, Item>,
    v: Seq<Item::Value>,
)
    requires
        v.len() <= usize::MAX,
    ensures
        c.spec_serialize(v) == match N::spec_from_usize(v.len() as usize) {
            None => Err::<Seq<u8>, EncodeError>(EncodeError::CodecFailure),
            Some(n) => match c.length.spec_serialize(n) {
                Err(e) => Err::<Seq<u8>, EncodeError>(e),
                Ok(s) => match items_serialize(c.item, v) {
                    Ok(t) => Ok::<Seq<u8>, EncodeError>(s + t),
                    Err(e) => Err::<Seq<u8>, EncodeError>(e),
                },
            },
        },
{
}

/// A C string is written as it is, nul included; bytes that do not end in
/// their only nul are `InvalidData`.
pub proof fn law_cstr_format(v: Seq<u8>)
    ensures
        CStrCodec.spec_serialize(v) == if v.len() >= 1 && v[v.len() - 1] == 0 && (forall|i: int|
            0 <= i < v.len() - 1 ==> #[trigger] v[i] != 0) {
            Ok::<Seq<u8>, EncodeError>(v)
        } else {
            Err::<Seq<u8>, EncodeError>(EncodeError::InvalidData)
        },
{
}

/// What each `$name` modifier makes of the codec built so far: `$be`,
/// `$le` and `$uvarbe` turn a type into its big-endian, little-endian or
/// variable-length big-endian codec and refuse any other codec; `$own`,
/// `$opt`, `$utf8` and `$arr` wrap the codec; `$bytes[length]` is a byte
/// string with that length codec and `$vec[length]` a collection of the
/// codec's values with it; any other name is unknown. Only `$bytes` and
/// `$vec` read a bracketed group.
pub proof fn law_modifiers(t: String, op: Operand, name: String, groups: Seq<Operand>)
    ensures
        name@ == "be"@ ==> spec_modifier(Operand::Type(t), name, groups) == Ok::<
            Operand,
            AttrError,
        >(Operand::BigEndian(t)) && spec_codec_expr(Operand::BigEndian(t))
            == "::byten::EndianCodec::<"@ + t@ + ">::new(::byten::Endianness::Big)"@,
        name@ == "le"@ ==> spec_modifier(Operand::Type(t), name, groups) == Ok::<
            Operand,
            AttrError,
        >(Operand::LittleEndian(t)) && spec_codec_expr(Operand::LittleEndian(t))
            == "::byten::EndianCodec::<"@ + t@ + ">::new(::byten::Endianness::Little)"@,
        name@ == "uvarbe"@ ==> spec_modifier(Operand::Type(t), name, groups) == Ok::<
            Operand,
            AttrError,
        >(Operand::UVarBE(t)) && spec_codec_expr(Operand::UVarBE(t)) == "::byten::UVarBECodec::<"@
            + t@ + ">::new()"@,
        (name@ == "be"@ || name@ == "le"@ || name@ == "uvarbe"@) && !(op is Type) ==> spec_modifier(
            op,
            name,
            groups,
        ) == Err::<Operand, AttrError>(AttrError::NotAType),
        name@ == "own"@ ==> spec_modifier(op, name, groups) == Ok::<Operand, AttrError>(
            Operand::Own(Box::new(op)),
        ) && spec_codec_expr(Operand::Own(Box::new(op))) == "::byten::OwnedCodec::new("@
            + spec_codec_expr(op) + ")"@,
        name@ == "opt"@ ==> spec_modifier(op, name, groups) == Ok::<Operand, AttrError>(
            Operand::Opt(Box::new(op)),
        ) && spec_codec_expr(Operand::Opt(Box::new(op))) == "::byten::OptionCodec::new("@
            + spec_codec_expr(op) + ")"@,
        name@ == "utf8"@ ==> spec_modifier(op, name, groups) == Ok::<Operand, AttrError>(
            Operand::Utf8(Box::new(op)),
        ) && spec_codec_expr(Operand::Utf8(Box::new(op))) == "::byten::UTF8Codec::new("@
            + spec_codec_expr(op) + ")"@,
        name@ == "arr"@ ==> spec_modifier(op, name, groups) == Ok::<Operand, AttrError>(
            Operand::Arr(Box::new(op)),
        ) && spec_codec_expr(Operand::Arr(Box::new(op))) == "::byten::ArrayCodec::new("@
            + spec_codec_expr(op) + ")"@,
        name@ == "bytes"@ && groups.len() == 1 ==> spec_modifier(op, name, groups) == Ok::<
            Operand,
            AttrError,
        >(Operand::Bytes(Box::new(groups[0]))) && spec_codec_expr(
            Operand::Bytes(Box::new(groups[0])),
        ) == "::byten::BytesCodec::new("@ + spec_codec_expr(groups[0]) + ")"@,
        name@ == "vec"@ && groups.len() == 1 ==> spec_modifier(op, name, groups) == Ok::<
            Operand,
            AttrError,
        >(Operand::Vec(Box::new(op), Box::new(groups[0]))) && spec_codec_expr(
            Operand::Vec(Box::new(op), Box::new(groups[0])),
        ) == "::byten::VecCodec::new("@ + spec_codec_expr(op) + ", "@ + spec_codec_expr(groups[0])
            + ")"@,
        !(name@ == "be"@ || name@ == "le"@ || name@ == "uvarbe"@ || name@ == "own"@ || name@
            == "opt"@ || name@ == "utf8"@ || name@ == "arr"@ || name@ == "bytes"@ || name@
            == "vec"@) ==> spec_modifier(op, name, groups) == Err::<Operand, AttrError>(
            AttrError::UnknownModifier(name),
        ),
        spec_modifier_groups(name@) == if name@ == "bytes"@ || name@ == "vec"@ {
            1nat
        } else {
            0nat
        },
{
    reveal_strlit("be");
    reveal_strlit("le");
    reveal_strlit("uvarbe");
    reveal_strlit("own");
    reveal_strlit("opt");
    reveal_strlit("utf8");
    reveal_strlit("arr");
    reveal_strlit("bytes");
    reveal_strlit("vec");
    assert("be"@ =~= seq!['b', 'e']);
    assert("le"@ =~= seq!['l', 'e']);
    assert("uvarbe"@ =~= seq!['u', 'v', 'a', 'r', 'b', 'e']);
    assert("own"@ =~= seq!['o', 'w', 'n']);
    assert("opt"@ =~= seq!['o', 'p', 't']);
    assert("utf8"@ =~= seq!['u', 't', 'f', '8']);
    assert("arr"@ =~= seq!['a', 'r', 'r']);
    assert("bytes"@ =~= seq!['b', 'y', 't', 'e', 's']);
    assert("vec"@ =~= seq!['v', 'e', 'c']);
}

/// What each step other than a modifier makes of the codec built so far:
/// `{ expr }` makes the expression the codec, `..` the codec of all
/// remaining bytes, `box` the boxed codec of what was built, `= expr` the
/// codec of that constant with no bytes, and a type its default codec; the
/// text of each is the expression that builds it.
pub proof fn law_steps(op: Operand, e: String, t: String)
    ensures
        spec_step(op, Step::Braced(e)) == Ok::<Operand, AttrError>(Operand::Custom(e))
            && spec_codec_expr(Operand::Custom(e)) == e@,
        spec_step(op, Step::Rest) == Ok::<Operand, AttrError>(Operand::Remaining) && spec_codec_expr(
            Operand::Remaining,
        ) == "::byten::RemainingCodec::new()"@,
        spec_step(op, Step::Boxed) == Ok::<Operand, AttrError>(Operand::Boxed(Box::new(op)))
            && spec_codec_expr(Operand::Boxed(Box::new(op))) == "::byten::BoxCodec::new("@
            + spec_codec_expr(op) + ")"@,
        spec_step(op, Step::Constant(e)) == Ok::<Operand, AttrError>(Operand::Phantom(e))
            && spec_codec_expr(Operand::Phantom(e)) == "::byten::PhantomCodec::new("@ + e@ + ")"@,
        spec_step(op, Step::Type(t)) == Ok::<Operand, AttrError>(Operand::Type(t)) && spec_codec_expr(
            Operand::Type(t),
        ) == "<"@ + t@ + " as ::byten::DefaultCodec>::default_codec()"@,
        spec_codec_expr(Operand::Default) == "::byten::DefaultCodec::default_codec()"@,
{
}

/// Raw bytes are written as they are. The rest of the input decodes to
/// every byte from the offset to the end, however many; an array of `N`
/// bytes decodes to the next `N` bytes, and fewer than `N` left is `EOF`.
pub proof fn law_raw_bytes_formats<const N: usize>(v: Seq<u8>, buf: Seq<u8>, off: int)
    requires
        0 <= off,
    ensures
        RemainingCodec.spec_serialize(v) == Ok::<Seq<u8>, EncodeError>(v),
        U8ArrayCodec::<N>.spec_serialize(v) == Ok::<Seq<u8>, EncodeError>(v),
        off <= buf.len() ==> RemainingCodec.spec_decode(buf, off) == (
            buf.len() as int,
            Ok::<Seq<u8>, DecodeError>(buf.subrange(off, buf.len() as int)),
        ),
        U8ArrayCodec::<N>.spec_decode(buf, off) == if off + N <= buf.len() {
            (off + N, Ok::<Seq<u8>, DecodeError>(buf.subrange(off, off + N)))
        } else {
            (off, Err::<Seq<u8>, DecodeError>(DecodeError::EOF))
        },
{
}

/// The discriminants of an enum have the type of its first `repr`
/// attribute, `#[repr(T)]`; with none the enum is refused, and a first one
/// that names no type is refused too.
pub proof fn law_repr(reprs: Seq<ReprInput>)
    ensures
        reprs.len() == 0 ==> spec_repr(reprs) == Err::<String, SchemaError>(SchemaError::MissingRepr),
        reprs.len() > 0 ==> spec_repr(reprs) == match reprs[0] {
            ReprInput::Type(t) => Ok::<String, SchemaError>(t),
            ReprInput::Malformed(m) => Err::<String, SchemaError>(SchemaError::Syntax(m)),
            ReprInput::Invalid => Err::<String, SchemaError>(SchemaError::InvalidRepr),
        },
{
}

/// A successful encode into a zeroed buffer of exactly the measured size,
/// from its start, fills the buffer with the serialization: this is the
/// vector that the vector encoders return.
pub proof fn law_encode_into_exact_buffer<C: SpecCodec>(c: C, v: C::Value)
    requires
        c.spec_serialize(v) is Ok,
    ensures
        ({
            let s = c.spec_serialize(v)->Ok_0;
            let zeros = Seq::new(s.len(), |i: int| 0u8);
            c.spec_encode(v, zeros, 0).2 is Ok && c.spec_encode(v, zeros, 0).0 == s
                && c.spec_encode(v, zeros, 0).1 == s.len()
        }),
{
    let s = c.spec_serialize(v)->Ok_0;
    let zeros = Seq::new(s.len(), |i: int| 0u8);
    c.lemma_encode(v, zeros, 0);
    assert(splice(zeros, 0, s) =~= s);
}

/// The sizes of the items' serializations added up.
pub open spec fn items_size<C: SpecCodec>(c: C, vs: Seq<C::Value>) -> int
    decreases vs.len(),
{
    if vs.len() == 0 {
        0
    } else {
        items_size(c, vs.drop_last()) + c.spec_serialize(vs.last())->Ok_0.len()
    }
}

/// An array serializes its items one after the other: when it serializes
/// at all, every item does, and its size is the sum of theirs.
pub proof fn law_items_size<C: SpecCodec>(c: C, vs: Seq<C::Value>)
    ensures
        items_serialize(c, vs) is Ok ==> {
            &&& forall|i: int| 0 <= i < vs.len() ==> c.spec_serialize(#[trigger] vs[i]) is Ok
            &&& items_serialize(c, vs)->Ok_0.len() == items_size(c, vs)
        },
    decreases vs.len(),
{
    if vs.len() > 0 {
        let dl = vs.drop_last();
        law_items_size(c, dl);
        if items_serialize(c, vs) is Ok {
            assert forall|i: int| 0 <= i < vs.len() implies c.spec_serialize(#[trigger] vs[i]) is Ok by {
                if i < vs.len() - 1 {
                    assert(vs[i] == dl[i]);
                }
            }
        }
    }
}

/// A successful array encode moves the offset by the sum of the items'
/// sizes, which is what measuring each item gives.
pub proof fn law_array_encoded_size<Item: SpecCodec, const N: usize>(
    c: ArrayCodec<Item, N>,
    v: Seq<Item::Value>,
    buf: Seq<u8>,
    off: int,
)
    requires
        0 <= off,
        c.spec_encode(v, buf, off).2 is Ok,
    ensures
        forall|i: int| 0 <= i < v.len() ==> c.0.spec_serialize(#[trigger] v[i]) is Ok,
        c.spec_encode(v, buf, off).1 == off + items_size(c.0, v),
{
    c.lemma_encode(v, buf, off);
    law_items_size(c.0, v);
}

} // verus!
