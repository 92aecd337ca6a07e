//! The code that the derive macros generate for a struct, written out as
//! the library produces it, compiled against the library and run.

use byten::{
    derive_decode_owned, derive_default_codec, derive_encode, derive_measure, CodecSchema,
    DecodeOwned, DeriveSchema, EncodeToVec, FieldsSchema, Measure, NamedField,
};

#[derive(Debug, PartialEq)]
struct Point {
    x: u16,
    y: u8,
}

impl ::byten::DefaultCodec for Point { type Codec = ::byten::SelfCoded<Self>; fn spec_default_codec() -> ::byten::SelfCoded<Self> { ::byten::SelfCoded::<Self>::new() } fn default_codec() -> ::byten::SelfCoded<Self> { ::byten::SelfCoded::<Self>::new() } } impl ::byten::Model for Point { type M = Self; fn model(&self) -> Self { unreachable!() } } impl ::byten::SelfSpec for Point { type Codec = ::byten::SelfCoded<Self>; fn spec_codec() -> ::byten::SelfCoded<Self> { ::byten::SelfCoded::<Self>::new() } }

impl ::byten::Encode for Point { fn encode(&self, encoded: &mut [u8], offset: &mut usize) -> Result<(), ::byten::EncodeError> { let Self { x: variant_x, y: variant_y, } = self else { unreachable!() }; ::byten::Encoder::encode(&::byten::EndianCodec::<u16>::new(::byten::Endianness::Big), variant_x, encoded, offset)?; ::byten::Encoder::encode(&<u8 as ::byten::DefaultCodec>::default_codec(), variant_y, encoded, offset)?;  Ok(()) } }

impl ::byten::Measure for Point { fn measure(&self) -> Result<usize, ::byten::EncodeError> { Ok({ let Self { x: variant_x, y: variant_y, } = self else { unreachable!() }; 0 + ::byten::Measurer::measure(&::byten::EndianCodec::<u16>::new(::byten::Endianness::Big), variant_x)? + ::byten::Measurer::measure(&<u8 as ::byten::DefaultCodec>::default_codec(), variant_y)? }) } }

impl ::byten::Decode<'_> for Point { fn decode(encoded: &'_ [u8], offset: &mut usize) -> Result<Self, ::byten::DecodeError> { Ok(Point { x: ::byten::Decoder::decode(&::byten::EndianCodec::<u16>::new(::byten::Endianness::Big), encoded, offset)?, y: ::byten::Decoder::decode(&<u8 as ::byten::DefaultCodec>::default_codec(), encoded, offset)? }) } }

impl DecodeOwned for Point {}

fn s(text: &str) -> String {
    text.to_string()
}

fn schema() -> DeriveSchema {
    DeriveSchema::Struct {
        ident: s("Point"),
        fields: FieldsSchema::Named(vec![
            NamedField {
                ident: s("x"),
                codec: CodecSchema { expr: s("::byten::EndianCodec::<u16>::new(::byten::Endianness::Big)") },
            },
            NamedField {
                ident: s("y"),
                codec: CodecSchema { expr: s("<u8 as ::byten::DefaultCodec>::default_codec()") },
            },
        ]),
    }
}

fn squeeze(text: &str) -> String {
    text.split_whitespace().collect::<Vec<_>>().join(" ")
}

#[test]
fn generated_text_is_the_code_above() {
    let schema = schema();
    let ident = s("Point");
    let generics = s("");
    assert_eq!(
        squeeze(&derive_default_codec(&ident, &generics)),
        squeeze("impl ::byten::DefaultCodec for Point { type Codec = ::byten::SelfCoded<Self>; fn spec_default_codec() -> ::byten::SelfCoded<Self> { ::byten::SelfCoded::<Self>::new() } fn default_codec() -> ::byten::SelfCoded<Self> { ::byten::SelfCoded::<Self>::new() } } impl ::byten::Model for Point { type M = Self; fn model(&self) -> Self { unreachable!() } } impl ::byten::SelfSpec for Point { type Codec = ::byten::SelfCoded<Self>; fn spec_codec() -> ::byten::SelfCoded<Self> { ::byten::SelfCoded::<Self>::new() } }")
    );
    assert_eq!(
        squeeze(&derive_encode(&ident, &generics, &schema)),
        squeeze("impl ::byten::Encode for Point { fn encode(&self, encoded: &mut [u8], offset: &mut usize) -> Result<(), ::byten::EncodeError> { let Self { x: variant_x, y: variant_y, } = self else { unreachable!() }; ::byten::Encoder::encode(&::byten::EndianCodec::<u16>::new(::byten::Endianness::Big), variant_x, encoded, offset)?; ::byten::Encoder::encode(&<u8 as ::byten::DefaultCodec>::default_codec(), variant_y, encoded, offset)?;  Ok(()) } }")
    );
    assert_eq!(
        squeeze(&derive_measure(&ident, &generics, &schema)),
        squeeze("impl ::byten::Measure for Point { fn measure(&self) -> Result<usize, ::byten::EncodeError> { Ok({ let Self { x: variant_x, y: variant_y, } = self else { unreachable!() }; 0 + ::byten::Measurer::measure(&::byten::EndianCodec::<u16>::new(::byten::Endianness::Big), variant_x)? + ::byten::Measurer::measure(&<u8 as ::byten::DefaultCodec>::default_codec(), variant_y)? }) } }")
    );
    assert_eq!(
        squeeze(&derive_decode_owned(&ident, &generics, &schema)),
        squeeze("impl ::byten::Decode<'_> for Point { fn decode(encoded: &'_ [u8], offset: &mut usize) -> Result<Self, ::byten::DecodeError> { Ok(Point { x: ::byten::Decoder::decode(&::byten::EndianCodec::<u16>::new(::byten::Endianness::Big), encoded, offset)?, y: ::byten::Decoder::decode(&<u8 as ::byten::DefaultCodec>::default_codec(), encoded, offset)? }) } }")
    );
}

#[test]
fn generated_code_round_trips() {
    let point = Point { x: 0x0102, y: 7 };
    assert_eq!(point.measure(), Ok(3));
    let bytes = point.encode_to_vec().unwrap();
    assert_eq!(bytes, vec![1, 2, 7]);
    let mut offset = 0;
    let decoded = Point::decode_owned(&bytes, &mut offset).unwrap();
    assert_eq!(decoded, point);
    assert_eq!(offset, 3);
    let mut offset = 0;
    assert_eq!(Point::decode_owned(&bytes[..2], &mut offset), Err(byten::DecodeError::EOF));
}
