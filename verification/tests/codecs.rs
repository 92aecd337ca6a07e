use byten::{
    ArrayCodec, BoolCodec, BoxCodec, BytesCodec, CStrCodec, DecodeError, Decoder, EncodeError,
    Encoder, EncoderToHeaplessVec, EncoderToVec, EndianCodec, EndianCoded, Endianness,
    FixedMeasurer, I8Codec, Measurer, OptionCodec, OwnedCodec, PhantomCodec, PrefixedCodec,
    RemainingCodec, U8ArrayCodec, U8ArrayRefCodec, U8Codec, UTF8Codec, UnitCodec,
};

#[test]
fn u8_codec_round_trip() {
    let value: u8 = 42;
    let mut encoded = [0u8; 1];
    let mut offset = 0;
    U8Codec.encode(&value, &mut encoded, &mut offset).unwrap();
    assert_eq!(offset, 1);
    assert_eq!(encoded, [42]);

    let mut decode_offset = 0;
    let decoded: u8 = U8Codec.decode(&encoded, &mut decode_offset).unwrap();
    assert_eq!(decoded, value);
    assert_eq!(decode_offset, 1);

    assert_eq!(U8Codec.measure(&value).unwrap(), 1);
    assert_eq!(U8Codec.measure_fixed(), 1);
}

#[test]
fn u8_codec_errors() {
    let mut empty: [u8; 0] = [];
    let mut offset = 0;
    assert_eq!(U8Codec.encode(&7, &mut empty, &mut offset), Err(EncodeError::BufferTooSmall));
    assert_eq!(offset, 0);
    assert_eq!(U8Codec.decode(&empty, &mut offset), Err(DecodeError::EOF));
    assert_eq!(offset, 0);
    let mut offset = 5;
    assert_eq!(U8Codec.decode(&[1, 2], &mut offset), Err(DecodeError::EOF));
    assert_eq!(offset, 5);
}

#[test]
fn i8_codec_round_trip() {
    let value: i8 = -42;
    let mut encoded = [0u8; 1];
    let mut offset = 0;
    I8Codec.encode(&value, &mut encoded, &mut offset).unwrap();
    assert_eq!(offset, 1);
    assert_eq!(encoded, [0xd6]);

    let mut decode_offset = 0;
    let decoded: i8 = I8Codec.decode(&encoded, &mut decode_offset).unwrap();
    assert_eq!(decoded, value);
    assert_eq!(decode_offset, 1);

    assert_eq!(I8Codec.measure(&value).unwrap(), 1);
    assert_eq!(I8Codec.measure_fixed(), 1);
}

#[test]
fn u8_array_codec_round_trip() {
    let array: [u8; 4] = [1, 2, 3, 4];
    let mut encoded = [0u8; 4];
    let mut offset = 0;
    U8ArrayCodec::<4>.encode(&array, &mut encoded, &mut offset).unwrap();
    assert_eq!(offset, 4);
    assert_eq!(encoded, array);

    let mut decode_offset = 0;
    let decoded: [u8; 4] = U8ArrayCodec::<4>.decode(&encoded, &mut decode_offset).unwrap();
    assert_eq!(decoded, array);
    assert_eq!(decode_offset, 4);

    assert_eq!(U8ArrayCodec::<4>.measure(&array).unwrap(), 4);
    assert_eq!(U8ArrayCodec::<4>.measure_fixed(), 4);
}

#[test]
fn u8_array_codec_short_input() {
    let mut offset = 1;
    assert_eq!(U8ArrayCodec::<4>.decode(&[1, 2, 3, 4], &mut offset), Err(DecodeError::EOF));
    assert_eq!(offset, 1);
    let mut buffer = [9u8; 3];
    let mut offset = 0;
    assert_eq!(
        U8ArrayCodec::<4>.encode(&[1, 2, 3, 4], &mut buffer, &mut offset),
        Err(EncodeError::BufferTooSmall)
    );
    assert_eq!(buffer, [9, 9, 9]);
    assert_eq!(offset, 0);
}

#[test]
fn u8_array_ref_codec_round_trip() {
    let array_ref: &[u8; 4] = &[1, 2, 3, 4];
    let mut encoded = [0u8; 4];
    let mut offset = 0;
    U8ArrayRefCodec.encode(array_ref, &mut encoded, &mut offset).unwrap();
    assert_eq!(offset, 4);

    let mut decode_offset = 0;
    let decoded: &[u8; 4] = U8ArrayRefCodec.decode(&encoded, &mut decode_offset).unwrap();
    assert_eq!(decoded, array_ref);
    assert_eq!(decode_offset, 4);

    assert_eq!(U8ArrayRefCodec::<4>.measure(array_ref).unwrap(), 4);
    assert_eq!(U8ArrayRefCodec::<4>.measure_fixed(), 4);
}

#[test]
fn bool_codec_round_trip() {
    let value: bool = true;
    let mut encoded = [0u8; 1];
    let mut offset = 0;
    BoolCodec.encode(&value, &mut encoded, &mut offset).unwrap();
    assert_eq!(offset, 1);
    assert_eq!(encoded, [1]);

    let mut decode_offset = 0;
    let decoded: bool = BoolCodec.decode(&encoded, &mut decode_offset).unwrap();
    assert_eq!(decoded, value);
    assert_eq!(decode_offset, 1);

    assert_eq!(BoolCodec.measure(&value).unwrap(), 1);
    assert_eq!(BoolCodec.measure_fixed(), 1);

    let mut offset = 0;
    BoolCodec.encode(&false, &mut encoded, &mut offset).unwrap();
    assert_eq!(encoded, [0]);
}

#[test]
fn bool_codec_rejects_other_bytes() {
    let mut offset = 0;
    assert_eq!(BoolCodec.decode(&[2], &mut offset), Err(DecodeError::InvalidData));
    assert_eq!(offset, 1);
}

#[test]
fn box_codec_round_trip() {
    let codec = BoxCodec::new(EndianCodec::<u32>::le());
    let value: Box<u32> = Box::new(42);
    let mut encoded = [0u8; 4];
    let mut offset = 0;
    codec.encode(&value, &mut encoded, &mut offset).unwrap();
    assert_eq!(offset, 4);
    assert_eq!(encoded, [42, 0, 0, 0]);

    let mut decode_offset = 0;
    let decoded: Box<u32> = codec.decode(&encoded, &mut decode_offset).unwrap();
    assert_eq!(*decoded, *value);
    assert_eq!(decode_offset, 4);

    assert_eq!(codec.measure(&value).unwrap(), 4);
    assert_eq!(codec.measure_fixed(), 4);
}

#[test]
fn endian_codec_little() {
    let value: u32 = 0x12345678;
    let codec = EndianCodec::new(Endianness::Little);
    let mut encoded = [0u8; 4];
    let mut offset = 0;
    codec.encode(&value, &mut encoded, &mut offset).unwrap();
    assert_eq!(offset, 4);
    assert_eq!(encoded, [0x78, 0x56, 0x34, 0x12]);

    let mut decode_offset = 0;
    let decoded: u32 = codec.decode(&encoded, &mut decode_offset).unwrap();
    assert_eq!(decoded, value);
    assert_eq!(decode_offset, 4);

    assert_eq!(codec.measure(&value).unwrap(), 4);
    assert_eq!(codec.measure_fixed(), 4);
}

#[test]
fn endian_codec_big() {
    let codec = EndianCodec::<u32>::be();
    let mut encoded = [0xffu8; 6];
    let mut offset = 1;
    codec.encode(&0x12345678, &mut encoded, &mut offset).unwrap();
    assert_eq!(encoded, [0xff, 0x12, 0x34, 0x56, 0x78, 0xff]);
    assert_eq!(offset, 5);
    let mut decode_offset = 1;
    assert_eq!(codec.decode(&encoded, &mut decode_offset), Ok(0x12345678));
    assert_eq!(decode_offset, 5);
}

#[test]
fn endian_codec_signed_and_wide() {
    let codec = EndianCodec::<i16>::le();
    let mut encoded = [0u8; 2];
    let mut offset = 0;
    codec.encode(&-2, &mut encoded, &mut offset).unwrap();
    assert_eq!(encoded, [0xfe, 0xff]);
    let mut offset = 0;
    assert_eq!(codec.decode(&encoded, &mut offset), Ok(-2));

    let codec = EndianCodec::<i64>::be();
    let mut encoded = [0u8; 8];
    let mut offset = 0;
    codec.encode(&i64::MIN, &mut encoded, &mut offset).unwrap();
    assert_eq!(encoded, [0x80, 0, 0, 0, 0, 0, 0, 0]);
    let mut offset = 0;
    assert_eq!(codec.decode(&encoded, &mut offset), Ok(i64::MIN));

    let codec = EndianCodec::<u128>::le();
    let mut encoded = [0u8; 16];
    let mut offset = 0;
    codec.encode(&1, &mut encoded, &mut offset).unwrap();
    let mut expected = [0u8; 16];
    expected[0] = 1;
    assert_eq!(encoded, expected);
    assert_eq!(codec.measure_fixed(), 16);
}

#[test]
fn endian_codec_eof() {
    let codec = EndianCodec::<u16>::le();
    let mut offset = 1;
    assert_eq!(codec.decode(&[1, 2], &mut offset), Err(DecodeError::EOF));
    assert_eq!(offset, 1);
}

#[test]
fn endian_coded_methods() {
    let value: u32 = 0x12345678;
    let mut bytes = [0u8; 4];
    value.encode(Endianness::Little, &mut bytes);
    assert_eq!(bytes, [0x78, 0x56, 0x34, 0x12]);
    let decoded = u32::decode(Endianness::Little, &bytes);
    assert_eq!(decoded, value);
    value.encode(Endianness::Big, &mut bytes);
    assert_eq!(bytes, [0x12, 0x34, 0x56, 0x78]);
    assert_eq!(<u64 as EndianCoded>::length(), 8);
}

#[test]
fn remaining_codec_round_trip() {
    let codec = RemainingCodec::new();
    let data: &[u8] = b"Hello, world!";
    let encoded = codec.encode_to_heapless_vec::<20>(data).unwrap();
    assert_eq!(encoded.as_slice(), b"Hello, world!");

    let mut decode_offset = 0;
    let decoded: &[u8] = codec.decode(encoded.as_slice(), &mut decode_offset).unwrap();
    assert_eq!(decoded, data);
    assert_eq!(decode_offset, encoded.len());
}

#[test]
fn remaining_codec_from_the_middle() {
    let codec = RemainingCodec::new();
    let mut offset = 3;
    assert_eq!(codec.decode(b"abcdef", &mut offset), Ok(&b"def"[..]));
    assert_eq!(offset, 6);
    let mut offset = 6;
    assert_eq!(codec.decode(b"abcdef", &mut offset), Ok(&b""[..]));
    let mut offset = 7;
    assert_eq!(codec.decode(b"abcdef", &mut offset), Err(DecodeError::InvalidData));
    assert_eq!(offset, 7);
    assert_eq!(codec.measure(b"abc").unwrap(), 3);
}

#[test]
fn option_codec_round_trip() {
    let codec = OptionCodec::new(EndianCodec::<u32>::le());
    let some_value = Some(0x12345678u32);
    let none_value: Option<u32> = None;

    let encoded_some = codec.encode_to_heapless_vec::<10>(&some_value).unwrap();
    let encoded_none = codec.encode_to_heapless_vec::<10>(&none_value).unwrap();
    assert_eq!(encoded_some.as_slice(), &[0, 0x78, 0x56, 0x34, 0x12]);
    assert_eq!(encoded_none.as_slice(), &[1]);

    let mut decode_offset = 0;
    let decoded_some: Option<u32> = codec.decode(encoded_some.as_slice(), &mut decode_offset).unwrap();
    assert_eq!(decoded_some, some_value);
    assert_eq!(decode_offset, 5);

    decode_offset = 0;
    let decoded_none: Option<u32> = codec.decode(encoded_none.as_slice(), &mut decode_offset).unwrap();
    assert_eq!(decoded_none, none_value);
    assert_eq!(decode_offset, 1);

    let some_size = codec.measure(&some_value).unwrap();
    let none_size = codec.measure(&none_value).unwrap();
    assert!(some_size > none_size);
    assert_eq!(none_size, 1);
    assert_eq!(some_size, 5);
}

#[test]
fn option_codec_bad_flag() {
    let codec = OptionCodec::new(U8Codec);
    let mut offset = 0;
    assert_eq!(codec.decode(&[7, 1], &mut offset), Err(DecodeError::InvalidData));
    let mut offset = 0;
    assert_eq!(codec.decode(&[0], &mut offset), Err(DecodeError::EOF));
    assert_eq!(offset, 1);
}

#[test]
fn bytes_codec_round_trip() {
    let codec = BytesCodec::new(EndianCodec::<u16>::le());
    let data: &[u8] = b"Hello, world!";
    let encoded = codec.encode_to_heapless_vec::<20>(data).unwrap();
    assert_eq!(encoded.len(), 2 + data.len());
    assert_eq!(&encoded.as_slice()[..2], &[13, 0]);

    let mut decode_offset = 0;
    let decoded: &[u8] = codec.decode(encoded.as_slice(), &mut decode_offset).unwrap();
    assert_eq!(decoded, data);
    assert_eq!(decode_offset, encoded.len());

    assert_eq!(codec.measure(data).unwrap(), 2 + data.len());
}

#[test]
fn bytes_codec_length_errors() {
    let codec = BytesCodec::new(U8Codec);
    let long = [0u8; 300];
    let mut buffer = [0u8; 400];
    let mut offset = 0;
    assert_eq!(codec.encode(&long, &mut buffer, &mut offset), Err(EncodeError::CodecFailure));
    assert_eq!(codec.measure(&long), Err(EncodeError::CodecFailure));
    let mut offset = 0;
    assert_eq!(codec.decode(&[5, 1, 2], &mut offset), Err(DecodeError::InvalidData));
    assert_eq!(offset, 1);
}

#[test]
fn utf8_codec_with_phantom_length() {
    let s: &str = "Hello, world!";
    let codec = UTF8Codec::new(BytesCodec::new(PhantomCodec::new(13u8)));
    let encoded = codec.encode_to_heapless_vec::<20>(s).unwrap();
    assert_eq!(encoded.len(), 13);
    assert_eq!(encoded.as_slice(), b"Hello, world!");

    let mut decode_offset = 0;
    let decoded: &str = codec.decode(encoded.as_slice(), &mut decode_offset).unwrap();
    assert_eq!(decoded, s);
    assert_eq!(decode_offset, 13);

    assert_eq!(codec.measure(s).unwrap(), 13);
}

#[test]
fn utf8_codec_with_u16_length() {
    let s: &str = "Hello, world!";
    let codec = UTF8Codec::new(BytesCodec::new(EndianCodec::<u16>::le()));
    let encoded = codec.encode_to_heapless_vec::<20>(s).unwrap();
    assert_eq!(encoded.len(), 15);

    let mut decode_offset = 0;
    let decoded: &str = codec.decode(encoded.as_slice(), &mut decode_offset).unwrap();
    assert_eq!(decoded, s);
    assert_eq!(decode_offset, 15);

    assert_eq!(codec.measure(s).unwrap(), 15);
}

#[test]
fn utf8_codec_rejects_invalid_utf8() {
    let codec = UTF8Codec::new(RemainingCodec::new());
    let mut offset = 0;
    assert_eq!(codec.decode(&[0x61, 0xff, 0x62], &mut offset), Err(DecodeError::InvalidData));
    let mut offset = 0;
    assert_eq!(codec.decode("héllo".as_bytes(), &mut offset), Ok("héllo"));
    assert_eq!(offset, 6);
}

#[test]
fn cstr_codec_round_trip() {
    let s: &[u8] = b"Hello, world!\0";
    let codec = CStrCodec::new();
    let encoded = codec.encode_to_heapless_vec::<20>(s).unwrap();
    assert_eq!(encoded.as_slice(), b"Hello, world!\0");

    let mut decode_offset = 0;
    let decoded: &[u8] = codec.decode(encoded.as_slice(), &mut decode_offset).unwrap();
    assert_eq!(decoded, s);
    assert_eq!(decode_offset, encoded.len());

    assert_eq!(codec.measure(s).unwrap(), encoded.len());
}

#[test]
fn cstr_codec_stops_at_first_nul() {
    let codec = CStrCodec::new();
    let mut offset = 1;
    assert_eq!(codec.decode(b"xab\0cd\0", &mut offset), Ok(&b"ab\0"[..]));
    assert_eq!(offset, 4);
    let mut offset = 0;
    assert_eq!(codec.decode(b"no nul", &mut offset), Err(DecodeError::InvalidData));
    assert_eq!(offset, 0);
    let mut buffer = [0u8; 8];
    let mut offset = 0;
    assert_eq!(codec.encode(b"a\0b\0", &mut buffer, &mut offset), Err(EncodeError::InvalidData));
    assert_eq!(codec.measure(b"abc"), Err(EncodeError::InvalidData));
}

#[test]
fn owned_codec_round_trip() {
    let s: String = "Hello, world!".to_owned();
    let str_codec = UTF8Codec::new(BytesCodec::new(PhantomCodec::new(13u8)));
    let codec = OwnedCodec::new(str_codec);

    let encoded = codec.encode_to_vec(&s).unwrap();
    assert_eq!(encoded.len(), 13);
    assert_eq!(encoded, b"Hello, world!");

    let mut decode_offset = 0;
    let decoded: String = codec.decode(&encoded, &mut decode_offset).unwrap();
    assert_eq!(decoded, s);
    assert_eq!(decode_offset, 13);

    assert_eq!(codec.measure(&s).unwrap(), 13);
}

#[test]
fn owned_bytes_codec() {
    let codec = OwnedCodec::new(BytesCodec::new(U8Codec));
    let data: Vec<u8> = vec![9, 8, 7];
    let encoded = codec.encode_to_vec(&data).unwrap();
    assert_eq!(encoded, vec![3, 9, 8, 7]);
    let mut offset = 0;
    let decoded: Vec<u8> = codec.decode(&encoded, &mut offset).unwrap();
    assert_eq!(decoded, data);
}

#[test]
fn phantom_codec_round_trip() {
    let codec = PhantomCodec::new(42u32);
    let encoded = codec.encode_to_vec(&42u32).unwrap();
    assert_eq!(encoded.len(), 0);
    assert_eq!(encoded, Vec::<u8>::new());

    let mut decode_offset = 0;
    let decoded: u32 = codec.decode(&encoded, &mut decode_offset).unwrap();
    assert_eq!(decoded, 42u32);
    assert_eq!(decode_offset, 0);

    assert_eq!(codec.measure(&42u32).unwrap(), 0);
    assert_eq!(codec.measure_fixed(), 0);
}

#[test]
fn phantom_codec_rejects_other_values() {
    let codec = PhantomCodec::new(42u32);
    assert_eq!(codec.encode_to_vec(&41u32), Err(EncodeError::InvalidData));
    assert_eq!(codec.measure(&41u32), Err(EncodeError::InvalidData));
}

#[test]
fn unit_codec_round_trip() {
    let codec = UnitCodec::new();
    let mut encoded = [0u8; 0];
    let mut offset = 0;
    codec.encode(&(), &mut encoded, &mut offset).unwrap();
    assert_eq!(offset, 0);

    let mut decode_offset = 0;
    let decoded: () = codec.decode(&encoded, &mut decode_offset).unwrap();
    assert_eq!(decoded, ());
    assert_eq!(decode_offset, 0);

    assert_eq!(codec.measure(&()).unwrap(), 0);
    assert_eq!(codec.measure_fixed(), 0);
}

#[test]
fn array_codec_round_trip() {
    let codec = ArrayCodec::<_, 3>::new(EndianCodec::<u16>::be());
    let value: [u16; 3] = [1, 0x0203, 0xffff];
    let encoded = codec.encode_to_vec(&value).unwrap();
    assert_eq!(encoded, vec![0, 1, 2, 3, 0xff, 0xff]);
    let mut offset = 0;
    let decoded: [u16; 3] = codec.decode(&encoded, &mut offset).unwrap();
    assert_eq!(decoded, value);
    assert_eq!(offset, 6);
    assert_eq!(codec.measure(&value).unwrap(), 6);
    assert_eq!(codec.measure_fixed(), 6);
}

#[test]
fn array_codec_partial_input() {
    let codec = ArrayCodec::<_, 3>::new(U8Codec);
    let mut offset = 0;
    assert_eq!(codec.decode(&[1, 2], &mut offset), Err(DecodeError::EOF));
    assert_eq!(offset, 2);
    let mut buffer = [0u8; 2];
    let mut offset = 0;
    assert_eq!(codec.encode(&[5, 6, 7], &mut buffer, &mut offset), Err(EncodeError::BufferTooSmall));
    assert_eq!(buffer, [5, 6]);
    assert_eq!(offset, 2);
}

#[test]
fn prefixed_codec_round_trip() {
    let codec: PrefixedCodec<Vec<u16>, _, _> =
        PrefixedCodec::new(U8Codec, EndianCodec::<u16>::le());
    let value: Vec<u16> = vec![1, 2, 0x0304];
    let encoded = codec.encode_to_vec(&value).unwrap();
    assert_eq!(encoded, vec![3, 1, 0, 2, 0, 4, 3]);
    let mut offset = 0;
    let decoded: Vec<u16> = codec.decode(&encoded, &mut offset).unwrap();
    assert_eq!(decoded, value);
    assert_eq!(offset, 7);
    assert_eq!(codec.measure(&value).unwrap(), 7);

    let empty: Vec<u16> = Vec::new();
    assert_eq!(codec.encode_to_vec(&empty).unwrap(), vec![0]);
}

#[test]
fn prefixed_codec_errors() {
    let codec: PrefixedCodec<Vec<u8>, _, _> = PrefixedCodec::new(U8Codec, U8Codec);
    let too_many: Vec<u8> = vec![0; 256];
    assert_eq!(codec.measure(&too_many), Err(EncodeError::CodecFailure));
    assert_eq!(codec.encode_to_vec(&too_many), Err(EncodeError::CodecFailure));
    let mut offset = 0;
    assert_eq!(codec.decode(&[3, 1, 2], &mut offset), Err(DecodeError::EOF));
    assert_eq!(offset, 3);
}

#[test]
fn codecs_by_reference() {
    let codec = EndianCodec::<u16>::be();
    let by_ref = &codec;
    let mut encoded = [0u8; 2];
    let mut offset = 0;
    by_ref.encode(&0x0102, &mut encoded, &mut offset).unwrap();
    assert_eq!(encoded, [1, 2]);
    let mut offset = 0;
    assert_eq!(Decoder::decode(&by_ref, &encoded, &mut offset), Ok(0x0102));
    assert_eq!(Measurer::measure(&by_ref, &5), Ok(2));
    assert_eq!(FixedMeasurer::measure_fixed(&by_ref), 2);
}

#[test]
fn codecs_in_a_box() {
    let codec: Box<EndianCodec<u16>> = Box::new(EndianCodec::<u16>::le());
    let mut encoded = [0u8; 2];
    let mut offset = 0;
    Encoder::encode(&codec, &0x0102, &mut encoded, &mut offset).unwrap();
    assert_eq!(encoded, [2, 1]);
    let mut offset = 0;
    assert_eq!(Decoder::decode(&codec, &encoded, &mut offset), Ok(0x0102));
    assert_eq!(Measurer::measure(&codec, &5), Ok(2));
    assert_eq!(FixedMeasurer::measure_fixed(&codec), 2);
}

#[test]
fn bytes_codec_with_signed_length() {
    let codec = BytesCodec::new(EndianCodec::<i16>::le());
    let encoded = codec.encode_to_vec(b"hey").unwrap();
    assert_eq!(encoded, vec![3, 0, b'h', b'e', b'y']);
    let mut offset = 0;
    assert_eq!(codec.decode(&encoded, &mut offset), Ok(&b"hey"[..]));
    let mut offset = 0;
    assert_eq!(codec.decode(&[0xff, 0xff, 1], &mut offset), Err(DecodeError::CodecFailure));
    assert_eq!(offset, 2);
    let long = vec![0u8; 40000];
    assert_eq!(codec.measure(&long), Err(EncodeError::CodecFailure));
}

#[test]
fn phantom_codec_of_a_char() {
    let codec = PhantomCodec::new('x');
    let mut offset = 0;
    assert_eq!(codec.decode(&[], &mut offset), Ok('x'));
    assert_eq!(codec.measure(&'x'), Ok(0));
    assert_eq!(codec.measure(&'y'), Err(EncodeError::InvalidData));
}
